use vstd::prelude::*;

use crate::board::Board;
use crate::cell::Cell;
use crate::grid::Grid;

verus! {

/// Relies on `rand::random::<bool>`: a coin drawn from the thread-local
/// generator. Nothing is known of its value.
#[verifier::external_body]
fn coin_flip() -> (r: bool) {
    rand::random::<bool>()
}

impl Grid {
    /// Applies the fall rule to the cell at `(x, y)`. `coin` settles a tie
    /// between the two lower diagonals: `true` picks the right one.
    pub fn fall_at(&mut self, x: usize, y: usize, coin: bool)
        requires
            old(self).inv(),
            old(self)@.in_bounds(x as int, y as int),
        ensures
            final(self).inv(),
            final(self)@ == old(self)@.fall(x as int, y as int, coin),
    {
        if self.get(x, y) == Cell::Sand {
            let below = y + 1;
            if self.movable(x, below) {
                self.move_cell(x, y, x, below);
            } else {
                let right = self.movable(x + 1, below);
                let left = x > 0 && self.movable(x - 1, below);
                if right && (coin || !left) {
                    self.move_cell(x, y, x + 1, below);
                } else if left {
                    self.move_cell(x, y, x - 1, below);
                }
            }
        }
    }

    /// One tick with given tie-break coins, one per cell in row-major
    /// order: rows from the bottom up, each row left to right, the fall rule
    /// applied to each cell in turn on the board as the previous left it.
    pub fn step_with(&mut self, coins: &Vec<bool>)
        requires
            old(self).inv(),
            coins@.len() == old(self)@.width * old(self)@.height,
        ensures
            final(self).inv(),
            final(self)@ == old(self)@.step(coins@),
    {
        let ghost target = old(self)@.step(coins@);
        let w = self.width();
        let mut i = self.height();
        while i > 0
            invariant
                self.inv(),
                self@.width == w,
                self@.height == old(self)@.height,
                coins@.len() == self@.width * self@.height,
                i <= self@.height,
                self@.rows_from(coins@, i as nat) == target,
            decreases i,
        {
            i = i - 1;
            let mut j: usize = 0;
            while j < w
                invariant
                    self.inv(),
                    self@.width == w,
                    self@.height == old(self)@.height,
                    coins@.len() == self@.width * self@.height,
                    i < self@.height,
                    j <= w,
                    self@.row_from(coins@, i as int, j as int).rows_from(coins@, i as nat) == target,
                decreases w - j,
            {
                let coin = coins[self.offset(j, i)];
                self.fall_at(j, i, coin);
                j = j + 1;
            }
        }
    }

    /// One tick, with a fresh random coin for each cell to settle ties.
    pub fn step(&mut self)
        requires
            old(self).inv(),
        ensures
            final(self).inv(),
            exists|coins: Seq<bool>|
                coins.len() == old(self)@.width * old(self)@.height
                && final(self)@ == #[trigger] old(self)@.step(coins),
    {
        let n: usize = self.width() * self.height();
        let mut coins: Vec<bool> = Vec::with_capacity(n);
        let mut k: usize = 0;
        while k < n
            invariant
                k <= n,
                coins@.len() == k,
            decreases n - k,
        {
            coins.push(coin_flip());
            k = k + 1;
        }
        self.step_with(&coins);
        assert(self@ == old(self)@.step(coins@));
    }
}

} // verus!
