use vstd::prelude::*;

use crate::cell::Cell;

verus! {

/// The mathematical model of a board: its dimensions and its cells in
/// row-major order, the cell at column `x` and row `y` at `y * width + x`.
/// Row 0 is the top row; gravity pulls towards larger rows.
pub ghost struct Board {
    pub width: nat,
    pub height: nat,
    pub cells: Seq<Cell>,
}

impl Board {
    pub open spec fn wf(self) -> bool {
        self.cells.len() == self.width * self.height
    }

    pub open spec fn in_bounds(self, x: int, y: int) -> bool {
        0 <= x < self.width && 0 <= y < self.height
    }

    pub open spec fn index(self, x: int, y: int) -> int {
        y * self.width + x
    }

    pub open spec fn at(self, x: int, y: int) -> Cell {
        self.cells[self.index(x, y)]
    }

    /// In bounds and holding `Air`.
    pub open spec fn movable(self, x: int, y: int) -> bool {
        self.in_bounds(x, y) && self.at(x, y) == Cell::Air
    }

    pub open spec fn is_sand(self, x: int, y: int) -> bool {
        self.in_bounds(x, y) && self.at(x, y) == Cell::Sand
    }

    /// The board with the cell at `(x, y)` replaced by `c`; unchanged when
    /// `(x, y)` lies off the board.
    pub open spec fn set(self, x: int, y: int, c: Cell) -> Board {
        if self.in_bounds(x, y) {
            Board { cells: self.cells.update(self.index(x, y), c), ..self }
        } else {
            self
        }
    }

    /// The cell at `from` carried to `to`, leaving `Air` behind.
    pub open spec fn moved(self, fx: int, fy: int, tx: int, ty: int) -> Board {
        self.set(fx, fy, Cell::Air).set(tx, ty, self.at(fx, fy))
    }

    /// The fall rule for the cell at `(x, y)`. `Air` stays; `Sand` drops
    /// straight down when it can, else slides to a free lower diagonal. When
    /// both diagonals are free, `coin` picks: `true` right, `false` left.
    pub open spec fn fall(self, x: int, y: int, coin: bool) -> Board {
        if self.at(x, y) != Cell::Sand {
            self
        } else if self.movable(x, y + 1) {
            self.moved(x, y, x, y + 1)
        } else if self.movable(x + 1, y + 1) && (coin || !self.movable(x - 1, y + 1)) {
            self.moved(x, y, x + 1, y + 1)
        } else if self.movable(x - 1, y + 1) {
            self.moved(x, y, x - 1, y + 1)
        } else {
            self
        }
    }

    /// The tie-break coin that belongs to the cell at `(x, y)`.
    pub open spec fn coin_at(self, coins: Seq<bool>, x: int, y: int) -> bool {
        coins[self.index(x, y)]
    }

    /// The fall rule applied to the cells `x, x + 1, ..., width - 1` of row
    /// `y`, left to right, each to the board the previous one left.
    pub open spec fn row_from(self, coins: Seq<bool>, y: int, x: int) -> Board
        decreases self.width - x,
    {
        if x < 0 || x >= self.width {
            self
        } else {
            self.fall(x, y, self.coin_at(coins, x, y)).row_from(coins, y, x + 1)
        }
    }

    /// The rows `n - 1, n - 2, ..., 0` swept in turn, bottom to top.
    pub open spec fn rows_from(self, coins: Seq<bool>, n: nat) -> Board
        decreases n,
    {
        if n == 0 {
            self
        } else {
            self.row_from(coins, n - 1, 0).rows_from(coins, (n - 1) as nat)
        }
    }

    /// One tick: every row swept from the bottom up, every row left to
    /// right, with one tie-break coin per cell.
    pub open spec fn step(self, coins: Seq<bool>) -> Board {
        self.rows_from(coins, self.height)
    }

    /// Whether `(x, y)` lies in the square brush of radius `r` centred on
    /// `(cx, cy)`.
    pub open spec fn in_brush(cx: int, cy: int, r: int, x: int, y: int) -> bool {
        cx - r <= x <= cx + r && cy - r <= y <= cy + r
    }

    /// The number of `Sand` cells on the board.
    pub open spec fn sand_count(self) -> nat {
        count_sand(self.cells)
    }

    /// No grain has a free cell below it, straight or diagonal.
    pub open spec fn settled(self) -> bool {
        forall|x: int, y: int|
            #![trigger self.is_sand(x, y)]
            self.is_sand(x, y) ==> !self.movable(x, y + 1) && !self.movable(x + 1, y + 1)
                && !self.movable(x - 1, y + 1)
    }

    /// Every grain of `after` has one in `self` at the same place or one row
    /// up and at most one column aside: none came from further away.
    pub open spec fn feeds(self, after: Board) -> bool {
        forall|x: int, y: int|
            #![trigger after.is_sand(x, y)]
            after.is_sand(x, y) ==> self.is_sand(x, y) || self.is_sand(x - 1, y - 1) || self.is_sand(
                x,
                y - 1,
            ) || self.is_sand(x + 1, y - 1)
    }

    /// The board after one tick for each entry of `ticks`, in order, each
    /// entry the tie-break coins of its tick.
    pub open spec fn run(self, ticks: Seq<Seq<bool>>) -> Board
        decreases ticks.len(),
    {
        if ticks.len() == 0 {
            self
        } else {
            self.step(ticks[0]).run(ticks.drop_first())
        }
    }

    /// A board with one grain at `(x, y)` and `Air` everywhere else.
    pub open spec fn single(width: nat, height: nat, x: int, y: int) -> Board {
        Board::empty(width, height).set(x, y, Cell::Sand)
    }

    /// An all-`Air` board.
    pub open spec fn empty(width: nat, height: nat) -> Board {
        Board { width, height, cells: Seq::new(width * height, |i: int| Cell::Air) }
    }
}

/// The number of `Sand` cells in a sequence.
pub open spec fn count_sand(s: Seq<Cell>) -> nat
    decreases s.len(),
{
    if s.len() == 0 {
        0
    } else {
        count_sand(s.drop_last()) + if s.last() == Cell::Sand {
            1nat
        } else {
            0nat
        }
    }
}

pub proof fn lemma_index_bounds(w: int, h: int, x: int, y: int)
    requires
        0 <= x < w,
        0 <= y < h,
    ensures
        0 <= y * w + x < w * h,
{
    assert(0 <= y * w + x < w * h) by (nonlinear_arith)
        requires
            0 <= x < w,
            0 <= y < h,
    ;
}

/// Two on-board positions share an index only when they are the same.
pub proof fn lemma_index_injective(w: int, x1: int, y1: int, x2: int, y2: int)
    requires
        0 <= x1 < w,
        0 <= x2 < w,
        0 <= y1,
        0 <= y2,
        y1 * w + x1 == y2 * w + x2,
    ensures
        x1 == x2,
        y1 == y2,
{
    if y1 < y2 {
        assert(y1 * w + w <= y2 * w) by (nonlinear_arith)
            requires
                y1 < y2,
                0 <= w,
        ;
    } else if y2 < y1 {
        assert(y2 * w + w <= y1 * w) by (nonlinear_arith)
            requires
                y2 < y1,
                0 <= w,
        ;
    }
}

/// What a board holds at an on-board position after one cell was set.
pub proof fn lemma_set_at(b: Board, x: int, y: int, c: Cell, x2: int, y2: int)
    requires
        b.wf(),
        b.in_bounds(x2, y2),
    ensures
        b.set(x, y, c).wf(),
        b.set(x, y, c).width == b.width,
        b.set(x, y, c).height == b.height,
        b.set(x, y, c).at(x2, y2) == if b.in_bounds(x, y) && x == x2 && y == y2 {
            c
        } else {
            b.at(x2, y2)
        },
{
    lemma_index_bounds(b.width as int, b.height as int, x2, y2);
    if b.in_bounds(x, y) {
        lemma_index_bounds(b.width as int, b.height as int, x, y);
        if b.index(x, y) == b.index(x2, y2) {
            lemma_index_injective(b.width as int, x, y, x2, y2);
        }
    }
}

} // verus!
