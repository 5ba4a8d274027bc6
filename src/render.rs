use vstd::prelude::*;

use crate::cell::Cell;
use crate::grid::Grid;

verus! {

/// Whether position `(x1, y1)` comes before `(x2, y2)` in row-major order.
pub open spec fn before(x1: int, y1: int, x2: int, y2: int) -> bool {
    y1 < y2 || (y1 == y2 && x1 < x2)
}

impl Grid {
    /// The positions `(x, y)` of every cell that is drawn, that is every
    /// cell but `Air`, each once, in row-major order.
    pub fn visible_cells(&self) -> (r: Vec<(usize, usize)>)
        requires
            self.inv(),
        ensures
            forall|k: int|
                0 <= k < r@.len() ==> self@.in_bounds(r@[k].0 as int, r@[k].1 as int)
                    && self@.at(r@[k].0 as int, r@[k].1 as int) != Cell::Air,
            forall|x: int, y: int|
                self@.in_bounds(x, y) && self@.at(x, y) != Cell::Air ==> exists|k: int|
                    0 <= k < r@.len() && r@[k].0 == x && r@[k].1 == y,
            forall|k1: int, k2: int|
                0 <= k1 < k2 < r@.len() ==> before(
                    r@[k1].0 as int,
                    r@[k1].1 as int,
                    r@[k2].0 as int,
                    r@[k2].1 as int,
                ),
    {
        let w = self.width();
        let h = self.height();
        let mut r: Vec<(usize, usize)> = Vec::new();
        let mut y: usize = 0;
        while y < h
            invariant
                self.inv(),
                w == self@.width,
                h == self@.height,
                y <= h,
                forall|k: int|
                    0 <= k < r@.len() ==> self@.in_bounds(r@[k].0 as int, r@[k].1 as int)
                        && self@.at(r@[k].0 as int, r@[k].1 as int) != Cell::Air
                        && (r@[k].1 as int) < y,
                forall|i: int, j: int|
                    self@.in_bounds(i, j) && self@.at(i, j) != Cell::Air && j < y ==> exists|k: int|
                        0 <= k < r@.len() && r@[k].0 == i && r@[k].1 == j,
                forall|k1: int, k2: int|
                    0 <= k1 < k2 < r@.len() ==> before(
                        r@[k1].0 as int,
                        r@[k1].1 as int,
                        r@[k2].0 as int,
                        r@[k2].1 as int,
                    ),
            decreases h - y,
        {
            let mut x: usize = 0;
            while x < w
                invariant
                    self.inv(),
                    w == self@.width,
                    h == self@.height,
                    y < h,
                    x <= w,
                    forall|k: int|
                        0 <= k < r@.len() ==> self@.in_bounds(r@[k].0 as int, r@[k].1 as int)
                            && self@.at(r@[k].0 as int, r@[k].1 as int) != Cell::Air
                            && before(r@[k].0 as int, r@[k].1 as int, x as int, y as int),
                    forall|i: int, j: int|
                        self@.in_bounds(i, j) && self@.at(i, j) != Cell::Air && before(
                            i,
                            j,
                            x as int,
                            y as int,
                        ) ==> exists|k: int| 0 <= k < r@.len() && r@[k].0 == i && r@[k].1 == j,
                    forall|k1: int, k2: int|
                        0 <= k1 < k2 < r@.len() ==> before(
                            r@[k1].0 as int,
                            r@[k1].1 as int,
                            r@[k2].0 as int,
                            r@[k2].1 as int,
                        ),
                decreases w - x,
            {
                if self.get(x, y).visible() {
                    let ghost prev = r@;
                    r.push((x, y));
                    assert forall|i: int, j: int|
                        self@.in_bounds(i, j) && self@.at(i, j) != Cell::Air && before(
                            i,
                            j,
                            x + 1,
                            y as int,
                        ) implies exists|k: int|
                        0 <= k < r@.len() && r@[k].0 == i && r@[k].1 == j by {
                        if i == x && j == y {
                            assert(r@[prev.len() as int] == (x, y));
                        } else {
                            let k = choose|k: int| 0 <= k < prev.len() && prev[k].0 == i && prev[k].1 == j;
                            assert(r@[k] == prev[k]);
                        }
                    }
                }
                x = x + 1;
            }
            y = y + 1;
        }
        r
    }
}

} // verus!
