use vstd::prelude::*;

use crate::board::{lemma_set_at, Board};
use crate::cell::Cell;
use crate::grid::Grid;

verus! {

impl Grid {
    /// Sets to `Sand` every cell of the square of radius `radius` around
    /// `(cx, cy)`, that is `[cx - radius, cx + radius] x [cy - radius, cy + radius]`,
    /// clipped at the edges of the board. Off-board parts of the square
    /// change nothing.
    pub fn paint(&mut self, cx: usize, cy: usize, radius: usize)
        requires
            old(self).inv(),
        ensures
            final(self).inv(),
            final(self)@.width == old(self)@.width,
            final(self)@.height == old(self)@.height,
            forall|x: int, y: int|
                #![trigger final(self)@.at(x, y)]
                old(self)@.in_bounds(x, y) ==> final(self)@.at(x, y) == if Board::in_brush(
                    cx as int,
                    cy as int,
                    radius as int,
                    x,
                    y,
                ) {
                    Cell::Sand
                } else {
                    old(self)@.at(x, y)
                },
    {
        let w = self.width();
        let h = self.height();
        let lo_x: usize = if cx >= radius { cx - radius } else { 0 };
        let lo_y: usize = if cy >= radius { cy - radius } else { 0 };
        let end_x: usize = if cx < w && w - cx > radius { cx + radius + 1 } else { w };
        let end_y: usize = if cy < h && h - cy > radius { cy + radius + 1 } else { h };
        let mut y: usize = lo_y;
        while y < end_y
            invariant
                self.inv(),
                self@.width == w,
                self@.height == h,
                w == old(self)@.width,
                h == old(self)@.height,
                lo_y <= y,
                end_y <= h,
                lo_x as int == if cx >= radius { cx - radius } else { 0 },
                end_x as int == if cx + radius < w { cx + radius + 1 } else { w as int },
                lo_y as int == if cy >= radius { cy - radius } else { 0 },
                end_y as int == if cy + radius < h { cy + radius + 1 } else { h as int },
                forall|x: int, yy: int|
                    #![trigger self@.at(x, yy)]
                    old(self)@.in_bounds(x, yy) ==> self@.at(x, yy) == if Board::in_brush(
                        cx as int,
                        cy as int,
                        radius as int,
                        x,
                        yy,
                    ) && yy < y {
                        Cell::Sand
                    } else {
                        old(self)@.at(x, yy)
                    },
            decreases end_y - y,
        {
            let mut x: usize = lo_x;
            while x < end_x
                invariant
                    self.inv(),
                    self@.width == w,
                    self@.height == h,
                    w == old(self)@.width,
                    h == old(self)@.height,
                    lo_y <= y < end_y,
                    lo_x <= x,
                    end_y <= h,
                    end_x <= w,
                    lo_x as int == if cx >= radius { cx - radius } else { 0 },
                    end_x as int == if cx + radius < w { cx + radius + 1 } else { w as int },
                    lo_y as int == if cy >= radius { cy - radius } else { 0 },
                    end_y as int == if cy + radius < h { cy + radius + 1 } else { h as int },
                    forall|xx: int, yy: int|
                        #![trigger self@.at(xx, yy)]
                        old(self)@.in_bounds(xx, yy) ==> self@.at(xx, yy) == if Board::in_brush(
                            cx as int,
                            cy as int,
                            radius as int,
                            xx,
                            yy,
                        ) && (yy < y || (yy == y && xx < x)) {
                            Cell::Sand
                        } else {
                            old(self)@.at(xx, yy)
                        },
                decreases end_x - x,
            {
                let ghost before = self@;
                self.set_cell(x, y, Cell::Sand);
                assert forall|xx: int, yy: int| old(self)@.in_bounds(xx, yy) implies #[trigger] self@.at(
                    xx,
                    yy,
                ) == if Board::in_brush(cx as int, cy as int, radius as int, xx, yy) && (yy < y || (yy == y
                    && xx < x + 1)) {
                    Cell::Sand
                } else {
                    old(self)@.at(xx, yy)
                } by {
                    lemma_set_at(before, x as int, y as int, Cell::Sand, xx, yy);
                }
                x = x + 1;
            }
            y = y + 1;
        }
    }
}

} // verus!
