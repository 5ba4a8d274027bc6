use vstd::prelude::*;

use crate::board::{lemma_index_bounds, Board};
use crate::cell::Cell;

verus! {

/// A board of `width * height` cells, stored row-major in one buffer.
/// Its size is fixed when it is made.
pub struct Grid {
    width: usize,
    height: usize,
    cells: Vec<Cell>,
}

impl View for Grid {
    type V = Board;

    closed spec fn view(&self) -> Board {
        Board { width: self.width as nat, height: self.height as nat, cells: self.cells@ }
    }
}

impl Grid {
    /// Every position of the board has exactly one cell, and the cells
    /// and the dimensions
    /// can be counted in a `usize`.
    pub open spec fn inv(&self) -> bool {
        &&& self@.wf()
        &&& self@.width * self@.height <= usize::MAX
        &&& self@.width <= usize::MAX
        &&& self@.height <= usize::MAX
    }

    /// A `width` by `height` board, all `Air`.
    pub fn new(width: usize, height: usize) -> (r: Grid)
        requires
            width * height <= usize::MAX,
        ensures
            r.inv(),
            r@ == Board::empty(width as nat, height as nat),
    {
        let n: usize = width * height;
        let mut cells: Vec<Cell> = Vec::with_capacity(n);
        let mut i: usize = 0;
        while i < n
            invariant
                i <= n,
                cells@.len() == i,
                forall|k: int| 0 <= k < i ==> cells@[k] == Cell::Air,
            decreases n - i,
        {
            cells.push(Cell::Air);
            i = i + 1;
        }
        let r = Grid { width, height, cells };
        assert(r@.cells =~= Board::empty(width as nat, height as nat).cells);
        r
    }

    pub fn width(&self) -> (r: usize)
        ensures
            r == self@.width,
    {
        self.width
    }

    pub fn height(&self) -> (r: usize)
        ensures
            r == self@.height,
    {
        self.height
    }

    /// Whether `(x, y)` lies on the board. A coordinate that wrapped below
    /// zero is huge and so falls off the board too.
    pub fn in_bounds(&self, x: usize, y: usize) -> (r: bool)
        ensures
            r == self@.in_bounds(x as int, y as int),
            r == (x < self@.width && y < self@.height),
    {
        x < self.width && y < self.height
    }

    /// Where the cell at `(x, y)` stands in row-major order.
    pub(crate) fn offset(&self, x: usize, y: usize) -> (r: usize)
        requires
            self.inv(),
            self@.in_bounds(x as int, y as int),
        ensures
            r == self@.index(x as int, y as int),
            r < self@.cells.len(),
    {
        proof {
            lemma_index_bounds(self.width as int, self.height as int, x as int, y as int);
        }
        y * self.width + x
    }

    /// The cell at `(x, y)`, which must lie on the board.
    pub fn get(&self, x: usize, y: usize) -> (r: Cell)
        requires
            self.inv(),
            self@.in_bounds(x as int, y as int),
        ensures
            r == self@.at(x as int, y as int),
    {
        self.cells[self.offset(x, y)]
    }

    /// Whether the cell at `(x, y)`, which must lie on the board, is `Air`.
    pub fn is_empty(&self, x: usize, y: usize) -> (r: bool)
        requires
            self.inv(),
            self@.in_bounds(x as int, y as int),
        ensures
            r == (self@.at(x as int, y as int) == Cell::Air),
    {
        self.get(x, y) == Cell::Air
    }

    /// Whether a grain may move to `(x, y)`: it lies on the board and is empty.
    pub fn movable(&self, x: usize, y: usize) -> (r: bool)
        requires
            self.inv(),
        ensures
            r == self@.movable(x as int, y as int),
    {
        self.in_bounds(x, y) && self.is_empty(x, y)
    }

    /// Overwrites the cell at `(x, y)`; does nothing off the board.
    pub fn set_cell(&mut self, x: usize, y: usize, cell: Cell)
        requires
            old(self).inv(),
        ensures
            final(self).inv(),
            final(self)@ == old(self)@.set(x as int, y as int, cell),
    {
        if self.in_bounds(x, y) {
            let i = self.offset(x, y);
            self.cells.set(i, cell);
        }
    }

    /// Carries the cell at `(x, y)` to `(to_x, to_y)` and leaves `Air`
    /// behind. The target must be movable.
    pub fn move_cell(&mut self, x: usize, y: usize, to_x: usize, to_y: usize)
        requires
            old(self).inv(),
            old(self)@.in_bounds(x as int, y as int),
            old(self)@.movable(to_x as int, to_y as int),
        ensures
            final(self).inv(),
            final(self)@ == old(self)@.moved(x as int, y as int, to_x as int, to_y as int),
    {
        let cell = self.get(x, y);
        self.set_cell(x, y, Cell::Air);
        self.set_cell(to_x, to_y, cell);
    }
}

} // verus!
