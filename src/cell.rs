use vstd::prelude::*;

verus! {

/// The material held by one position of the board.
#[derive(Clone, Copy, Debug, PartialEq, Eq, Structural)]
pub enum Cell {
    Air,
    Sand,
}

impl Cell {
    /// Whether the cell is drawn at all: everything but `Air` is.
    pub fn visible(&self) -> (r: bool)
        ensures
            r == (*self != Cell::Air),
    {
        *self != Cell::Air
    }
}

} // verus!
