//! A falling-sand cellular automaton: a fixed-size board of cells that
//! evolves tick by tick under gravity, with random tie-breaking between
//! the two diagonal fall targets.

mod board;
mod brush;
mod cell;
mod grid;
mod render;
pub mod laws;
mod step;

pub use board::Board;
pub use cell::Cell;
pub use grid::Grid;
