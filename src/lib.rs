//! Conway's Game of Life on a fixed-size toroidal grid.
//!
//! The grid, the neighbour count and the generation rule are stated as
//! specification functions in [`rules`]; the executable [`Universe`] is proved
//! to follow them, and [`laws`] proves properties of the model itself.

pub mod cell;
pub mod rules;
pub mod universe;
pub mod laws;

pub use cell::Cell;
pub use universe::{Universe, UniverseError, DEFAULT_HEIGHT, DEFAULT_WIDTH};
