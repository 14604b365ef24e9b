//! Conway's Game of Life on a toroidal grid.

pub mod grid;
pub mod render;
pub mod rng;
pub mod universe;

pub use universe::{DimensionError, Universe};
