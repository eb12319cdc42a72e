//! Conway's Game of Life on a grid whose opposite edges are joined.
//!
//! [`Universe`] holds the cells and advances them one generation at a time.
//! Its contracts are stated over [`Grid`], the universe as a mathematical
//! value; `theorems` proves what follows from them for every grid.

pub mod cell;
pub mod error;
pub mod grid;
pub mod theorems;
pub mod universe;

pub use cell::Cell;
pub use error::UniverseError;
pub use grid::Grid;
pub use universe::{Universe, DEFAULT_HEIGHT, DEFAULT_WIDTH};
