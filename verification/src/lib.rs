//! Conway's Game of Life on a fixed-size, bounded grid.
//!
//! The grid is a table of [`CellState`] values with `ROWS` rows and `COLUMNS`
//! columns. Edges do not wrap: a neighbour beyond the boundary does not exist.
//! Every operation is stated over the mathematical view of the grid, a
//! sequence of rows, each a sequence of cell states.

pub mod cell;
pub mod conways;
pub mod grid;
pub mod laws;
pub mod random;

pub use crate::cell::CellState;
pub use crate::conways::Conways;
pub use crate::grid::{Position, COLUMNS, ROWS};
