//! Conway's Game of Life on a torus, with every operation proved against a
//! mathematical model of the grid.

pub mod cell;
pub mod glider;
pub mod grid;
pub mod laws;
pub mod pattern;
pub mod universe;

pub use cell::Cell;
pub use grid::Grid;
pub use universe::InitMode;
pub use universe::Universe;
pub use universe::DEFAULT_HEIGHT;
pub use universe::DEFAULT_WIDTH;
