//! Conway's Game of Life on a torus: a dense grid of cells that evolves one
//! generation at a time under the fixed birth-on-three, survive-on-two-or-three
//! rule, together with the operations that seed and edit the grid.

pub mod cell;
pub mod grid;
pub mod laws;
pub mod pattern;
pub mod random;
pub mod universe;

pub use cell::Cell;
pub use grid::Grid;
pub use pattern::Pattern;
pub use universe::Universe;
