//! Rule engine of an interactive Sudoku puzzle.
//!
//! The crate owns the state of the 81 cells of a 9x9 grid, the three input
//! modes a cell can be in, the elimination of candidates after a digit is
//! placed, the conflicts between cells that hold the same digit, and the life
//! cycle of a puzzle: generation, reset, reveal, check, hint and the detection
//! of the solved grid.

pub mod candidates;
pub mod cell_state;
pub mod events;
pub mod laws;
pub mod manager;
pub mod preservation;
pub mod model;
pub mod position;
pub mod settings;
pub mod solver;
