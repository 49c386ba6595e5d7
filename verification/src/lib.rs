//! Sudoku puzzles for a microcontroller test bench: puzzle generation and
//! verification, the serial wire format, and the decisions of a protocol round.

pub mod difficulty;
pub mod errors;
pub mod files;
pub mod grid;
pub mod order;
pub mod puzzle;
pub mod round;
pub mod rules;
pub mod session;
pub mod solver;
pub mod text;
pub mod tournament;
pub mod wire;

pub use difficulty::Difficulty;
pub use grid::Cell;
pub use puzzle::SudokuAvr;
