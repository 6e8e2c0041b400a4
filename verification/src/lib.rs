//! Conway's Game of Life on a bounded grid whose surroundings are dead.
//!
//! `cell` holds the state of one position and the rule B3/S23, `grid` the
//! rectangle of cells and its mathematical model, `rules` the neighbour count
//! and the step from one generation to the next, `patterns` what the rule
//! does to a block, a blinker and a glider, and `simulation` the state that a
//! driver keeps between two frames.

pub mod cell;
pub mod grid;
pub mod patterns;
mod random;
pub mod rules;
pub mod simulation;

pub use cell::Cell;
pub use grid::Grid;
pub use rules::next_generation;
