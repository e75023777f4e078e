//! The engine of the 2048 sliding-tile puzzle: shifting and merging tiles,
//! spawning new ones, detecting the end of a game and undoing moves.

pub mod line;
pub mod board;
pub mod game;
pub mod laws;
pub mod render;
pub mod error;
pub mod session;
