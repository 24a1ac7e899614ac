//! Grid-based snake simulation: movement with a reversal guard, segment
//! following, wall and self collision, food placement on free cells, growth
//! and the game-over reset, each stated and proved over a small model.

pub mod grid;
pub mod direction;
pub mod snake;
pub mod food;
pub mod game;
