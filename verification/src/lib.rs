//! A verified engine for a terminal snake game.
//!
//! The game state (grid, snake, food, direction, score) and every rule that
//! changes it live here, with contracts proved by Verus. Terminal rendering
//! and input polling are left to the surrounding binary.

pub mod game;
mod sampling;
