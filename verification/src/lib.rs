//! Simulation core of a grid-based snake game.
//!
//! The library owns the authoritative game state: the snake's body, the food
//! cell, a growing list of obstacles, and the timing / game-over machinery
//! that advances the state on a fixed cadence. Rendering and the windowing
//! event loop are left to the host application; randomness comes from `rand`
//! behind a thin trusted boundary.

pub mod game;
pub mod snake;
mod rng;
