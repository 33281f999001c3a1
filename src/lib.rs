//! Simulation core of a small arcade shoot-em-up: entity state machines,
//! the wave scheduler and the per-frame collision and resolution pass.
//!
//! All quantities are integers: lengths are in milli-units of the game
//! field, times in milliseconds and speeds in milli-units per millisecond.
pub mod bullet;
pub mod constants;
pub mod enemy;
pub mod game;
pub mod geom;
pub mod player;
pub mod resources;
pub mod rng;
pub mod wave;
