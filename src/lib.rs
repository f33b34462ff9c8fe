//! A periodic, randomized jump controller for a crowd of cubes.
//!
//! Every cube carries a cooldown. Each simulation tick advances the
//! cooldowns; a cube whose cooldown runs out this tick jumps: its velocity
//! is overwritten with a fixed-speed horizontal motion towards a shared
//! target plus a random upward push, and its cooldown restarts with a fresh
//! random length.
//!
//! All quantities are integers: time in nanoseconds, lengths in millimetres
//! and speeds in millimetres per second.
pub mod cooldown;
pub mod cube;
pub mod draw;
pub mod motion;
pub mod rng;
