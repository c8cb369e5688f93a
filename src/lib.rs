//! Simulation core of a two-paddle ball game: an entity store, motion,
//! circle-versus-box collisions, an opponent that tracks the ball, player
//! input, and a scoring pipeline, run in a fixed order once per tick.
//!
//! Coordinates are whole world units with the origin at the centre of the
//! window; velocities are directions whose components lie in {-1, 0, 1}
//! and are scaled by a per-class speed when applied.

pub mod components;
pub mod game;
pub mod input;
pub mod physics;
pub mod schedule;
pub mod scoreboard;
pub mod world;
