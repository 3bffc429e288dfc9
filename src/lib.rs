//! Gameplay rules of a small ball-launch arcade game: the arena's walls,
//! the charge / launch / rest life of a ball, collision response against
//! axis-aligned walls and the spawner that keeps one ball in play.
//!
//! All lengths are integers in tenths of a pixel, and all velocities in
//! tenths of a pixel per tick.
pub mod ball;
pub mod collider;
pub mod wall;
pub mod world;
