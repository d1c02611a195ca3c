//! Frame simulation core of a small arcade game: kinematics, all-pairs
//! collision detection, collision damage, despawning and the game-state
//! machine, all over fixed-point quantities.
//!
//! Units: positions and radii in nano-units (10^-9 world units), velocities
//! in micro-units per second, accelerations in milli-units per second squared,
//! angles in micro-radians, angular rates in milli-radians per second, and
//! frame time in milliseconds. With these scales every update is exact
//! integer arithmetic.

pub mod geometry;
pub mod components;
pub mod world;
pub mod collision;
pub mod despawn;
pub mod state;
pub mod spawning;
pub mod ship;
pub mod frame;
pub mod laws;
