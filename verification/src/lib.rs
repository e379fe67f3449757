//! Core logic of an arcade shoot-'em-up: a grid of aliens advances in a
//! bounded oscillation toward the player while projectiles, area fire and
//! pickup capsules interact through an event-driven collision engine.
//!
//! The crate is organised as an explicit entity store plus an event queue,
//! driven by an ordered phase pipeline (`game::tick`):
//! movement and hazard detection, deferred formation shifts and resets,
//! collision detection, and event-driven spawning and progression.
//! All geometry is fixed point: one pixel is a thousand coordinate units and
//! time advances in whole milliseconds, so every rule is exact integer
//! arithmetic.

pub mod alien;
pub mod alien_projectile;
pub mod capsule;
pub mod fire;
pub mod game;
pub mod geom;
pub mod level_indicator;
pub mod player;
pub mod projectile;
