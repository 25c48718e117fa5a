//! Physics and collision core of a 2D side-scrolling platformer.
//!
//! All quantities are integers in fixed point: lengths are thousandths of a
//! world unit, times are microseconds, velocities are thousandths of a world
//! unit per second.
//!
//! `geometry` holds the overlap test, `motion` the integrator and the
//! platform resolver for one body, `world` the entities, and the `*_system`
//! modules the phases of a tick over the whole world, which `simulation`
//! runs in order. `landing` states what a body falling onto a platform does
//! over many ticks; `level` builds a level from random rolls.

pub mod geometry;
pub mod motion;
pub mod components;
pub mod world;
pub mod mover_system;
pub mod enemy_system;
pub mod potion_system;
pub mod player_system;
pub mod camera;
pub mod weight;
pub mod animation;
pub mod landing;
pub mod level;
pub mod simulation;
