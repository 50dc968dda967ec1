//! Simulation core of a small top-down arcade shooter.
//!
//! All game-state arithmetic is fixed-point: positions and velocities are
//! kept in milliunits (one thousandth of a screen unit) and time in
//! milliseconds, so every step of the simulation is exact integer
//! arithmetic with stated bounds.

pub mod entity;
pub mod math;
pub mod snapshot;
pub mod state;

pub use entity::{Actor, ActorType, Enemy, MovementMod, Player};
pub use math::Vec2;
pub use state::MainState;
