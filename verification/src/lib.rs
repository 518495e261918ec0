//! Simulation core of a top-down survival arena game.
//!
//! The library models the whole gameplay state in integer arithmetic:
//! distances and velocities are kept in milli-units (one thousandth of a
//! world unit), durations in milliseconds, and multipliers in thousandths.
//! Rendering, input devices and the storage backend live outside; they hand
//! the simulation plain values and read plain values back.

use vstd::prelude::*;

pub mod codec;
pub mod combat;
pub mod combo;
pub mod economy;
pub mod entities;
pub mod geom;
pub mod laws;
pub mod rng;
pub mod spawner;
pub mod state;
pub mod timer;
pub mod world;

verus! {

/// Base maximum health of the player before upgrades, in hit points.
pub const PLAYER_MAX_HEALTH: u32 = 4;

} // verus!
