//! Client-side prediction and server-reconciliation core for a tick-based
//! client-server simulation.
//!
//! All simulation state is kept in fixed-point integers (milliunits: one
//! world unit is `SCALE` milliunits), so every step of the movement,
//! collision-response, rollback and interpolation algorithms is exact and
//! reproducible: replaying the same inputs from the same state always yields
//! the same state, which is what reconciliation after a server correction
//! depends on.
//!
//! Rendering, input-device polling, the entity store and the network
//! transport are external collaborators; this crate only computes.

pub mod body;
pub mod collision;
pub mod config;
pub mod history;
pub mod input;
pub mod interp;
pub mod laws;
pub mod movement;
pub mod num;
pub mod prediction;
pub mod prespawn;
pub mod protocol;
pub mod sim;
pub mod vec2;

use vstd::prelude::*;

verus! {

/// Milliunits per world unit: the fixed-point scale of every position,
/// velocity and contact-normal component in this crate.
pub const SCALE: i64 = 1000;

/// Fixed simulation rate in ticks per second; `1 / TICKS_PER_SEC` seconds
/// elapse between two ticks.
pub const TICKS_PER_SEC: i64 = 64;

/// Depth of every per-entity history ring: the longest supported rollback
/// window, one second of ticks.
pub const RING_DEPTH: u64 = 64;

/// Largest movement speed a configuration may ask for (milliunits per
/// second).
pub const MAX_SPEED: i64 = 0x10_0000;

/// Largest contact-penetration magnitude a manifold may carry (milliunits).
pub const MAX_PEN: i64 = 0x10_0000;

/// Largest velocity magnitude of a well-formed body state (milliunits per
/// second).
pub const MAX_VEL: i64 = 0x40_0000_0000;

/// Largest position magnitude of a well-formed body state (milliunits).
pub const MAX_POS: i64 = 0x1000_0000_0000;

/// Position magnitude from which a full rollback window of replayed ticks
/// provably stays within `MAX_POS`.
pub const POS_LIMIT: i64 = 0x800_0000_0000;

/// How far one simulated tick can move a position (milliunits): movement
/// integration plus the worst-case collision push-out.
pub const POS_STEP_GAIN: i64 = 0x400_0000;

/// Largest velocity magnitude the collision resolver can produce from a
/// well-formed state and a full set of well-formed manifolds.
pub const VEL_SAFE: i64 = 0x8_0000_0000_0000;

/// Most contact manifolds one body can receive in one tick.
pub const MAX_MANIFOLDS: usize = 8;

/// Most contact points one manifold can carry.
pub const MAX_CONTACTS: usize = 4;

} // verus!
