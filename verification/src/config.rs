//! Simulation configuration and the tick clock.
//!
//! All tunable constants live in one immutable `SimConfig` value constructed
//! at startup and passed by reference into every component; nothing in this
//! crate reads mutable global state.

use crate::{MAX_PEN, MAX_SPEED};
use vstd::prelude::*;

verus! {

/// How the movement step applies the direction derived from input: write the
/// body's velocity, or integrate the translation directly.
#[derive(Clone, Copy, PartialEq, Eq, Structural, Debug)]
pub enum MovementMode {
    Velocity,
    Position,
}

/// Immutable per-run configuration.
#[derive(Clone, Copy, PartialEq, Eq, Structural, Debug)]
pub struct SimConfig {
    pub mode: MovementMode,
    /// Movement speed in milliunits per second.
    pub speed: i64,
    /// Positions closer than this (milliunits) count as agreeing during
    /// reconciliation.
    pub pos_threshold: i64,
    /// Rotations closer than this (milliradians) count as agreeing during
    /// reconciliation.
    pub rot_threshold: i64,
    /// How many ticks a speculatively spawned entity may wait for its
    /// server-confirmed counterpart before it is discarded.
    pub prespawn_window: u64,
    /// How often (milliseconds) the server replicates authoritative
    /// component snapshots.
    pub replication_interval_ms: u64,
}

/// The configuration values every contract in this crate assumes: positive
/// and small enough that no per-tick computation overflows.
pub open spec fn config_ok(c: SimConfig) -> bool {
    &&& 0 < c.speed <= MAX_SPEED as int
    &&& 0 < c.pos_threshold <= MAX_PEN as int
    &&& 0 < c.rot_threshold <= MAX_PEN as int
}

impl SimConfig {
    /// The reference configuration: velocity-driven movement at 150 units
    /// per second, divergence thresholds of a hundredth of a unit and a
    /// hundredth of a radian, a one-second pre-spawn match window, and
    /// replication every 100 milliseconds.
    pub fn standard() -> (c: SimConfig)
        ensures
            config_ok(c),
            c.mode is Velocity,
            c.speed == 150_000,
            c.pos_threshold == 10,
            c.rot_threshold == 10,
            c.prespawn_window == 64,
            c.replication_interval_ms == 100,
    {
        SimConfig {
            mode: MovementMode::Velocity,
            speed: 150_000,
            pos_threshold: 10,
            rot_threshold: 10,
            prespawn_window: 64,
            replication_interval_ms: 100,
        }
    }
}

/// Process-wide monotonically increasing tick counter; every state, input
/// and message is tagged with the tick it applies to.
#[derive(Clone, Copy, PartialEq, Eq, Structural, Debug)]
pub struct TickClock {
    pub tick: u64,
}

impl TickClock {
    pub fn start_at(tick: u64) -> (c: TickClock)
        ensures
            c.tick == tick,
    {
        TickClock { tick }
    }

    /// One fixed-step advance.
    pub fn advance(&mut self)
        requires
            old(self).tick < u64::MAX,
        ensures
            final(self).tick == old(self).tick + 1,
    {
        self.tick = self.tick + 1;
    }

    pub fn current(&self) -> (t: u64)
        ensures
            t == self.tick,
    {
        self.tick
    }
}

} // verus!
