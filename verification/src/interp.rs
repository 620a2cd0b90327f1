//! Display interpolation for remote entities.
//!
//! Interpolated entities are never simulated locally: they are smoothed
//! between the two most recent confirmed server snapshots. Position and
//! rotation are interpolated linearly in fixed point; with only one
//! snapshot available it is held as-is.

use crate::body::{BodyModel, BodyState, state_ok};
use crate::num::{div_trunc, mag, mul_small, tdiv};
use crate::vec2::V2;
use crate::{MAX_POS, SCALE};
use vstd::prelude::*;

verus! {

/// One confirmed snapshot with the tick it applies to.
#[derive(Clone, Copy, PartialEq, Eq, Structural, Debug)]
pub struct ConfirmedSnap {
    pub tick: u64,
    pub state: BodyState,
}

/// Linear fixed-point interpolation of one scalar: `frac` is in
/// thousandths, `0` giving `a` and `SCALE` giving `b`.
pub open spec fn lerp_scalar(a: int, b: int, frac: int) -> int {
    a + tdiv((b - a) * frac, SCALE as int)
}

/// Interpolated display state between two snapshots: position and rotation
/// are blended; velocities are display-irrelevant and held from the newer
/// snapshot.
pub open spec fn lerp_state(a: BodyModel, b: BodyModel, frac: int) -> BodyModel {
    BodyModel {
        pos: V2 {
            x: lerp_scalar(a.pos.x, b.pos.x, frac),
            y: lerp_scalar(a.pos.y, b.pos.y, frac),
        },
        vel: b.vel,
        rot: lerp_scalar(a.rot, b.rot, frac),
        ang: b.ang,
    }
}

/// The smoothing state of one interpolated entity: the two most recent
/// confirmed snapshots, `prev` strictly older than `next`.
pub struct Interpolator {
    prev: Option<ConfirmedSnap>,
    next: Option<ConfirmedSnap>,
}

impl Interpolator {
    /// Both held snapshots are well-formed, a `prev` only exists beside a
    /// `next`, and `prev` is strictly older.
    pub closed spec fn wf(self) -> bool {
        &&& self.prev matches Some(p) ==> self.next matches Some(n) && p.tick < n.tick && state_ok(
            p.state@,
        )
        &&& self.next matches Some(n) ==> state_ok(n.state@)
    }

    /// The older of the two held snapshots, if two are held.
    pub closed spec fn spec_prev(self) -> Option<ConfirmedSnap> {
        self.prev
    }

    /// The most recent held snapshot.
    pub closed spec fn spec_next(self) -> Option<ConfirmedSnap> {
        self.next
    }

    /// An interpolator that has seen no snapshot yet.
    pub fn new() -> (r: Interpolator)
        ensures
            r.wf(),
            r.spec_prev() is None,
            r.spec_next() is None,
    {
        Interpolator { prev: None, next: None }
    }

    /// Deliver a confirmed snapshot. A snapshot strictly newer than the
    /// held `next` replaces it and demotes it to `prev`; anything not newer
    /// (out-of-order or duplicate delivery) is ignored.
    pub fn push_confirmed(&mut self, tick: u64, state: &BodyState)
        requires
            old(self).wf(),
            state_ok(state@),
        ensures
            final(self).wf(),
            match old(self).spec_next() {
                None => final(self).spec_next() == Some(ConfirmedSnap { tick, state: *state })
                    && final(self).spec_prev() is None,
                Some(n) => if tick > n.tick {
                    final(self).spec_next() == Some(ConfirmedSnap { tick, state: *state })
                        && final(self).spec_prev() == Some(n)
                } else {
                    final(self).spec_next() == old(self).spec_next() && final(self).spec_prev()
                        == old(self).spec_prev()
                },
            },
    {
        match self.next {
            None => {
                self.next = Some(ConfirmedSnap { tick, state: *state });
            },
            Some(n) => {
                if tick > n.tick {
                    self.prev = Some(n);
                    self.next = Some(ConfirmedSnap { tick, state: *state });
                }
            },
        }
    }

    /// Sample the display state at fractional position `frac` (thousandths)
    /// between the two held snapshots: with none, nothing; with one, that
    /// snapshot held; with two, the fixed-point linear blend.
    pub fn sample(&self, frac: i64) -> (r: Option<BodyState>)
        requires
            self.wf(),
            0 <= frac <= SCALE,
        ensures
            match (self.spec_prev(), self.spec_next()) {
                (Some(p), Some(n)) => r matches Some(s) && s@ == lerp_state(p.state@, n.state@, frac as int),
                (None, Some(n)) => r == Some(n.state),
                _ => r is None,
            },
    {
        match (&self.prev, &self.next) {
            (Some(p), Some(n)) => {
                let px = lerp_exec(p.state.pos.x, n.state.pos.x, frac);
                let py = lerp_exec(p.state.pos.y, n.state.pos.y, frac);
                let rot = lerp_exec(p.state.rot, n.state.rot, frac);
                Some(
                    BodyState {
                        pos: crate::vec2::Vec2i { x: px, y: py },
                        vel: n.state.vel,
                        rot,
                        ang: n.state.ang,
                    },
                )
            },
            (None, Some(n)) => Some(n.state),
            _ => None,
        }
    }
}

/// Display smoothing of a rollback correction: blends what was being shown
/// toward the corrected simulation state, so a correction eases in instead
/// of popping. Purely a function of its arguments — the blended state is
/// for display only and never feeds back into the simulation state, which
/// the caller keeps separately.
pub fn visual_correction(shown: &BodyState, corrected: &BodyState, frac: i64) -> (r: BodyState)
    requires
        state_ok(shown@),
        state_ok(corrected@),
        0 <= frac <= SCALE,
    ensures
        r@ == lerp_state(shown@, corrected@, frac as int),
{
    let px = lerp_exec(shown.pos.x, corrected.pos.x, frac);
    let py = lerp_exec(shown.pos.y, corrected.pos.y, frac);
    let rot = lerp_exec(shown.rot, corrected.rot, frac);
    BodyState {
        pos: crate::vec2::Vec2i { x: px, y: py },
        vel: corrected.vel,
        rot,
        ang: corrected.ang,
    }
}

/// One scalar of the fixed-point linear blend.
fn lerp_exec(a: i64, b: i64, frac: i64) -> (r: i64)
    requires
        mag(a as int) <= MAX_POS as int,
        mag(b as int) <= MAX_POS as int,
        0 <= frac <= SCALE,
    ensures
        r == lerp_scalar(a as int, b as int, frac as int),
{
    let d: i64 = b - a;
    proof {
        assert(mag(d as int) * mag(frac as int) <= 0x800_0000_0000_0000) by (nonlinear_arith)
            requires
                mag(d as int) <= 0x2000_0000_0000,
                0 <= mag(frac as int) <= 0x400,
        ;
    }
    a + div_trunc(mul_small(d, frac), SCALE)
}

} // verus!
