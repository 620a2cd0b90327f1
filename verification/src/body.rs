//! Kinematic body state: the simulation-relevant component values of one
//! entity at one tick (position, rotation, linear and angular velocity).

use crate::num::mag;
use crate::vec2::{V2, Vec2i};
use crate::{MAX_POS, MAX_VEL};
use vstd::prelude::*;

verus! {

/// Mathematical model of a body's state.
pub ghost struct BodyModel {
    pub pos: V2,
    pub vel: V2,
    pub rot: int,
    pub ang: int,
}

/// Snapshot of one entity's kinematic state at one tick. Positions are in
/// milliunits, velocities in milliunits per second, rotation in
/// milliradians, angular velocity in milliradians per second.
#[derive(Clone, Copy, PartialEq, Eq, Structural, Debug)]
pub struct BodyState {
    pub pos: Vec2i,
    pub vel: Vec2i,
    pub rot: i64,
    pub ang: i64,
}

impl View for BodyState {
    type V = BodyModel;

    open spec fn view(&self) -> BodyModel {
        BodyModel {
            pos: self.pos@,
            vel: self.vel@,
            rot: self.rot as int,
            ang: self.ang as int,
        }
    }
}

/// Magnitude bounds under which every per-tick computation in this crate is
/// free of overflow (machine limits, not a rule of the simulation).
pub open spec fn state_ok(s: BodyModel) -> bool {
    &&& s.pos.in_box(MAX_POS as int)
    &&& s.vel.in_box(MAX_VEL as int)
    &&& mag(s.rot) <= MAX_POS as int
    &&& mag(s.ang) <= MAX_VEL as int
}

impl BodyState {
    pub fn new(pos: Vec2i, vel: Vec2i, rot: i64, ang: i64) -> (r: BodyState)
        ensures
            r@ == (BodyModel { pos: pos@, vel: vel@, rot: rot as int, ang: ang as int }),
    {
        BodyState { pos, vel, rot, ang }
    }

    /// A body at rest at the origin.
    pub fn at_rest() -> (r: BodyState)
        ensures
            r@ == (BodyModel {
                pos: V2 { x: 0, y: 0 },
                vel: V2 { x: 0, y: 0 },
                rot: 0,
                ang: 0,
            }),
    {
        BodyState { pos: Vec2i { x: 0, y: 0 }, vel: Vec2i { x: 0, y: 0 }, rot: 0, ang: 0 }
    }
}

} // verus!
