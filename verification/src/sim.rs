//! One fixed-step simulation tick, and its replay over a span of ticks.
//!
//! A tick is: derive the frame's velocity from the input snapshot
//! (movement), integrate the position by one tick, then run the kinematic
//! collision response against that tick's contact manifolds. The whole tick
//! is a pure function of its inputs, which is what makes rollback replay
//! sound: re-running it over buffered inputs reproduces the earlier states
//! exactly.

use crate::body::{BodyModel, BodyState, state_ok};
use crate::collision::{
    Manifold, kinematic_controller_collisions, lemma_cb_ceilings, lemma_cb_mono_k, lemma_cb_mono_v,
    lemma_resolve_bounds, manifolds_ok, resolve_collisions, vel_chain_bound,
};
use crate::config::{MovementMode, SimConfig, config_ok};
use crate::input::InputSnapshot;
use crate::movement::{lemma_move_vel_bounded, move_player, move_vel};
use crate::num::{div_trunc, mag, tdiv};
use crate::vec2::{V2, Vec2i};
use crate::{MAX_PEN, MAX_POS, MAX_SPEED, MAX_VEL, POS_LIMIT, POS_STEP_GAIN, RING_DEPTH,
    TICKS_PER_SEC};
use vstd::arithmetic::mul::lemma_mul_inequality;
use vstd::prelude::*;

verus! {

/// Position advanced by one tick of `vel` (fixed-point, truncating).
pub open spec fn integrate(pos: V2, vel: V2) -> V2 {
    V2 {
        x: pos.x + tdiv(vel.x, TICKS_PER_SEC as int),
        y: pos.y + tdiv(vel.y, TICKS_PER_SEC as int),
    }
}

/// The state movement leaves behind before collision response: in velocity
/// mode the derived velocity is written and integrated; in position mode the
/// translation is integrated directly and the stored velocity is untouched.
pub open spec fn moved_state(s: BodyModel, input: InputSnapshot, cfg: SimConfig) -> BodyModel {
    let v = move_vel(input, cfg.speed as int);
    if cfg.mode is Velocity {
        BodyModel { pos: integrate(s.pos, v), vel: v, rot: s.rot, ang: s.ang }
    } else {
        BodyModel { pos: integrate(s.pos, v), vel: s.vel, rot: s.rot, ang: s.ang }
    }
}

/// One full simulation tick: movement, integration, collision response.
pub open spec fn step_model(
    s: BodyModel,
    input: InputSnapshot,
    ms: Seq<Manifold>,
    cfg: SimConfig,
) -> BodyModel {
    resolve_collisions(moved_state(s, input, cfg), ms)
}

/// The input and contact manifolds of one simulated tick.
pub ghost struct TickSim {
    pub input: InputSnapshot,
    pub manifolds: Seq<Manifold>,
}

pub open spec fn ticks_ok(ticks: Seq<TickSim>) -> bool {
    forall|i: int| 0 <= i < ticks.len() ==> manifolds_ok((#[trigger] ticks[i]).manifolds)
}

/// State after simulating `ticks` in order from `s`.
pub open spec fn replay_model(s: BodyModel, ticks: Seq<TickSim>, cfg: SimConfig) -> BodyModel
    decreases ticks.len(),
{
    if ticks.len() == 0 {
        s
    } else {
        step_model(
            replay_model(s, ticks.drop_last(), cfg),
            ticks.last().input,
            ticks.last().manifolds,
            cfg,
        )
    }
}

/// In velocity mode a tick maps a well-formed state to a well-formed state,
/// moving the position by at most `POS_STEP_GAIN` per axis: the movement
/// step rewrites the velocity from input alone, so no growth accumulates.
pub proof fn lemma_step_ok(
    s: BodyModel,
    input: InputSnapshot,
    ms: Seq<Manifold>,
    cfg: SimConfig,
    pb: int,
)
    requires
        config_ok(cfg),
        cfg.mode is Velocity,
        manifolds_ok(ms),
        state_ok(s),
        s.pos.in_box(pb),
        0 <= pb <= MAX_POS as int - POS_STEP_GAIN as int,
    ensures
        state_ok(step_model(s, input, ms, cfg)),
        step_model(s, input, ms, cfg).pos.in_box(pb + POS_STEP_GAIN as int),
        step_model(s, input, ms, cfg).rot == s.rot,
        step_model(s, input, ms, cfg).ang == s.ang,
{
    lemma_move_vel_bounded(input, cfg.speed as int);
    let moved = moved_state(s, input, cfg);
    let v = move_vel(input, cfg.speed as int);
    crate::num::lemma_tdiv_shrinks(v.x, TICKS_PER_SEC as int);
    crate::num::lemma_tdiv_shrinks(v.y, TICKS_PER_SEC as int);
    assert(moved.pos.in_box(pb + MAX_SPEED as int));
    lemma_cb_ceilings();
    lemma_cb_mono_v(cfg.speed as int, MAX_SPEED as int, ms.len());
    lemma_cb_mono_k(MAX_SPEED as int, ms.len(), 8);
    lemma_resolve_bounds(moved, ms, ms.len(), pb + MAX_SPEED as int, cfg.speed as int);
    assert(ms.len() * (MAX_PEN as int) <= 8 * (MAX_PEN as int)) by {
        lemma_mul_inequality(ms.len() as int, 8, MAX_PEN as int);
    }
}

fn integrate_exec(pos: Vec2i, vel: Vec2i) -> (r: Vec2i)
    requires
        pos@.in_box(0x1000_0000_0000_0000),
        vel@.in_box(0x1000_0000_0000_0000),
    ensures
        r@ == integrate(pos@, vel@),
{
    Vec2i { x: pos.x + div_trunc(vel.x, TICKS_PER_SEC), y: pos.y + div_trunc(vel.y, TICKS_PER_SEC) }
}

/// Execute one simulation tick. Deterministic: the result is exactly
/// `step_model` of the arguments, so identical inputs always produce the
/// identical state, on any peer and during any replay.
pub fn step(state: &BodyState, input: &InputSnapshot, manifolds: &Vec<Manifold>, cfg: &SimConfig)
    -> (r: BodyState)
    requires
        config_ok(*cfg),
        manifolds_ok(manifolds@),
        state_ok(state@),
        state@.pos.in_box(MAX_POS as int - POS_STEP_GAIN as int),
    ensures
        r@ == step_model(state@, *input, manifolds@, *cfg),
{
    let mut vel = state.vel;
    move_player(&mut vel, input, cfg.speed);
    let pos = integrate_exec(state.pos, vel);
    let kept_vel = match cfg.mode {
        MovementMode::Velocity => vel,
        MovementMode::Position => state.vel,
    };
    let mut r = BodyState { pos, vel: kept_vel, rot: state.rot, ang: state.ang };
    proof {
        crate::num::lemma_tdiv_shrinks(vel@.x, TICKS_PER_SEC as int);
        crate::num::lemma_tdiv_shrinks(vel@.y, TICKS_PER_SEC as int);
        assert(r@ == moved_state(state@, *input, *cfg));
    }
    kinematic_controller_collisions(&mut r, manifolds);
    r
}

/// Replaying a bounded span of well-formed ticks in velocity mode keeps the
/// state well-formed, with the position within the per-tick gain of where it
/// started.
pub proof fn lemma_replay_ok(s: BodyModel, ticks: Seq<TickSim>, cfg: SimConfig)
    requires
        config_ok(cfg),
        cfg.mode is Velocity,
        ticks_ok(ticks),
        ticks.len() <= RING_DEPTH,
        state_ok(s),
        s.pos.in_box(POS_LIMIT as int),
    ensures
        state_ok(replay_model(s, ticks, cfg)),
        replay_model(s, ticks, cfg).pos.in_box(
            POS_LIMIT as int + ticks.len() * (POS_STEP_GAIN as int),
        ),
        replay_model(s, ticks, cfg).rot == s.rot,
        replay_model(s, ticks, cfg).ang == s.ang,
    decreases ticks.len(),
{
    if ticks.len() > 0 {
        lemma_replay_ok(s, ticks.drop_last(), cfg);
        assert(ticks_ok(ticks.drop_last()));
        let prev = replay_model(s, ticks.drop_last(), cfg);
        lemma_mul_inequality(ticks.len() as int - 1, RING_DEPTH as int, POS_STEP_GAIN as int);
        assert((ticks.len() - 1) * (POS_STEP_GAIN as int) <= (RING_DEPTH as int) * (
        POS_STEP_GAIN as int)) by {
            lemma_mul_inequality(ticks.len() as int - 1, RING_DEPTH as int, POS_STEP_GAIN as int);
        }
        lemma_step_ok(
            prev,
            ticks.last().input,
            ticks.last().manifolds,
            cfg,
            POS_LIMIT as int + (ticks.len() - 1) * (POS_STEP_GAIN as int),
        );
    }
}

} // verus!
