//! The crate-level laws of the prediction core, each proved once and for
//! all inputs.
//!
//! The reconciliation laws live on `PredictionManager::reconcile` itself:
//! its contract states that a confirmed snapshot agreeing with the stored
//! prediction leaves the history untouched, and that after a rollback the
//! present state equals re-simulation from the confirmed snapshot over the
//! buffered inputs.

use crate::body::BodyModel;
use crate::collision::{Manifold, apply_manifold, manifold_ok};
use crate::config::SimConfig;
use crate::input::{InputSnapshot, held_input, latest_at_or_before, no_input};
use crate::interp::lerp_state;
use crate::prespawn::{PreSpawnEntry, merge_hits, merge_next};
use crate::sim::{TickSim, replay_model};
use crate::vec2::V2;
use crate::SCALE;
use vstd::arithmetic::div_mod::{lemma_div_multiples_vanish, lemma_fundamental_div_mod};
use vstd::prelude::*;

verus! {

/// Determinism: simulating any span of ticks is a pure function of the
/// starting state, the per-tick inputs and manifolds, and the
/// configuration, so two runs from identical data yield identical states.
/// The executable step is pinned to the same function by its contract, so
/// this extends to repeated executions.
pub proof fn lemma_simulation_deterministic(
    s1: BodyModel,
    s2: BodyModel,
    ticks1: Seq<TickSim>,
    ticks2: Seq<TickSim>,
    cfg1: SimConfig,
    cfg2: SimConfig,
)
    requires
        s1 == s2,
        ticks1 == ticks2,
        cfg1 == cfg2,
    ensures
        replay_model(s1, ticks1, cfg1) == replay_model(s2, ticks2, cfg2),
{
}

/// Hold-last input: when the snapshot for tick `t` is missing but tick
/// `t - 1` holds one, simulation at `t` uses exactly the snapshot of
/// `t - 1`.
pub proof fn lemma_hold_last_input(m: Map<u64, InputSnapshot>, t: u64)
    requires
        t > 0,
        !m.contains_key(t),
        m.contains_key((t - 1) as u64),
    ensures
        held_input(m, t) == m[(t - 1) as u64],
{
    assert(latest_at_or_before(m, (t - 1) as u64) == Some((t - 1) as u64));
    assert(latest_at_or_before(m, t) == Some((t - 1) as u64));
}

/// Missing input is never fabricated as "no keys pressed": the all-released
/// snapshot is used only when no tick at or before `t` was ever recorded.
pub proof fn lemma_no_input_fabrication(m: Map<u64, InputSnapshot>, t: u64, t0: u64)
    requires
        t0 <= t,
        m.contains_key(t0),
        m[t0] != no_input(),
    ensures
        latest_at_or_before(m, t) is Some,
    decreases t,
{
    if !m.contains_key(t) && t > 0 {
        lemma_no_input_fabrication(m, (t - 1) as u64, t0);
    }
}

/// Kinematic push-out: a kinematic body penetrating by depth `d` along a
/// manifold's normal, with zero velocity, is translated by `d * n / SCALE`
/// and its velocity is untouched (a non-moving body is never impulsed,
/// since its normal speed is zero).
pub proof fn lemma_kinematic_push_out(s: BodyModel, m: Manifold, d: int)
    requires
        manifold_ok(m),
        m.points@.len() == 1,
        m.points@[0].penetration == d,
        d > 0,
        s.vel == (V2 { x: 0, y: 0 }),
    ensures
        apply_manifold(s, m).pos == s.pos.add(m.normal@.scale_div(d, SCALE as int)),
        apply_manifold(s, m).vel == s.vel,
        apply_manifold(s, m).rot == s.rot,
{
    let n = m.normal@;
    reveal_with_fuel(crate::collision::deepest_rec, 3);
    assert(crate::collision::deepest(m) == d);
    assert(s.vel.x * n.x == 0) by (nonlinear_arith)
        requires
            s.vel.x == 0,
    ;
    assert(s.vel.y * n.y == 0) by (nonlinear_arith)
        requires
            s.vel.y == 0,
    ;
    assert(s.vel.dot(n) == 0);
    assert(crate::num::tdiv(0, SCALE as int) == 0) by {
        vstd::arithmetic::div_mod::lemma_div_of0(SCALE as int);
    }
    assert(crate::collision::pushout(s.pos, m) == s.pos.add(n.scale_div(d, SCALE as int)));
}

/// Interpolation midpoint: sampling halfway between two confirmed
/// snapshots whose position difference is even on each axis yields exactly
/// the midpoint of the two positions.
pub proof fn lemma_interpolation_midpoint(a: BodyModel, b: BodyModel)
    requires
        (b.pos.x - a.pos.x) % 2 == 0,
        (b.pos.y - a.pos.y) % 2 == 0,
    ensures
        lerp_state(a, b, 500).pos == (V2 {
            x: (a.pos.x + b.pos.x) / 2,
            y: (a.pos.y + b.pos.y) / 2,
        }),
{
    lemma_lerp_half(a.pos.x, b.pos.x);
    lemma_lerp_half(a.pos.y, b.pos.y);
}

proof fn lemma_lerp_half(a: int, b: int)
    requires
        (b - a) % 2 == 0,
    ensures
        crate::interp::lerp_scalar(a, b, 500) == (a + b) / 2,
{
    let d = b - a;
    lemma_fundamental_div_mod(d, 2);
    let half = d / 2;
    assert(d == 2 * half);
    assert(d * 500 == 1000 * half);
    if half >= 0 {
        lemma_div_multiples_vanish(half, 1000);
        assert(crate::num::tdiv(d * 500, 1000) == half);
    } else {
        lemma_div_multiples_vanish(-half, 1000);
        assert((-(1000 * half)) == 1000 * (-half));
        assert(crate::num::tdiv(d * 500, 1000) == half);
    }
    lemma_div_multiples_vanish(a + half, 2);
    assert(a + b == 2 * (a + half));
}

/// Pre-spawn merge happens at most once: after a hash has merged, a second
/// delivery of the same hash finds no unmatched entry and changes nothing.
pub proof fn lemma_prespawn_merge_at_most_once(m: Map<u64, PreSpawnEntry>, h: u64)
    requires
        merge_hits(m, h),
    ensures
        !merge_hits(merge_next(m, h), h),
        merge_next(merge_next(m, h), h) == merge_next(m, h),
{
}

} // verus!
