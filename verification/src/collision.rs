//! Kinematic collision response.
//!
//! Kinematic bodies are not pushed by collisions by themselves, so this pass
//! corrects them manually against the contact manifolds the external
//! narrow-phase step produced: per manifold it pushes the body out of
//! penetration once along the normal, by the deepest penetration across the
//! manifold's contact points, and cancels the part of the velocity that
//! would penetrate within the next tick (a speculative-contact correction).
//! Deterministic in its inputs, so it runs identically during live server
//! simulation, live client prediction, and rollback replay.

use crate::body::{BodyModel, BodyState};
use crate::num::{div_trunc, mag, mul_small, tdiv};
use crate::vec2::{V2, Vec2i};
use crate::{MAX_CONTACTS, MAX_MANIFOLDS, MAX_PEN, MAX_POS, MAX_SPEED, MAX_VEL, SCALE,
    TICKS_PER_SEC};
use vstd::arithmetic::mul::lemma_mul_inequality;
use vstd::prelude::*;

verus! {

/// One contact point of a manifold. A positive penetration (milliunits) is a
/// real overlap; a non-positive one is a speculative contact the narrow
/// phase reported ahead of actual penetration.
#[derive(Clone, Copy, PartialEq, Eq, Structural, Debug)]
pub struct ContactPoint {
    pub penetration: i64,
}

/// A set of contact points sharing one normal, against one other body. The
/// normal is fixed-point (components scaled by `SCALE`) and oriented so that
/// pushing the kinematic body along it separates the pair.
#[derive(Clone, Debug)]
pub struct Manifold {
    pub normal: Vec2i,
    pub points: Vec<ContactPoint>,
    pub other_is_dynamic: bool,
}

/// A well-formed manifold: a normal no longer than one unit per axis, and
/// one to `MAX_CONTACTS` points of bounded penetration.
pub open spec fn manifold_ok(m: Manifold) -> bool {
    &&& m.normal@.in_box(SCALE as int)
    &&& 1 <= m.points@.len() <= MAX_CONTACTS
    &&& forall|i: int|
        0 <= i < m.points@.len() ==> mag((#[trigger] m.points@[i]).penetration as int)
            <= MAX_PEN as int
}

/// A well-formed per-tick manifold set.
pub open spec fn manifolds_ok(ms: Seq<Manifold>) -> bool {
    &&& ms.len() <= MAX_MANIFOLDS
    &&& forall|i: int| 0 <= i < ms.len() ==> manifold_ok(#[trigger] ms[i])
}

/// Deepest penetration among the first `k` points, folded from a floor no
/// well-formed point is below.
pub open spec fn deepest_rec(pts: Seq<ContactPoint>, k: nat) -> int
    decreases k,
{
    if k == 0 {
        -(MAX_PEN as int)
    } else {
        let d = deepest_rec(pts, (k - 1) as nat);
        let p = pts[k - 1].penetration as int;
        if p > d {
            p
        } else {
            d
        }
    }
}

/// Deepest penetration across a manifold's points.
pub open spec fn deepest(m: Manifold) -> int {
    deepest_rec(m.points@, m.points@.len())
}

/// Position after the push-out pass of one manifold: if the manifold
/// penetrates at all, the body is translated once, along the normal, by the
/// deepest penetration across the manifold's contact points.
pub open spec fn pushout(pos: V2, m: Manifold) -> V2 {
    if deepest(m) > 0 {
        pos.add(m.normal@.scale_div(deepest(m), SCALE as int))
    } else {
        pos
    }
}

/// Velocity after one manifold's correction. Collisions against dynamic
/// bodies are left to the dynamic solver; a body separating from the surface
/// (`normal speed >= 0`) is left alone; otherwise the impulse
/// `normal_speed - deepest / dt` is rejected from the velocity, which
/// over-corrects by one tick of penetration (speculative contacts).
pub open spec fn vel_after_manifold(vel: V2, m: Manifold) -> V2 {
    if m.other_is_dynamic {
        vel
    } else {
        let ns = tdiv(vel.dot(m.normal@), SCALE as int);
        if ns >= 0 {
            vel
        } else {
            let imp = ns - deepest(m) * (TICKS_PER_SEC as int);
            vel.sub(m.normal@.scale_div(imp, SCALE as int))
        }
    }
}

/// One manifold's full response: push-out, then velocity correction.
pub open spec fn apply_manifold(s: BodyModel, m: Manifold) -> BodyModel {
    BodyModel {
        pos: pushout(s.pos, m),
        vel: vel_after_manifold(s.vel, m),
        rot: s.rot,
        ang: s.ang,
    }
}

/// State after resolving the first `k` manifolds in order.
pub open spec fn resolve_rec(s: BodyModel, ms: Seq<Manifold>, k: nat) -> BodyModel
    decreases k,
{
    if k == 0 {
        s
    } else {
        apply_manifold(resolve_rec(s, ms, (k - 1) as nat), ms[k - 1])
    }
}

/// State after one full resolver pass over a tick's manifolds.
pub open spec fn resolve_collisions(s: BodyModel, ms: Seq<Manifold>) -> BodyModel {
    resolve_rec(s, ms, ms.len())
}

/// Velocity-magnitude bound after `k` manifold corrections starting from
/// magnitude `v0`: each correction at worst triples the magnitude and adds
/// one tick's worth of maximal penetration impulse.
pub open spec fn vel_chain_bound(v0: int, k: nat) -> int
    decreases k,
{
    if k == 0 {
        v0
    } else {
        3 * vel_chain_bound(v0, (k - 1) as nat) + 0x400_0000
    }
}

/// `|n * c / SCALE| <= |c|` for a normal component `|n| <= SCALE`.
proof fn lemma_scaled_component(n: int, c: int)
    requires
        mag(n) <= SCALE as int,
        mag(c) <= 0x20_0000_0000_0000_0000,
    ensures
        mag(tdiv(n * c, SCALE as int)) <= mag(c),
{
    assert(mag(n * c) == mag(n) * mag(c)) by (nonlinear_arith);
    lemma_mul_inequality(mag(n), SCALE as int, mag(c));
    crate::num::lemma_tdiv_mag_le(n * c, SCALE as int, mag(c));
}

/// Push-out moves each position component by at most `MAX_PEN` per
/// manifold.
proof fn lemma_pushout_bound(pos: V2, m: Manifold, pb: int)
    requires
        manifold_ok(m),
        pos.in_box(pb),
        0 <= pb,
    ensures
        pushout(pos, m).in_box(pb + MAX_PEN as int),
{
    lemma_deepest_bound(m.points@, m.points@.len());
    if deepest(m) > 0 {
        lemma_scaled_component(m.normal@.x, deepest(m));
        lemma_scaled_component(m.normal@.y, deepest(m));
    }
}

/// The deepest penetration of a well-formed manifold prefix stays within
/// `[-MAX_PEN, MAX_PEN]`.
proof fn lemma_deepest_bound(pts: Seq<ContactPoint>, k: nat)
    requires
        forall|i: int|
            0 <= i < pts.len() ==> mag((#[trigger] pts[i]).penetration as int) <= MAX_PEN as int,
        k <= pts.len(),
    ensures
        mag(deepest_rec(pts, k)) <= MAX_PEN as int,
    decreases k,
{
    if k > 0 {
        lemma_deepest_bound(pts, (k - 1) as nat);
    }
}

/// One velocity correction at worst triples each component's magnitude and
/// adds `TICKS_PER_SEC * MAX_PEN`.
proof fn lemma_vel_after_bound(vel: V2, m: Manifold, vb: int)
    requires
        manifold_ok(m),
        vel.in_box(vb),
        0 <= vb <= 0x800_0000_0000_0000,
    ensures
        vel_after_manifold(vel, m).in_box(3 * vb + 0x400_0000),
{
    let n = m.normal@;
    if !m.other_is_dynamic {
        let dot = vel.dot(n);
        assert(mag(vel.x * n.x) == mag(vel.x) * mag(n.x)) by (nonlinear_arith);
        assert(mag(vel.y * n.y) == mag(vel.y) * mag(n.y)) by (nonlinear_arith);
        lemma_mul_inequality(mag(vel.x), vb, mag(n.x));
        lemma_mul_inequality(mag(vel.y), vb, mag(n.y));
        assert(vb * mag(n.x) == mag(n.x) * vb) by (nonlinear_arith);
        assert(vb * mag(n.y) == mag(n.y) * vb) by (nonlinear_arith);
        lemma_mul_inequality(mag(n.x), SCALE as int, vb);
        lemma_mul_inequality(mag(n.y), SCALE as int, vb);
        assert(mag(dot) <= (SCALE as int) * vb + (SCALE as int) * vb);
        assert((SCALE as int) * (2 * vb) == (SCALE as int) * vb + (SCALE as int) * vb)
            by (nonlinear_arith);
        let ns = tdiv(dot, SCALE as int);
        crate::num::lemma_tdiv_mag_le(dot, SCALE as int, 2 * vb);
        if ns < 0 {
            lemma_deepest_bound(m.points@, m.points@.len());
            let imp = ns - deepest(m) * (TICKS_PER_SEC as int);
            assert(mag(imp) <= 2 * vb + 0x400_0000);
            lemma_scaled_component(n.x, imp);
            lemma_scaled_component(n.y, imp);
        }
    }
}

/// Bounds of a resolver pass: each manifold can push each position component
/// by at most `MAX_PEN`, and the velocity stays within the chain bound.
/// Rotation is untouched.
pub proof fn lemma_resolve_bounds(s: BodyModel, ms: Seq<Manifold>, k: nat, pb: int, vb: int)
    requires
        manifolds_ok(ms),
        k <= ms.len(),
        s.pos.in_box(pb),
        s.vel.in_box(vb),
        0 <= pb,
        0 <= vb,
        vel_chain_bound(vb, k) <= 0x800_0000_0000_0000,
    ensures
        resolve_rec(s, ms, k).pos.in_box(pb + k * (MAX_PEN as int)),
        resolve_rec(s, ms, k).vel.in_box(vel_chain_bound(vb, k)),
        resolve_rec(s, ms, k).rot == s.rot,
        resolve_rec(s, ms, k).ang == s.ang,
    decreases k,
{
    if k > 0 {
        lemma_cb_nonneg(vb, (k - 1) as nat);
        lemma_cb_mono_k(vb, (k - 1) as nat, k);
        lemma_resolve_bounds(s, ms, (k - 1) as nat, pb, vb);
        let prev = resolve_rec(s, ms, (k - 1) as nat);
        let m = ms[k - 1 as int];
        lemma_vel_after_bound(prev.vel, m, vel_chain_bound(vb, (k - 1) as nat));
        lemma_pushout_bound(prev.pos, m, pb + (k - 1) * (MAX_PEN as int));
    }
}

/// The chain bound never drops below its starting magnitude.
pub proof fn lemma_cb_nonneg(v0: int, k: nat)
    requires
        0 <= v0,
    ensures
        v0 <= vel_chain_bound(v0, k),
    decreases k,
{
    if k > 0 {
        lemma_cb_nonneg(v0, (k - 1) as nat);
    }
}

/// The chain bound grows with the number of manifolds.
pub proof fn lemma_cb_mono_k(v0: int, k1: nat, k2: nat)
    requires
        0 <= v0,
        k1 <= k2,
    ensures
        vel_chain_bound(v0, k1) <= vel_chain_bound(v0, k2),
    decreases k2,
{
    if k1 < k2 {
        lemma_cb_mono_k(v0, k1, (k2 - 1) as nat);
        lemma_cb_nonneg(v0, (k2 - 1) as nat);
    }
}

/// The chain bound grows with the starting magnitude.
pub proof fn lemma_cb_mono_v(v: int, w: int, k: nat)
    requires
        0 <= v <= w,
    ensures
        vel_chain_bound(v, k) <= vel_chain_bound(w, k),
    decreases k,
{
    if k > 0 {
        lemma_cb_mono_v(v, w, (k - 1) as nat);
    }
}

/// Numeric ceilings of the chain bound at the crate's magnitude limits: a
/// full resolver pass keeps a `MAX_VEL`-bounded velocity within `VEL_SAFE`,
/// keeps every intermediate velocity within `2^50`, and keeps a velocity the
/// movement step just wrote (at most `MAX_SPEED`) within `MAX_VEL`.
pub proof fn lemma_cb_ceilings()
    ensures
        vel_chain_bound(MAX_VEL as int, 8) <= crate::VEL_SAFE as int,
        vel_chain_bound(MAX_VEL as int, 7) <= 0x4_0000_0000_0000,
        vel_chain_bound(MAX_SPEED as int, 8) <= MAX_VEL as int,
{
    reveal_with_fuel(vel_chain_bound, 9);
    assert(vel_chain_bound(MAX_VEL as int, 8) <= crate::VEL_SAFE as int);
    assert(vel_chain_bound(MAX_VEL as int, 7) <= 0x4_0000_0000_0000);
    assert(vel_chain_bound(MAX_SPEED as int, 8) <= MAX_VEL as int);
}

/// One manifold's response, executed: push-out then velocity correction.
fn apply_manifold_exec(state: BodyState, m: &Manifold) -> (r: BodyState)
    requires
        manifold_ok(*m),
        state@.pos.in_box((MAX_POS + 0x200_0000) as int),
        state@.vel.in_box(0x4_0000_0000_0000),
    ensures
        r@ == apply_manifold(state@, *m),
{
    let n = m.normal;
    let mut deepest_pen: i64 = -MAX_PEN;
    let mut di: usize = 0;
    while di < m.points.len()
        invariant
            manifold_ok(*m),
            di <= m.points@.len(),
            deepest_pen as int == deepest_rec(m.points@, di as nat),
            mag(deepest_pen as int) <= MAX_PEN as int,
            n == m.normal,
        decreases m.points@.len() - di,
    {
        proof {
            lemma_deepest_bound(m.points@, (di + 1) as nat);
        }
        let pen = m.points[di].penetration;
        if pen > deepest_pen {
            deepest_pen = pen;
        }
        di = di + 1;
    }
    let mut px = state.pos.x;
    let mut py = state.pos.y;
    if deepest_pen > 0 {
        proof {
            assert((deepest_pen as int) * n@.x == n@.x * (deepest_pen as int))
                by (nonlinear_arith);
            assert((deepest_pen as int) * n@.y == n@.y * (deepest_pen as int))
                by (nonlinear_arith);
            lemma_scaled_component(n@.x, deepest_pen as int);
            lemma_scaled_component(n@.y, deepest_pen as int);
        }
        px = px + div_trunc(mul_small(deepest_pen, n.x), SCALE);
        py = py + div_trunc(mul_small(deepest_pen, n.y), SCALE);
    }
    let mut vx = state.vel.x;
    let mut vy = state.vel.y;
    if !m.other_is_dynamic {
        proof {
            lemma_mul_inequality(mag(vx as int), 0x4_0000_0000_0000, mag(n.x as int));
            lemma_mul_inequality(mag(vy as int), 0x4_0000_0000_0000, mag(n.y as int));
            assert(0x4_0000_0000_0000 * mag(n.x as int) == mag(n.x as int) * 0x4_0000_0000_0000)
                by (nonlinear_arith);
            assert(0x4_0000_0000_0000 * mag(n.y as int) == mag(n.y as int) * 0x4_0000_0000_0000)
                by (nonlinear_arith);
            lemma_mul_inequality(mag(n.x as int), SCALE as int, 0x4_0000_0000_0000);
            lemma_mul_inequality(mag(n.y as int), SCALE as int, 0x4_0000_0000_0000);
        }
        let dot = mul_small(vx, n.x) + mul_small(vy, n.y);
        proof {
            assert((SCALE as int) * 0x8_0000_0000_0000 == (SCALE as int) * 0x4_0000_0000_0000
                + (SCALE as int) * 0x4_0000_0000_0000) by (nonlinear_arith);
            crate::num::lemma_tdiv_mag_le(dot as int, SCALE as int, 0x8_0000_0000_0000int);
        }
        let ns = div_trunc(dot, SCALE);
        if ns < 0 {
            let imp = ns - deepest_pen * TICKS_PER_SEC;
            proof {
                assert(imp * (n.x as int) == (n.x as int) * imp) by (nonlinear_arith);
                assert(imp * (n.y as int) == (n.y as int) * imp) by (nonlinear_arith);
                lemma_scaled_component(n.x as int, imp as int);
                lemma_scaled_component(n.y as int, imp as int);
            }
            vx = vx - div_trunc(mul_small(imp, n.x), SCALE);
            vy = vy - div_trunc(mul_small(imp, n.y), SCALE);
        }
    }
    BodyState {
        pos: Vec2i { x: px, y: py },
        vel: Vec2i { x: vx, y: vy },
        rot: state.rot,
        ang: state.ang,
    }
}

/// The full kinematic collision-response pass for one body over one tick's
/// contact manifolds, exactly `resolve_collisions` of the starting state.
pub fn kinematic_controller_collisions(state: &mut BodyState, manifolds: &Vec<Manifold>)
    requires
        manifolds_ok(manifolds@),
        old(state)@.pos.in_box(MAX_POS as int),
        old(state)@.vel.in_box(MAX_VEL as int),
    ensures
        final(state)@ == resolve_collisions(old(state)@, manifolds@),
{
    let ghost s0 = state@;
    let mut mi: usize = 0;
    while mi < manifolds.len()
        invariant
            manifolds_ok(manifolds@),
            mi <= manifolds@.len(),
            s0.pos.in_box(MAX_POS as int),
            s0.vel.in_box(MAX_VEL as int),
            state@ == resolve_rec(s0, manifolds@, mi as nat),
        decreases manifolds@.len() - mi,
    {
        proof {
            lemma_cb_ceilings();
            lemma_cb_mono_k(MAX_VEL as int, mi as nat, 8);
            lemma_cb_mono_k(MAX_VEL as int, mi as nat, 7);
            lemma_resolve_bounds(s0, manifolds@, mi as nat, MAX_POS as int, MAX_VEL as int);
            lemma_mul_inequality(mi as int, 8, MAX_PEN as int);
        }
        *state = apply_manifold_exec(*state, &manifolds[mi]);
        mi = mi + 1;
    }
    proof {
        lemma_cb_ceilings();
        lemma_cb_mono_k(MAX_VEL as int, manifolds@.len(), 8);
    }
}

/// Orientation of a raw narrow-phase normal for the character controller:
/// the narrow phase reports the normal from the first collider of the pair
/// toward the second, so when the character is the first body it is flipped
/// to give the push direction a `Manifold` carries.
pub fn orient_normal(character_is_first: bool, n: Vec2i) -> (r: Vec2i)
    requires
        n@.in_box(SCALE as int),
    ensures
        r@ == if character_is_first {
            (V2 { x: -n@.x, y: -n@.y })
        } else {
            n@
        },
        r@.in_box(SCALE as int),
{
    if character_is_first {
        Vec2i { x: -n.x, y: -n.y }
    } else {
        n
    }
}

} // verus!
