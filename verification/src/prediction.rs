//! Reconciliation of predicted state against server-confirmed state, with
//! rollback and replay on divergence.
//!
//! Per predicted entity the manager keeps a ring of past predicted states.
//! When a confirmed snapshot for tick `T` arrives, the stored prediction for
//! `T` is compared component-by-component under the configured thresholds:
//! if no stored prediction exists the confirmation is skipped as stale (a
//! deliberate "can't verify" policy, never a rewind into undefined state);
//! if the prediction agrees, the confirmation is discarded and the ring is
//! left untouched; otherwise the state is rewound to the confirmed snapshot
//! and re-simulated tick by tick up to the present, consuming the buffered
//! input snapshots under the hold-last policy and overwriting the ring as it
//! goes.

use crate::body::{BodyModel, BodyState, state_ok};
use crate::collision::{Manifold, manifolds_ok};
use crate::config::{SimConfig, config_ok};
use crate::history::{StateHistory, lemma_distinct_slots};
use crate::input::{InputBuffer, InputSnapshot, held_input};
use crate::num::mag;
use crate::sim::{TickSim, lemma_replay_ok, replay_model, step, ticks_ok};
use crate::vec2::{V2, Vec2i};
use crate::{MAX_PEN, MAX_POS, POS_LIMIT, POS_STEP_GAIN, RING_DEPTH};
use vstd::prelude::*;

verus! {

/// Whether two positions differ by at least `thr` milliunits (compared by
/// squared distance, which is exact in integers).
pub open spec fn pos_diverged(a: V2, b: V2, thr: int) -> bool {
    let d = a.sub(b);
    d.dot(d) >= thr * thr
}

/// Whether two rotations differ by at least `thr` milliradians. Rotations
/// are kept as absolute (unwrapped) milliradian values, so the angular
/// difference is a plain difference.
pub open spec fn rot_diverged(a: int, b: int, thr: int) -> bool {
    mag(a - b) >= thr
}

/// The divergence predicate reconciliation applies: position distance or
/// rotation difference at or above its threshold.
pub open spec fn diverged(pred: BodyModel, conf: BodyModel, cfg: SimConfig) -> bool {
    ||| pos_diverged(pred.pos, conf.pos, cfg.pos_threshold as int)
    ||| rot_diverged(pred.rot, conf.rot, cfg.rot_threshold as int)
}

/// Whether predicted and confirmed positions are far enough apart to demand
/// a rollback.
pub fn position_should_rollback(this: &Vec2i, that: &Vec2i, threshold: i64) -> (r: bool)
    requires
        this@.in_box(MAX_POS as int),
        that@.in_box(MAX_POS as int),
        0 < threshold <= MAX_PEN,
    ensures
        r == pos_diverged(this@, that@, threshold as int),
{
    let dx: i64 = this.x - that.x;
    let dy: i64 = this.y - that.y;
    proof {
        assert((dx as int) * (dx as int) <= 0x4000_0000_0000_0000_0000_0000 && (dx as int) * (
        dx as int) >= 0) by (nonlinear_arith)
            requires
                mag(dx as int) <= 0x2000_0000_0000,
        ;
        assert((dy as int) * (dy as int) <= 0x4000_0000_0000_0000_0000_0000 && (dy as int) * (
        dy as int) >= 0) by (nonlinear_arith)
            requires
                mag(dy as int) <= 0x2000_0000_0000,
        ;
        assert((threshold as int) * (threshold as int) <= 0x10_0000_0000_0000) by (nonlinear_arith)
            requires
                0 < threshold <= MAX_PEN,
        ;
    }
    let dist_sq: i128 = (dx as i128) * (dx as i128) + (dy as i128) * (dy as i128);
    let thr_sq: i128 = (threshold as i128) * (threshold as i128);
    dist_sq >= thr_sq
}

/// Whether predicted and confirmed rotations are far enough apart to demand
/// a rollback.
pub fn rotation_should_rollback(this: i64, that: i64, threshold: i64) -> (r: bool)
    requires
        mag(this as int) <= MAX_POS as int,
        mag(that as int) <= MAX_POS as int,
        0 < threshold <= MAX_PEN,
    ensures
        r == rot_diverged(this as int, that as int, threshold as int),
{
    let d: i64 = this - that;
    let a: i64 = if d < 0 {
        -d
    } else {
        d
    };
    a >= threshold
}

/// The per-tick replay data reconciliation derives for the span after
/// `conf_tick`: tick `conf_tick + 1 + j` is simulated with the hold-last
/// input for that tick and the `j`-th provided manifold set.
pub open spec fn replay_schedule(
    buf: Map<u64, InputSnapshot>,
    conf_tick: u64,
    mss: Seq<Vec<Manifold>>,
) -> Seq<TickSim> {
    Seq::new(
        mss.len(),
        |j: int|
            TickSim {
                input: held_input(buf, (conf_tick + 1 + j) as u64),
                manifolds: mss[j]@,
            },
    )
}

/// Which ring entries a replay of `k` ticks after `conf_tick` may overwrite
/// or evict: those sharing a slot with a replayed tick.
pub open spec fn replay_overwrites(t: u64, conf_tick: u64, k: nat) -> bool
    decreases k,
{
    if k == 0 {
        false
    } else {
        ||| (t as int) % (RING_DEPTH as int) == (conf_tick + k) % (RING_DEPTH as int)
        ||| replay_overwrites(t, conf_tick, (k - 1) as nat)
    }
}

proof fn lemma_overwrites_mono(t: u64, conf_tick: u64, k1: nat, k2: nat)
    requires
        k1 <= k2,
        replay_overwrites(t, conf_tick, k1),
    ensures
        replay_overwrites(t, conf_tick, k2),
    decreases k2,
{
    if k1 < k2 {
        lemma_overwrites_mono(t, conf_tick, k1, (k2 - 1) as nat);
    }
}

/// After a rollback from `conf_tick`: every replayed tick's ring entry
/// holds exactly the state re-simulation produces for it.
pub open spec fn replayed_span_recorded(
    post: Map<u64, BodyState>,
    confirmed: BodyModel,
    buf: Map<u64, InputSnapshot>,
    conf_tick: u64,
    current_tick: u64,
    mss: Seq<Vec<Manifold>>,
    cfg: SimConfig,
) -> bool {
    forall|t: u64|
        conf_tick < t <= current_tick ==> #[trigger] post.contains_key(t) && post[t]@
            == replay_model(confirmed, replay_schedule(buf, conf_tick, mss).take(t - conf_tick), cfg)
}

/// After a rollback from `conf_tick`: every ring entry not sharing a slot
/// with a replayed tick is exactly as it was.
pub open spec fn preserved_outside_replay(
    pre: Map<u64, BodyState>,
    post: Map<u64, BodyState>,
    conf_tick: u64,
    k: nat,
) -> bool {
    forall|t: u64|
        !replay_overwrites(t, conf_tick, k) ==> (#[trigger] post.contains_key(t)
            == pre.contains_key(t)) && (pre.contains_key(t) ==> post[t] == pre[t])
}

/// The outcome of delivering one confirmed snapshot.
#[derive(Clone, Copy, PartialEq, Eq, Structural, Debug)]
pub enum ReconcileOutcome {
    /// No stored prediction for the confirmed tick (evicted or never
    /// simulated): reconciliation skipped, surfaced as a stale confirmation.
    Stale,
    /// The stored prediction agrees within the thresholds: the confirmation
    /// is discarded and prediction continues untouched.
    Clean,
    /// Divergence: the state was rewound and replayed; carries the corrected
    /// present-tick state.
    Corrected(BodyState),
}

/// Per-entity prediction state: the ring of past predicted states.
pub struct PredictionManager {
    history: StateHistory,
}

impl View for PredictionManager {
    type V = Map<u64, BodyState>;

    /// The stored predictions, as a map from tick to snapshot.
    closed spec fn view(&self) -> Map<u64, BodyState> {
        self.history@
    }
}

impl PredictionManager {
    /// The ring is well-formed and every stored snapshot is well-formed.
    pub closed spec fn wf(self) -> bool {
        &&& self.history.wf()
        &&& forall|t: u64|
            #[trigger] self.history@.contains_key(t) ==> state_ok(self.history@[t]@)
    }

    pub fn new() -> (r: PredictionManager)
        ensures
            r.wf(),
            r@ == Map::<u64, BodyState>::empty(),
    {
        PredictionManager { history: StateHistory::new() }
    }

    /// Record the state just simulated for `tick`, overwriting any snapshot
    /// already held for it and evicting whichever older tick shared its
    /// slot.
    pub fn record(&mut self, tick: u64, state: BodyState)
        requires
            old(self).wf(),
            state_ok(state@),
        ensures
            final(self).wf(),
            final(self)@.contains_key(tick),
            final(self)@[tick] == state,
            forall|t: u64|
                t != tick && t % RING_DEPTH == tick % RING_DEPTH
                    ==> !(#[trigger] final(self)@.contains_key(t)),
            forall|t: u64|
                t % RING_DEPTH != tick % RING_DEPTH ==> #[trigger] final(self)@.contains_key(t)
                    == old(self)@.contains_key(t),
            forall|t: u64|
                t % RING_DEPTH != tick % RING_DEPTH && old(self)@.contains_key(t)
                    ==> #[trigger] final(self)@[t] == old(self)@[t],
    {
        self.history.write(tick, state);
    }

    /// The prediction stored for exactly `tick`, if the ring still holds
    /// one.
    pub fn stored(&self, tick: u64) -> (r: Option<BodyState>)
        requires
            self.wf(),
        ensures
            match r {
                Some(s) => self@.contains_key(tick) && self@[tick] == s,
                None => !self@.contains_key(tick),
            },
    {
        self.history.read(tick)
    }

    /// Deliver the confirmed snapshot for `conf_tick` and reconcile.
    ///
    /// With no stored prediction for `conf_tick` the outcome is `Stale` and
    /// nothing changes. With a stored prediction within the thresholds the
    /// outcome is `Clean` and nothing changes. Otherwise the entity is
    /// rewound to the confirmed snapshot and re-simulated through
    /// `current_tick` using the buffered inputs (hold-last) and the provided
    /// per-tick manifold sets; the ring entry of every replayed tick is
    /// overwritten with the re-simulated state, every entry not sharing a
    /// slot with a replayed tick is untouched, and the corrected
    /// present-tick state is returned. Replay runs in velocity-driven
    /// movement mode, the mode a predicting client simulates in.
    #[verifier::rlimit(100)]
    #[verifier::spinoff_prover]
    pub fn reconcile(
        &mut self,
        conf_tick: u64,
        confirmed: &BodyState,
        inputs: &InputBuffer,
        replay_manifolds: &Vec<Vec<Manifold>>,
        current_tick: u64,
        cfg: &SimConfig,
    ) -> (out: ReconcileOutcome)
        requires
            old(self).wf(),
            inputs.wf(),
            config_ok(*cfg),
            cfg.mode is Velocity,
            conf_tick <= current_tick < u64::MAX,
            current_tick - conf_tick == replay_manifolds@.len(),
            replay_manifolds@.len() <= RING_DEPTH,
            forall|j: int|
                0 <= j < replay_manifolds@.len() ==> manifolds_ok(
                    (#[trigger] replay_manifolds@[j])@,
                ),
            state_ok(confirmed@),
            confirmed@.pos.in_box(POS_LIMIT as int),
        ensures
            final(self).wf(),
            (out is Stale) <==> !old(self)@.contains_key(conf_tick),
            (out is Clean) <==> (old(self)@.contains_key(conf_tick) && !diverged(
                old(self)@[conf_tick]@,
                confirmed@,
                *cfg,
            )),
            out is Stale || out is Clean ==> final(self)@ == old(self)@,
            out matches ReconcileOutcome::Corrected(s) ==> diverged(
                old(self)@[conf_tick]@,
                confirmed@,
                *cfg,
            ) && s@ == replay_model(
                confirmed@,
                replay_schedule(inputs@, conf_tick, replay_manifolds@),
                *cfg,
            ) && state_ok(s@),
            out is Corrected ==> replayed_span_recorded(
                final(self)@,
                confirmed@,
                inputs@,
                conf_tick,
                current_tick,
                replay_manifolds@,
                *cfg,
            ),
            out is Corrected ==> preserved_outside_replay(
                old(self)@,
                final(self)@,
                conf_tick,
                replay_manifolds@.len(),
            ),
    {
        let k: usize = replay_manifolds.len();
        let ghost ticks = replay_schedule(inputs@, conf_tick, replay_manifolds@);
        match self.history.read(conf_tick) {
            None => ReconcileOutcome::Stale,
            Some(pred) => {
                let pos_div = position_should_rollback(
                    &pred.pos,
                    &confirmed.pos,
                    cfg.pos_threshold,
                );
                let rot_div = rotation_should_rollback(pred.rot, confirmed.rot, cfg.rot_threshold);
                if !pos_div && !rot_div {
                    ReconcileOutcome::Clean
                } else {
                    let mut cur: BodyState = *confirmed;
                    let mut i: usize = 0;
                    while i < k
                        invariant
                            self.history.wf(),
                            inputs.wf(),
                            config_ok(*cfg),
                            cfg.mode is Velocity,
                            conf_tick <= current_tick < u64::MAX,
                            current_tick - conf_tick == k,
                            k == replay_manifolds@.len() <= RING_DEPTH,
                            forall|j: int|
                                0 <= j < replay_manifolds@.len() ==> manifolds_ok(
                                    (#[trigger] replay_manifolds@[j])@,
                                ),
                            state_ok(confirmed@),
                            confirmed@.pos.in_box(POS_LIMIT as int),
                            ticks == replay_schedule(inputs@, conf_tick, replay_manifolds@),
                            i <= k,
                            cur@ == replay_model(confirmed@, ticks.take(i as int), *cfg),
                            forall|t: u64|
                                #[trigger] self.history@.contains_key(t) ==> state_ok(
                                    self.history@[t]@,
                                ),
                            forall|t: u64|
                                conf_tick < t <= conf_tick + i
                                    ==> #[trigger] self.history@.contains_key(t)
                                    && self.history@[t]@ == replay_model(
                                    confirmed@,
                                    ticks.take(t - conf_tick),
                                    *cfg,
                                ),
                            forall|t: u64|
                                !replay_overwrites(t, conf_tick, i as nat) ==> (
                                #[trigger] self.history@.contains_key(t) == old(
                                    self,
                                )@.contains_key(t)) && (old(self)@.contains_key(t)
                                    ==> self.history@[t] == old(self)@[t]),
                        decreases k - i,
                    {
                        proof {
                            assert(ticks_ok(ticks.take(i as int)));
                            assert(ticks_ok(ticks.take(i as int + 1)));
                            lemma_replay_ok(confirmed@, ticks.take(i as int), *cfg);
                            vstd::arithmetic::mul::lemma_mul_inequality(
                                i as int,
                                RING_DEPTH as int,
                                POS_STEP_GAIN as int,
                            );
                        }
                        let tick_now: u64 = conf_tick + 1 + (i as u64);
                        let input = inputs.resolve_input(tick_now);
                        let next = step(&cur, &input, &replay_manifolds[i], cfg);
                        proof {
                            assert(ticks.take(i as int + 1).drop_last() =~= ticks.take(i as int));
                            assert(ticks.take(i as int + 1).last() == ticks[i as int]);
                            lemma_replay_ok(confirmed@, ticks.take(i as int + 1), *cfg);
                        }
                        cur = next;
                        let ghost pre_write = self.history@;
                        self.history.write(tick_now, cur);
                        proof {
                            assert forall|t: u64| conf_tick < t <= conf_tick + (i + 1) implies
                                #[trigger] self.history@.contains_key(t) && self.history@[t]@
                                == replay_model(confirmed@, ticks.take(t - conf_tick), *cfg) by {
                                if t == tick_now {
                                } else {
                                    if t % RING_DEPTH == tick_now % RING_DEPTH {
                                        lemma_distinct_slots(t, tick_now);
                                    }
                                    assert(pre_write.contains_key(t));
                                }
                            }
                            assert forall|t: u64|
                                !replay_overwrites(t, conf_tick, (i + 1) as nat) implies (
                            #[trigger] self.history@.contains_key(t) == old(self)@.contains_key(
                                t,
                            )) && (old(self)@.contains_key(t) ==> self.history@[t] == old(
                                self,
                            )@[t]) by {
                                assert(!replay_overwrites(t, conf_tick, i as nat));
                                assert((t as int) % (RING_DEPTH as int) != (conf_tick + i + 1) % (
                                RING_DEPTH as int));
                                assert(tick_now == conf_tick + i + 1);
                                assert((t % RING_DEPTH) as int == (t as int) % (
                                RING_DEPTH as int));
                                assert((tick_now % RING_DEPTH) as int == (tick_now as int) % (
                                RING_DEPTH as int));
                                assert(t % RING_DEPTH != tick_now % RING_DEPTH);
                                assert(pre_write.contains_key(t) == old(self)@.contains_key(t));
                            }
                        }
                        i = i + 1;
                    }
                    proof {
                        assert(ticks.take(k as int) =~= ticks);
                        lemma_replay_ok(confirmed@, ticks, *cfg);
                        assert(replayed_span_recorded(
                            self@,
                            confirmed@,
                            inputs@,
                            conf_tick,
                            current_tick,
                            replay_manifolds@,
                            *cfg,
                        )) by {
                            assert forall|t: u64| conf_tick < t <= current_tick implies
                                #[trigger] self.history@.contains_key(t) && self.history@[t]@
                                == replay_model(confirmed@, ticks.take(t - conf_tick), *cfg) by {
                                assert(conf_tick < t <= conf_tick + i);
                            }
                        }
                        assert(preserved_outside_replay(
                            old(self)@,
                            self@,
                            conf_tick,
                            replay_manifolds@.len(),
                        )) by {
                            assert forall|t: u64|
                                !replay_overwrites(t, conf_tick, replay_manifolds@.len()) implies (
                            #[trigger] self.history@.contains_key(t) == old(self)@.contains_key(t))
                                && (old(self)@.contains_key(t) ==> self.history@[t] == old(
                                self,
                            )@[t]) by {
                                assert(i as nat == replay_manifolds@.len());
                                assert(!replay_overwrites(t, conf_tick, i as nat));
                                assert(self.history@.contains_key(t) == old(self)@.contains_key(
                                    t,
                                ));
                                assert(old(self)@.contains_key(t) ==> self.history@[t] == old(
                                    self,
                                )@[t]);
                            }
                        }
                    }
                    ReconcileOutcome::Corrected(cur)
                }
            },
        }
    }
}

} // verus!
