use predict_core::body::BodyState;
use predict_core::collision::Manifold;
use predict_core::config::SimConfig;
use predict_core::input::{InputBuffer, InputSnapshot};
use predict_core::prediction::{PredictionManager, ReconcileOutcome};
use predict_core::sim::step;
use predict_core::vec2::Vec2i;

fn up_only() -> InputSnapshot {
    InputSnapshot { up: true, down: false, left: false, right: false, shoot: false }
}

fn no_manifolds(ticks: usize) -> Vec<Vec<Manifold>> {
    let mut v = Vec::new();
    for _ in 0..ticks {
        v.push(Vec::new());
    }
    v
}

#[test]
fn stale_confirmation_is_skipped() {
    // No stored prediction for the confirmed tick: reconciliation must not
    // rewind into undefined state; it reports the stale confirmation.
    let cfg = SimConfig::standard();
    let mut mgr = PredictionManager::new();
    let inputs = InputBuffer::new();
    let confirmed = BodyState::at_rest();
    let out = mgr.reconcile(10, &confirmed, &inputs, &no_manifolds(2), 12, &cfg);
    assert!(matches!(out, ReconcileOutcome::Stale));
    assert!(mgr.stored(10).is_none());
}

#[test]
fn matching_confirmation_changes_nothing() {
    // The confirmed snapshot agrees with the stored prediction within the
    // thresholds: the snapshot is discarded, the ring is unchanged and no
    // replay happens.
    let cfg = SimConfig::standard();
    let mut mgr = PredictionManager::new();
    let inputs = InputBuffer::new();
    let predicted = BodyState {
        pos: Vec2i { x: 500, y: 500 },
        vel: Vec2i { x: 1, y: 2 },
        rot: 100,
        ang: 0,
    };
    mgr.record(9, BodyState::at_rest());
    mgr.record(10, predicted);
    // Differs by (5, 0) milli: below the 10-milli threshold.
    let confirmed = BodyState {
        pos: Vec2i { x: 505, y: 500 },
        vel: Vec2i { x: 1, y: 2 },
        rot: 105,
        ang: 0,
    };
    let out = mgr.reconcile(10, &confirmed, &inputs, &no_manifolds(2), 12, &cfg);
    assert!(matches!(out, ReconcileOutcome::Clean));
    assert_eq!(mgr.stored(10), Some(predicted));
    assert_eq!(mgr.stored(9), Some(BodyState::at_rest()));
}

#[test]
fn divergent_confirmation_rolls_back_and_replays() {
    // The confirmed snapshot differs by far more than the threshold: the
    // entity is rewound to it and re-simulated through the present with the
    // buffered inputs. The corrected state must equal re-running the step
    // by hand from the confirmed snapshot.
    let cfg = SimConfig::standard();
    let mut mgr = PredictionManager::new();
    let mut inputs = InputBuffer::new();
    inputs.write(11, up_only());
    // Tick 12 has no input: hold-last reuses tick 11's snapshot.

    mgr.record(10, BodyState::at_rest());
    mgr.record(11, BodyState::at_rest());
    mgr.record(12, BodyState::at_rest());

    let confirmed = BodyState {
        pos: Vec2i { x: 100_000, y: 0 },
        vel: Vec2i { x: 0, y: 0 },
        rot: 0,
        ang: 0,
    };
    let out = mgr.reconcile(10, &confirmed, &inputs, &no_manifolds(2), 12, &cfg);

    let empty: Vec<Manifold> = Vec::new();
    let replay_11 = step(&confirmed, &up_only(), &empty, &cfg);
    let replay_12 = step(&replay_11, &up_only(), &empty, &cfg);

    match out {
        ReconcileOutcome::Corrected(s) => assert_eq!(s, replay_12),
        _ => panic!("expected a rollback"),
    }
    assert_eq!(mgr.stored(11), Some(replay_11));
    assert_eq!(mgr.stored(12), Some(replay_12));
    // 150_000 / 64 = 2343 milli of upward motion per replayed tick.
    assert_eq!(replay_12.pos, Vec2i { x: 100_000, y: 4686 });
    // The unrelated entry for tick 10 is untouched by the replay writes.
    assert_eq!(mgr.stored(10), Some(BodyState::at_rest()));
}

#[test]
fn rotation_divergence_alone_triggers_rollback() {
    let cfg = SimConfig::standard();
    let mut mgr = PredictionManager::new();
    let inputs = InputBuffer::new();
    mgr.record(5, BodyState::at_rest());
    // Position identical, rotation off by 50 milliradians.
    let confirmed = BodyState {
        pos: Vec2i { x: 0, y: 0 },
        vel: Vec2i { x: 0, y: 0 },
        rot: 50,
        ang: 0,
    };
    let out = mgr.reconcile(5, &confirmed, &inputs, &no_manifolds(0), 5, &cfg);
    match out {
        ReconcileOutcome::Corrected(s) => assert_eq!(s, confirmed),
        _ => panic!("expected a rollback"),
    }
    // With no ticks to replay, only the present state is corrected; the
    // ring entry for the confirmed tick itself keeps the old prediction.
    assert_eq!(mgr.stored(5), Some(BodyState::at_rest()));
}

#[test]
fn ring_overwrites_same_tick_and_evicts_old_slot() {
    let mut mgr = PredictionManager::new();
    let a = BodyState::at_rest();
    let b = BodyState { pos: Vec2i { x: 1, y: 1 }, vel: Vec2i { x: 0, y: 0 }, rot: 0, ang: 0 };
    mgr.record(3, a);
    mgr.record(3, b);
    assert_eq!(mgr.stored(3), Some(b));
    // Tick 3 + 64 shares the slot: recording it evicts tick 3.
    mgr.record(67, a);
    assert!(mgr.stored(3).is_none());
    assert_eq!(mgr.stored(67), Some(a));
}
