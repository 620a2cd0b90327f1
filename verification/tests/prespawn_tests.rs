use predict_core::body::BodyState;
use predict_core::input::InputSnapshot;
use predict_core::prespawn::{
    BulletSpawn, MergeOutcome, PlayerId, PreSpawnMatcher, compute_prespawn_hash, shoot,
};
use predict_core::vec2::Vec2i;

fn shoot_held() -> InputSnapshot {
    InputSnapshot { up: false, down: false, left: false, right: false, shoot: true }
}

fn released_input() -> InputSnapshot {
    InputSnapshot { up: false, down: false, left: false, right: false, shoot: false }
}

#[test]
fn merge_happens_once_and_second_delivery_is_noop() {
    // Spawning a local entity under hash H, then delivering a server entity
    // with hash H, merges into exactly one entity; delivering H again does
    // nothing.
    let mut matcher = PreSpawnMatcher::new();
    let state = BodyState::at_rest();
    let h = compute_prespawn_hash(42, &state, 7);
    assert!(matcher.register(h, 1001, 42));

    let first = matcher.match_server(h);
    assert_eq!(first, MergeOutcome::Merged(1001));

    let second = matcher.match_server(h);
    assert_eq!(second, MergeOutcome::NoMatch);
}

#[test]
fn unknown_hash_does_not_merge() {
    let mut matcher = PreSpawnMatcher::new();
    assert_eq!(matcher.match_server(0xdead_beef), MergeOutcome::NoMatch);
}

#[test]
fn hash_collision_first_registration_wins() {
    let mut matcher = PreSpawnMatcher::new();
    assert!(matcher.register(55, 1, 10));
    // A second local entity under the same hash is rejected; it falls back
    // to waiting for its own server entity.
    assert!(!matcher.register(55, 2, 11));
    assert_eq!(matcher.match_server(55), MergeOutcome::Merged(1));
}

#[test]
fn expiry_discards_old_unmatched_entries_only() {
    let mut matcher = PreSpawnMatcher::new();
    assert!(matcher.register(1, 10, 5));
    assert!(matcher.register(2, 20, 5));
    assert!(matcher.register(3, 30, 90));
    // Entry 1 merges before the window closes.
    assert_eq!(matcher.match_server(1), MergeOutcome::Merged(10));

    matcher.expire(64);
    // Merged entries and young entries survive; the old unmatched one is
    // discarded as a misprediction.
    assert_eq!(matcher.match_server(1), MergeOutcome::NoMatch); // merged already
    assert_eq!(matcher.match_server(2), MergeOutcome::NoMatch); // expired
    assert_eq!(matcher.match_server(3), MergeOutcome::Merged(30));
}

#[test]
fn hash_is_deterministic_and_sensitive() {
    let a = BodyState {
        pos: Vec2i { x: 10, y: 20 },
        vel: Vec2i { x: 30, y: 40 },
        rot: 50,
        ang: 60,
    };
    let h1 = compute_prespawn_hash(100, &a, 1);
    let h2 = compute_prespawn_hash(100, &a, 1);
    assert_eq!(h1, h2);
    // Different salt, tick, or state all move the fingerprint.
    assert_ne!(h1, compute_prespawn_hash(100, &a, 2));
    assert_ne!(h1, compute_prespawn_hash(101, &a, 1));
    let b = BodyState { pos: Vec2i { x: 11, y: 20 }, ..a };
    assert_ne!(h1, compute_prespawn_hash(100, &b, 1));
}

#[test]
fn shoot_fires_on_rising_edge_only() {
    let shooter = BodyState {
        pos: Vec2i { x: 5000, y: -7000 },
        vel: Vec2i { x: 1, y: 2 },
        rot: 3,
        ang: 4,
    };
    let id = PlayerId(9);

    // Held from the previous tick: no new bullet.
    assert!(shoot(&shoot_held(), &shoot_held(), &shooter, id, 33).is_none());
    // Not held at all: nothing.
    assert!(shoot(&released_input(), &released_input(), &shooter, id, 33).is_none());

    // Rising edge: a bullet at the shooter's position, moving right, with
    // the salted content hash of its spawn data.
    let b: BulletSpawn = shoot(&released_input(), &shoot_held(), &shooter, id, 33).unwrap();
    assert_eq!(b.state.pos, Vec2i { x: 5000, y: -7000 });
    assert_eq!(b.state.vel, Vec2i { x: 20_000, y: 0 });
    assert_eq!(b.salt, 9);
    assert_eq!(b.hash, compute_prespawn_hash(33, &b.state, 9));
}

#[test]
fn client_and_server_bullets_agree_on_the_hash() {
    // The pre-spawn protocol works because both peers compute the same
    // fingerprint from the same spawn data.
    let shooter = BodyState {
        pos: Vec2i { x: 0, y: 0 },
        vel: Vec2i { x: 0, y: 0 },
        rot: 0,
        ang: 0,
    };
    let id = PlayerId(4);
    let client = shoot(&released_input(), &shoot_held(), &shooter, id, 64).unwrap();
    let server = shoot(&released_input(), &shoot_held(), &shooter, id, 64).unwrap();
    assert_eq!(client.hash, server.hash);

    let mut matcher = PreSpawnMatcher::new();
    assert!(matcher.register(client.hash, 777, 64));
    assert_eq!(matcher.match_server(server.hash), MergeOutcome::Merged(777));
}
