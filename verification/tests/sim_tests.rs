use predict_core::body::BodyState;
use predict_core::collision::{ContactPoint, Manifold, kinematic_controller_collisions, orient_normal};
use predict_core::config::{MovementMode, SimConfig};
use predict_core::input::InputSnapshot;
use predict_core::movement::move_player;
use predict_core::sim::step;
use predict_core::vec2::Vec2i;

fn released() -> InputSnapshot {
    InputSnapshot { up: false, down: false, left: false, right: false, shoot: false }
}

fn up_only() -> InputSnapshot {
    InputSnapshot { up: true, down: false, left: false, right: false, shoot: false }
}

#[test]
fn movement_single_axis_full_speed() {
    let cfg = SimConfig::standard();
    let mut v = Vec2i::zero();
    move_player(&mut v, &up_only(), cfg.speed);
    assert_eq!(v, Vec2i { x: 0, y: 150_000 });

    let down = InputSnapshot { up: false, down: true, left: false, right: false, shoot: false };
    move_player(&mut v, &down, cfg.speed);
    assert_eq!(v, Vec2i { x: 0, y: -150_000 });

    let left = InputSnapshot { up: false, down: false, left: true, right: false, shoot: false };
    move_player(&mut v, &left, cfg.speed);
    assert_eq!(v, Vec2i { x: -150_000, y: 0 });
}

#[test]
fn movement_diagonal_is_normalized() {
    // 150_000 * 707 / 1000: the fixed-point value of 150 / sqrt(2) units/s.
    let cfg = SimConfig::standard();
    let mut v = Vec2i::zero();
    let diag = InputSnapshot { up: true, down: false, left: false, right: true, shoot: false };
    move_player(&mut v, &diag, cfg.speed);
    assert_eq!(v, Vec2i { x: 106_050, y: 106_050 });
}

#[test]
fn movement_zero_direction_stays_zero() {
    let cfg = SimConfig::standard();
    let mut v = Vec2i { x: 7, y: -9 };
    move_player(&mut v, &released(), cfg.speed);
    assert_eq!(v, Vec2i { x: 0, y: 0 });

    // Opposite held actions cancel to the zero vector.
    let cancel = InputSnapshot { up: true, down: true, left: true, right: true, shoot: false };
    move_player(&mut v, &cancel, cfg.speed);
    assert_eq!(v, Vec2i { x: 0, y: 0 });
}

#[test]
fn step_integrates_one_tick() {
    let cfg = SimConfig::standard();
    let state = BodyState::at_rest();
    let manifolds: Vec<Manifold> = Vec::new();
    let next = step(&state, &up_only(), &manifolds, &cfg);
    // 150_000 / 64 truncates to 2343.
    assert_eq!(next.pos, Vec2i { x: 0, y: 2343 });
    assert_eq!(next.vel, Vec2i { x: 0, y: 150_000 });
}

#[test]
fn step_position_mode_moves_without_writing_velocity() {
    let mut cfg = SimConfig::standard();
    cfg.mode = MovementMode::Position;
    let state = BodyState::at_rest();
    let manifolds: Vec<Manifold> = Vec::new();
    let next = step(&state, &up_only(), &manifolds, &cfg);
    assert_eq!(next.pos, Vec2i { x: 0, y: 2343 });
    assert_eq!(next.vel, Vec2i { x: 0, y: 0 });
}

#[test]
fn step_is_deterministic() {
    // Running the movement step and collision resolver twice from the same
    // state with the same inputs yields identical states.
    let cfg = SimConfig::standard();
    let state = BodyState { pos: Vec2i { x: 123, y: -456 }, vel: Vec2i { x: 9, y: 8 }, rot: 77, ang: -3 };
    let diag = InputSnapshot { up: true, down: false, left: true, right: false, shoot: false };
    let manifolds1 = vec![Manifold {
        normal: Vec2i { x: 0, y: 1000 },
        points: vec![ContactPoint { penetration: 1500 }, ContactPoint { penetration: -200 }],
        other_is_dynamic: false,
    }];
    let manifolds2 = vec![Manifold {
        normal: Vec2i { x: 0, y: 1000 },
        points: vec![ContactPoint { penetration: 1500 }, ContactPoint { penetration: -200 }],
        other_is_dynamic: false,
    }];
    let a = step(&state, &diag, &manifolds1, &cfg);
    let b = step(&state, &diag, &manifolds2, &cfg);
    assert_eq!(a, b);

    // And replaying a longer span twice agrees too.
    let mut s1 = state;
    let mut s2 = state;
    for _ in 0..10 {
        s1 = step(&s1, &diag, &manifolds1, &cfg);
        s2 = step(&s2, &diag, &manifolds2, &cfg);
    }
    assert_eq!(s1, s2);
}

#[test]
fn push_out_translates_by_depth_along_normal() {
    // A kinematic body at rest penetrating a static rectangle by 5 units
    // along +y: one resolver pass translates it by exactly that depth and
    // leaves the velocity untouched.
    let mut body = BodyState::at_rest();
    let manifolds = vec![Manifold {
        normal: Vec2i { x: 0, y: 1000 },
        points: vec![ContactPoint { penetration: 5000 }],
        other_is_dynamic: false,
    }];
    kinematic_controller_collisions(&mut body, &manifolds);
    assert_eq!(body.pos, Vec2i { x: 0, y: 5000 });
    assert_eq!(body.vel, Vec2i { x: 0, y: 0 });
}

#[test]
fn push_out_uses_deepest_point_once_per_manifold() {
    // A manifold carrying several penetrating points translates the body
    // once, by the maximum depth — never by the sum of the depths.
    let mut body = BodyState::at_rest();
    let manifolds = vec![Manifold {
        normal: Vec2i { x: 1000, y: 0 },
        points: vec![ContactPoint { penetration: 100 }, ContactPoint { penetration: 100 }],
        other_is_dynamic: false,
    }];
    kinematic_controller_collisions(&mut body, &manifolds);
    assert_eq!(body.pos, Vec2i { x: 100, y: 0 });

    let mut body2 = BodyState::at_rest();
    let manifolds2 = vec![Manifold {
        normal: Vec2i { x: 1000, y: 0 },
        points: vec![ContactPoint { penetration: 3000 }, ContactPoint { penetration: 5000 }],
        other_is_dynamic: false,
    }];
    kinematic_controller_collisions(&mut body2, &manifolds2);
    assert_eq!(body2.pos, Vec2i { x: 5000, y: 0 });
}

#[test]
fn normal_orientation_flips_when_character_is_first() {
    // The narrow phase reports the pair's normal from the first collider
    // toward the second; when the character is the first body the push
    // direction is the flipped normal.
    let n = Vec2i { x: 0, y: 1000 };
    assert_eq!(orient_normal(true, n), Vec2i { x: 0, y: -1000 });
    assert_eq!(orient_normal(false, n), n);
}

#[test]
fn velocity_correction_rejects_approaching_velocity() {
    // Moving into the surface: normal speed is -100 units/s, deepest
    // penetration 2 units; the speculative impulse is
    // -100_000 - 2000 * 64 = -228_000, so the corrected velocity is
    // -100_000 + 228_000 = 128_000 milli per second along the normal.
    let mut body = BodyState {
        pos: Vec2i { x: 0, y: 0 },
        vel: Vec2i { x: 0, y: -100_000 },
        rot: 0,
        ang: 0,
    };
    let manifolds = vec![Manifold {
        normal: Vec2i { x: 0, y: 1000 },
        points: vec![ContactPoint { penetration: 2000 }],
        other_is_dynamic: false,
    }];
    kinematic_controller_collisions(&mut body, &manifolds);
    assert_eq!(body.pos, Vec2i { x: 0, y: 2000 });
    assert_eq!(body.vel, Vec2i { x: 0, y: 128_000 });
}

#[test]
fn velocity_correction_speculative_contact() {
    // Not yet penetrating (negative depth): no push-out, but the part of
    // the velocity that would penetrate within one tick is pushed back:
    // impulse = -100_000 - (-1000 * 64) = -36_000.
    let mut body = BodyState {
        pos: Vec2i { x: 0, y: 0 },
        vel: Vec2i { x: 0, y: -100_000 },
        rot: 0,
        ang: 0,
    };
    let manifolds = vec![Manifold {
        normal: Vec2i { x: 0, y: 1000 },
        points: vec![ContactPoint { penetration: -1000 }],
        other_is_dynamic: false,
    }];
    kinematic_controller_collisions(&mut body, &manifolds);
    assert_eq!(body.pos, Vec2i { x: 0, y: 0 });
    assert_eq!(body.vel, Vec2i { x: 0, y: -64_000 });
}

#[test]
fn separating_body_gets_no_impulse() {
    let mut body = BodyState {
        pos: Vec2i { x: 0, y: 0 },
        vel: Vec2i { x: 0, y: 50_000 },
        rot: 0,
        ang: 0,
    };
    let manifolds = vec![Manifold {
        normal: Vec2i { x: 0, y: 1000 },
        points: vec![ContactPoint { penetration: -500 }],
        other_is_dynamic: false,
    }];
    kinematic_controller_collisions(&mut body, &manifolds);
    assert_eq!(body.vel, Vec2i { x: 0, y: 50_000 });
}

#[test]
fn dynamic_other_body_skips_velocity_correction() {
    // Against a dynamic body only the push-out runs; the velocity response
    // is the dynamic solver's business.
    let mut body = BodyState {
        pos: Vec2i { x: 0, y: 0 },
        vel: Vec2i { x: 0, y: -100_000 },
        rot: 0,
        ang: 0,
    };
    let manifolds = vec![Manifold {
        normal: Vec2i { x: 0, y: 1000 },
        points: vec![ContactPoint { penetration: 2000 }],
        other_is_dynamic: true,
    }];
    kinematic_controller_collisions(&mut body, &manifolds);
    assert_eq!(body.pos, Vec2i { x: 0, y: 2000 });
    assert_eq!(body.vel, Vec2i { x: 0, y: -100_000 });
}
