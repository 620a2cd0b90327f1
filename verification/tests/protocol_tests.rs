use predict_core::protocol::{
    Ball, BodyKind, Bullet, ColliderShape, ComponentKind, InterpolationMode, Player,
    PredictionMode, prepare_level, sync_profile,
};

#[test]
fn player_physics_bundle() {
    let b = Player::get_physics_bundle();
    assert_eq!(b.body, BodyKind::Kinematic);
    assert_eq!(b.shape, ColliderShape::Circle { radius: 32_000 });
    assert_eq!(b.density_milli, 0);
}

#[test]
fn ball_physics_bundle() {
    let b = Ball::get_physics_bundle();
    assert_eq!(b.body, BodyKind::Dynamic);
    assert_eq!(b.shape, ColliderShape::Rectangle { half_x: 20_000, half_y: 20_000 });
    assert_eq!(b.density_milli, 10_000);
}

#[test]
fn bullet_physics_bundle() {
    let b = Bullet::get_physics_bundle();
    assert_eq!(b.body, BodyKind::Kinematic);
    assert_eq!(b.shape, ColliderShape::Circle { radius: 5_000 });
}

#[test]
fn simulation_state_is_fully_predicted() {
    for c in [
        ComponentKind::Position,
        ComponentKind::Rotation,
        ComponentKind::LinearVelocity,
        ComponentKind::AngularVelocity,
        ComponentKind::ExternalForce,
        ComponentKind::ExternalImpulse,
        ComponentKind::ComputedMass,
    ] {
        assert_eq!(sync_profile(c).0, PredictionMode::Full);
    }
    // Only the displayed components are interpolated.
    assert_eq!(sync_profile(ComponentKind::Position).1, InterpolationMode::Full);
    assert_eq!(sync_profile(ComponentKind::Rotation).1, InterpolationMode::Full);
    assert_eq!(sync_profile(ComponentKind::LinearVelocity).1, InterpolationMode::Off);
}

#[test]
fn identity_components_replicate_once() {
    for c in [
        ComponentKind::PlayerMarker,
        ComponentKind::PlayerIdent,
        ComponentKind::EntityName,
        ComponentKind::Body,
        ComponentKind::BulletMarker,
        ComponentKind::BallMarker,
    ] {
        assert_eq!(sync_profile(c).0, PredictionMode::Once);
    }
}

#[test]
fn level_has_four_boundary_walls_and_a_block() {
    let walls = prepare_level();
    assert_eq!(walls.len(), 5);
    assert_eq!(walls[0].center.x, -250_000);
    assert_eq!(walls[1].center.x, 250_000);
    assert_eq!(walls[2].center.y, 200_000);
    assert_eq!(walls[3].center.y, -200_000);
    assert_eq!((walls[4].half_x, walls[4].half_y), (20_000, 20_000));
    // Side walls are 20 by 450 units, floor and ceiling 600 by 20.
    assert_eq!((walls[0].half_x, walls[0].half_y), (10_000, 225_000));
    assert_eq!((walls[2].half_x, walls[2].half_y), (300_000, 10_000));
}
