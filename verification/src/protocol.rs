//! The replication protocol's data model: which entities exist, what
//! physics they carry, and how each replicated component is predicted and
//! interpolated.
//!
//! The entity store and the replication channel are external; this module
//! fixes the data they are wired up with, so client and server agree on it.

use crate::vec2::Vec2i;
use vstd::prelude::*;

verus! {

/// Marker for a player-controlled entity.
#[derive(Clone, Copy, PartialEq, Eq, Structural, Debug)]
pub struct Player;

/// Marker for the shared ball entity.
#[derive(Clone, Copy, PartialEq, Eq, Structural, Debug)]
pub struct Ball;

/// Marker for a fired bullet entity.
#[derive(Clone, Copy, PartialEq, Eq, Structural, Debug)]
pub struct Bullet;

/// How a physics body participates in simulation.
#[derive(Clone, Copy, PartialEq, Eq, Structural, Debug)]
pub enum BodyKind {
    /// Moved by the movement step and the kinematic resolver, never by
    /// dynamics.
    Kinematic,
    /// Simulated by the dynamic solver.
    Dynamic,
    /// Immovable level geometry.
    Static,
}

/// A collider's shape, in milliunits.
#[derive(Clone, Copy, PartialEq, Eq, Structural, Debug)]
pub enum ColliderShape {
    Circle { radius: i64 },
    Rectangle { half_x: i64, half_y: i64 },
}

/// The physics components an entity is spawned with. Constant per entity
/// kind, so it is attached locally instead of being replicated.
#[derive(Clone, Copy, PartialEq, Eq, Structural, Debug)]
pub struct PhysicsBundle {
    pub body: BodyKind,
    pub shape: ColliderShape,
    /// Collider density in thousandths; zero means the default density.
    pub density_milli: i64,
}

impl Player {
    /// A player is a kinematic circle of radius 32 units.
    pub fn get_physics_bundle() -> (r: PhysicsBundle)
        ensures
            r == (PhysicsBundle {
                body: BodyKind::Kinematic,
                shape: ColliderShape::Circle { radius: 32_000 },
                density_milli: 0,
            }),
    {
        PhysicsBundle {
            body: BodyKind::Kinematic,
            shape: ColliderShape::Circle { radius: 32_000 },
            density_milli: 0,
        }
    }
}

impl Ball {
    /// The ball is a dense dynamic 40 by 40 unit box.
    pub fn get_physics_bundle() -> (r: PhysicsBundle)
        ensures
            r == (PhysicsBundle {
                body: BodyKind::Dynamic,
                shape: ColliderShape::Rectangle { half_x: 20_000, half_y: 20_000 },
                density_milli: 10_000,
            }),
    {
        PhysicsBundle {
            body: BodyKind::Dynamic,
            shape: ColliderShape::Rectangle { half_x: 20_000, half_y: 20_000 },
            density_milli: 10_000,
        }
    }
}

impl Bullet {
    /// A bullet is a kinematic circle of radius 5 units (a 50-unit sprite
    /// collider at a tenth scale).
    pub fn get_physics_bundle() -> (r: PhysicsBundle)
        ensures
            r == (PhysicsBundle {
                body: BodyKind::Kinematic,
                shape: ColliderShape::Circle { radius: 5_000 },
                density_milli: 0,
            }),
    {
        PhysicsBundle {
            body: BodyKind::Kinematic,
            shape: ColliderShape::Circle { radius: 5_000 },
            density_milli: 0,
        }
    }
}

/// The replicated components this protocol registers.
#[derive(Clone, Copy, PartialEq, Eq, Structural, Debug)]
pub enum ComponentKind {
    PlayerMarker,
    PlayerIdent,
    EntityName,
    Body,
    BulletMarker,
    BallMarker,
    Position,
    Rotation,
    LinearVelocity,
    AngularVelocity,
    ExternalForce,
    ExternalImpulse,
    ComputedMass,
}

/// How a component takes part in prediction on the owning client.
#[derive(Clone, Copy, PartialEq, Eq, Structural, Debug)]
pub enum PredictionMode {
    /// Predicted every tick and compared against confirmed state.
    Full,
    /// Replicated once at spawn, never re-predicted (identity, metadata).
    Once,
    /// Not predicted.
    Off,
}

/// How a component takes part in display interpolation on remote clients.
#[derive(Clone, Copy, PartialEq, Eq, Structural, Debug)]
pub enum InterpolationMode {
    /// Numerically blended between confirmed snapshots.
    Full,
    /// Set once at spawn, never blended.
    Once,
    /// Not interpolated.
    Off,
}

/// The prediction mode of every replicated component: simulation state is
/// fully predicted; identity and marker components are set once.
pub open spec fn spec_prediction_mode(c: ComponentKind) -> PredictionMode {
    match c {
        ComponentKind::PlayerMarker => PredictionMode::Once,
        ComponentKind::PlayerIdent => PredictionMode::Once,
        ComponentKind::EntityName => PredictionMode::Once,
        ComponentKind::Body => PredictionMode::Once,
        ComponentKind::BulletMarker => PredictionMode::Once,
        ComponentKind::BallMarker => PredictionMode::Once,
        ComponentKind::Position => PredictionMode::Full,
        ComponentKind::Rotation => PredictionMode::Full,
        ComponentKind::LinearVelocity => PredictionMode::Full,
        ComponentKind::AngularVelocity => PredictionMode::Full,
        ComponentKind::ExternalForce => PredictionMode::Full,
        ComponentKind::ExternalImpulse => PredictionMode::Full,
        ComponentKind::ComputedMass => PredictionMode::Full,
    }
}

/// The interpolation mode of every replicated component: only what is
/// visually displayed (position, rotation) is blended; physics-internal
/// state is predicted but never interpolated.
pub open spec fn spec_interpolation_mode(c: ComponentKind) -> InterpolationMode {
    match c {
        ComponentKind::PlayerMarker => InterpolationMode::Once,
        ComponentKind::PlayerIdent => InterpolationMode::Once,
        ComponentKind::EntityName => InterpolationMode::Once,
        ComponentKind::Body => InterpolationMode::Off,
        ComponentKind::BulletMarker => InterpolationMode::Once,
        ComponentKind::BallMarker => InterpolationMode::Once,
        ComponentKind::Position => InterpolationMode::Full,
        ComponentKind::Rotation => InterpolationMode::Full,
        ComponentKind::LinearVelocity => InterpolationMode::Off,
        ComponentKind::AngularVelocity => InterpolationMode::Off,
        ComponentKind::ExternalForce => InterpolationMode::Off,
        ComponentKind::ExternalImpulse => InterpolationMode::Off,
        ComponentKind::ComputedMass => InterpolationMode::Off,
    }
}

/// The registration table the host's component registry is filled from.
pub fn sync_profile(c: ComponentKind) -> (r: (PredictionMode, InterpolationMode))
    ensures
        r.0 == spec_prediction_mode(c),
        r.1 == spec_interpolation_mode(c),
{
    match c {
        ComponentKind::PlayerMarker => (PredictionMode::Once, InterpolationMode::Once),
        ComponentKind::PlayerIdent => (PredictionMode::Once, InterpolationMode::Once),
        ComponentKind::EntityName => (PredictionMode::Once, InterpolationMode::Once),
        ComponentKind::Body => (PredictionMode::Once, InterpolationMode::Off),
        ComponentKind::BulletMarker => (PredictionMode::Once, InterpolationMode::Once),
        ComponentKind::BallMarker => (PredictionMode::Once, InterpolationMode::Once),
        ComponentKind::Position => (PredictionMode::Full, InterpolationMode::Full),
        ComponentKind::Rotation => (PredictionMode::Full, InterpolationMode::Full),
        ComponentKind::LinearVelocity => (PredictionMode::Full, InterpolationMode::Off),
        ComponentKind::AngularVelocity => (PredictionMode::Full, InterpolationMode::Off),
        ComponentKind::ExternalForce => (PredictionMode::Full, InterpolationMode::Off),
        ComponentKind::ExternalImpulse => (PredictionMode::Full, InterpolationMode::Off),
        ComponentKind::ComputedMass => (PredictionMode::Full, InterpolationMode::Off),
    }
}

/// One wall of the level: immovable rectangular geometry.
#[derive(Clone, Copy, PartialEq, Eq, Structural, Debug)]
pub struct Wall {
    pub center: Vec2i,
    pub half_x: i64,
    pub half_y: i64,
}

/// The arena: two side walls of 20 by 450 units at x = -250 and x = 250,
/// floor and ceiling of 600 by 20 units at y = -200 and y = 200, and a
/// free-standing 40 by 40 block at (0, 100).
pub fn prepare_level() -> (walls: Vec<Wall>)
    ensures
        walls@.len() == 5,
        walls@[0] == (Wall { center: (Vec2i { x: -250_000i64, y: 0 }), half_x: 10_000, half_y: 225_000 }),
        walls@[1] == (Wall { center: (Vec2i { x: 250_000, y: 0 }), half_x: 10_000, half_y: 225_000 }),
        walls@[2] == (Wall { center: (Vec2i { x: 0, y: 200_000 }), half_x: 300_000, half_y: 10_000 }),
        walls@[3] == (Wall { center: (Vec2i { x: 0, y: -200_000i64 }), half_x: 300_000, half_y: 10_000 }),
        walls@[4] == (Wall { center: (Vec2i { x: 0, y: 100_000 }), half_x: 20_000, half_y: 20_000 }),
{
    let mut walls: Vec<Wall> = Vec::new();
    walls.push(Wall { center: Vec2i { x: -250_000, y: 0 }, half_x: 10_000, half_y: 225_000 });
    walls.push(Wall { center: Vec2i { x: 250_000, y: 0 }, half_x: 10_000, half_y: 225_000 });
    walls.push(Wall { center: Vec2i { x: 0, y: 200_000 }, half_x: 300_000, half_y: 10_000 });
    walls.push(Wall { center: Vec2i { x: 0, y: -200_000 }, half_x: 300_000, half_y: 10_000 });
    walls.push(Wall { center: Vec2i { x: 0, y: 100_000 }, half_x: 20_000, half_y: 20_000 });
    walls
}

} // verus!
