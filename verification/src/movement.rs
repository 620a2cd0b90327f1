//! The movement step: from one input snapshot to a velocity (or a direct
//! translation), deterministically.
//!
//! A direction vector is accumulated from the held movement actions, each
//! axis contributing -1, 0 or 1; the vector is normalized in fixed point
//! (the zero vector stays zero) and scaled by the configured speed. Since a
//! direction component is never outside {-1, 0, 1}, normalization has a
//! closed form: a single-axis direction moves at full speed, a diagonal one
//! at `speed * 707 / 1000` per axis, the fixed-point value of
//! `speed / sqrt(2)`.

use crate::config::{MovementMode, SimConfig, config_ok};
use crate::input::InputSnapshot;
use crate::num::{div_trunc, mag, mul_small, tdiv};
use crate::vec2::{V2, Vec2i};
use crate::{MAX_SPEED, SCALE};
use vstd::arithmetic::mul::lemma_mul_inequality;
use vstd::prelude::*;

verus! {

/// Numerator of `1 / sqrt(2)` in thousandths.
pub const INV_SQRT2_MILLI: i64 = 707;

/// Horizontal direction accumulated from the held actions.
pub open spec fn dir_x(i: InputSnapshot) -> int {
    (if i.right {
        1int
    } else {
        0int
    }) - (if i.left {
        1int
    } else {
        0int
    })
}

/// Vertical direction accumulated from the held actions.
pub open spec fn dir_y(i: InputSnapshot) -> int {
    (if i.up {
        1int
    } else {
        0int
    }) - (if i.down {
        1int
    } else {
        0int
    })
}

/// One axis of the normalized, speed-scaled direction vector.
pub open spec fn scaled_axis(d: int, other: int, speed: int) -> int {
    if d == 0 {
        0int
    } else if other == 0 {
        d * speed
    } else {
        d * tdiv(speed * INV_SQRT2_MILLI, SCALE as int)
    }
}

/// The velocity the movement step derives from input `i` at speed `speed`.
pub open spec fn move_vel(i: InputSnapshot, speed: int) -> V2 {
    V2 {
        x: scaled_axis(dir_x(i), dir_y(i), speed),
        y: scaled_axis(dir_y(i), dir_x(i), speed),
    }
}

/// The derived velocity never exceeds the configured speed on either axis.
pub proof fn lemma_move_vel_bounded(i: InputSnapshot, speed: int)
    requires
        0 < speed <= MAX_SPEED as int,
    ensures
        move_vel(i, speed).in_box(speed),
{
    lemma_scaled_axis_bounded(dir_x(i), dir_y(i), speed);
    lemma_scaled_axis_bounded(dir_y(i), dir_x(i), speed);
}

proof fn lemma_scaled_axis_bounded(d: int, other: int, speed: int)
    requires
        -1 <= d <= 1,
        -1 <= other <= 1,
        0 < speed <= MAX_SPEED as int,
    ensures
        mag(scaled_axis(d, other, speed)) <= speed,
{
    lemma_mul_inequality(INV_SQRT2_MILLI as int, SCALE as int, speed);
    assert(speed * INV_SQRT2_MILLI == INV_SQRT2_MILLI * speed) by (nonlinear_arith);
    crate::num::lemma_tdiv_mag_le(speed * INV_SQRT2_MILLI, SCALE as int, speed);
    let q = tdiv(speed * INV_SQRT2_MILLI, SCALE as int);
    if d == 1 {
        assert(1int * speed == speed);
        assert(1int * q == q);
    } else if d == -1 {
        assert((-1int) * speed == -speed);
        assert((-1int) * q == -q);
    }
}

fn scaled_axis_exec(d: i64, other: i64, speed: i64) -> (r: i64)
    requires
        -1 <= d <= 1,
        -1 <= other <= 1,
        0 < speed <= MAX_SPEED,
    ensures
        r == scaled_axis(d as int, other as int, speed as int),
        mag(r as int) <= speed,
{
    proof {
        lemma_scaled_axis_bounded(d as int, other as int, speed as int);
    }
    if d == 0 {
        0
    } else {
        let base: i64 = if other == 0 {
            speed
        } else {
            div_trunc(mul_small(speed, INV_SQRT2_MILLI), SCALE)
        };
        if d == 1 {
            assert(1int * (base as int) == base as int);
            base
        } else {
            assert((-1int) * (base as int) == -(base as int));
            -base
        }
    }
}

/// The movement step on a velocity: accumulate the direction held in
/// `action_state`, normalize it (zero stays zero), scale it by `speed`, and
/// write it as the new velocity. Pure in its inputs, so a rollback replay
/// that feeds it the same snapshots reproduces the same velocities.
pub fn move_player(velocity: &mut Vec2i, action_state: &InputSnapshot, speed: i64)
    requires
        0 < speed <= MAX_SPEED,
    ensures
        final(velocity)@ == move_vel(*action_state, speed as int),
        final(velocity)@.in_box(speed as int),
{
    let dx: i64 = (if action_state.right {
        1i64
    } else {
        0i64
    }) - (if action_state.left {
        1i64
    } else {
        0i64
    });
    let dy: i64 = (if action_state.up {
        1i64
    } else {
        0i64
    }) - (if action_state.down {
        1i64
    } else {
        0i64
    });
    velocity.x = scaled_axis_exec(dx, dy, speed);
    velocity.y = scaled_axis_exec(dy, dx, speed);
    proof {
        lemma_move_vel_bounded(*action_state, speed as int);
    }
}

} // verus!
