//! Fixed-point integer arithmetic helpers.
//!
//! Exec division on signed machine integers truncates toward zero, while
//! spec-level `/` on `int` is Euclidean; `tdiv` is the spec-level mirror of
//! the truncating division the executable code performs, and every exec
//! helper here is proved to compute it exactly.

use vstd::arithmetic::div_mod::{
    lemma_div_is_ordered, lemma_div_multiples_vanish, lemma_div_pos_is_pos,
    lemma_fundamental_div_mod,
};
use vstd::arithmetic::mul::lemma_mul_inequality;
use vstd::prelude::*;

verus! {

/// Magnitude (absolute value) of a mathematical integer.
pub open spec fn mag(a: int) -> int {
    if a >= 0 {
        a
    } else {
        -a
    }
}

/// Truncating (round-toward-zero) division by a positive divisor, exactly as
/// Rust's `/` behaves on machine integers.
pub open spec fn tdiv(a: int, b: int) -> int
    recommends
        b > 0,
{
    if a >= 0 {
        a / b
    } else {
        -((-a) / b)
    }
}

/// Truncating division shrinks the magnitude: `|a / b| <= |a|` for `b >= 1`.
pub proof fn lemma_tdiv_shrinks(a: int, b: int)
    requires
        b >= 1,
    ensures
        mag(tdiv(a, b)) <= mag(a),
        b * mag(tdiv(a, b)) <= mag(a),
{
    let m = mag(a);
    lemma_div_pos_is_pos(m, b);
    lemma_fundamental_div_mod(m, b);
    lemma_mul_inequality(1, b, m / b);
    assert(mag(tdiv(a, b)) == m / b);
}

/// If `|a| <= b * c` then `|a / b| <= c` (truncating division, `b >= 1`).
pub proof fn lemma_tdiv_mag_le(a: int, b: int, c: int)
    requires
        b >= 1,
        c >= 0,
        mag(a) <= b * c,
    ensures
        mag(tdiv(a, b)) <= c,
{
    let m = mag(a);
    lemma_div_pos_is_pos(m, b);
    lemma_div_is_ordered(m, b * c, b);
    lemma_div_multiples_vanish(c, b);
    assert(mag(tdiv(a, b)) == m / b);
}

/// Truncating division of `a` by a positive divisor `b`.
pub fn div_trunc(a: i64, b: i64) -> (r: i64)
    requires
        1 <= b,
        a > i64::MIN,
    ensures
        r == tdiv(a as int, b as int),
        mag(r as int) <= mag(a as int),
{
    proof {
        lemma_tdiv_shrinks(a as int, b as int);
    }
    if a >= 0 {
        ((a as u64) / (b as u64)) as i64
    } else {
        let neg: u64 = (-a) as u64;
        -((neg / (b as u64)) as i64)
    }
}

/// Product of a pair whose magnitudes are small enough that the product fits
/// in an `i64` (`|a| <= 2^52`, `|b| <= 2^10`).
pub fn mul_small(a: i64, b: i64) -> (r: i64)
    requires
        mag(a as int) <= 0x10_0000_0000_0000,
        mag(b as int) <= 0x400,
    ensures
        r == a * b,
        mag(r as int) <= mag(a as int) * mag(b as int),
{
    proof {
        assert(mag((a * b) as int) == mag(a as int) * mag(b as int)) by (nonlinear_arith);
        lemma_mul_inequality(mag(a as int), 0x10_0000_0000_0000, mag(b as int));
        lemma_mul_inequality(mag(b as int), 0x400, 0x10_0000_0000_0000);
        assert(mag(a as int) * mag(b as int) <= 0x10_0000_0000_0000 * 0x400) by (nonlinear_arith)
            requires
                mag(a as int) <= 0x10_0000_0000_0000,
                mag(b as int) <= 0x400,
                mag(a as int) >= 0,
                mag(b as int) >= 0,
        ;
    }
    a * b
}

} // verus!
