//! Render stage: soft clipping of the mixed raw signal.
//!
//! The raw voice sum is pushed through the saturating map `x / (1 + |x|)`
//! (in Q16.16 fixed point), which is strictly inside `(-1, 1)` for every
//! finite input, odd, monotonic, and close to the identity near zero.

use vstd::prelude::*;

verus! {

use vstd::arithmetic::div_mod::*;
use crate::fixed::tdiv;

/// Saturated magnitude: `m / (1 + m)` in fixed point, for `m >= 0`.
pub open spec fn sat_mag(m: int) -> int {
    (m * 65536) / (65536 + m)
}

/// The soft-clip curve applied to the raw mixed signal.
pub open spec fn soft_clip_spec(x: int) -> int {
    if x >= 0 {
        sat_mag(x)
    } else {
        -sat_mag(-x)
    }
}

/// The saturated magnitude stays inside `[0, 1)`.
pub proof fn lemma_sat_mag_range(m: int)
    requires
        m >= 0,
    ensures
        0 <= sat_mag(m) < 65536,
        m == 0 ==> sat_mag(m) == 0,
{
    assert(0 <= m * 65536) by (nonlinear_arith)
        requires
            m >= 0,
    ;
    lemma_div_pos_is_pos(m * 65536, 65536 + m);
    assert(m * 65536 < (65536 + m) * 65536) by (nonlinear_arith)
        requires
            m >= 0,
    ;
    lemma_multiply_divide_lt(m * 65536, 65536 + m, 65536);
    if m == 0 {
        lemma_div_of0(65536);
    }
}

/// Comparing two nonnegative quotients by cross multiplication.
proof fn lemma_div_cross(p: int, q: int, r: int, s: int)
    requires
        p >= 0,
        r >= 0,
        q > 0,
        s > 0,
        p * s <= r * q,
    ensures
        p / q <= r / s,
{
    let f = p / q;
    lemma_fundamental_div_mod(p, q);
    lemma_mod_division_less_than_divisor(p, q);
    assert(f * q <= p);
    lemma_div_pos_is_pos(p, q);
    assert(f * q * s <= p * s) by (nonlinear_arith)
        requires
            f * q <= p,
            s > 0,
    ;
    assert(f * s * q <= r * q) by (nonlinear_arith)
        requires
            f * q * s <= p * s,
            p * s <= r * q,
    ;
    assert(f * s <= r) by (nonlinear_arith)
        requires
            f * s * q <= r * q,
            q > 0,
    ;
    lemma_div_multiples_vanish(f, s);
    lemma_div_is_ordered(f * s, r, s);
}

/// The saturated magnitude is monotone in the raw magnitude.
pub proof fn lemma_sat_mag_monotone(m1: int, m2: int)
    requires
        0 <= m1 <= m2,
    ensures
        sat_mag(m1) <= sat_mag(m2),
{
    assert(m1 * 65536 >= 0) by (nonlinear_arith)
        requires
            m1 >= 0,
    ;
    assert(m2 * 65536 >= 0) by (nonlinear_arith)
        requires
            m2 >= 0,
    ;
    assert((m1 * 65536) * (65536 + m2) <= (m2 * 65536) * (65536 + m1)) by (nonlinear_arith)
        requires
            0 <= m1 <= m2,
    ;
    lemma_div_cross(m1 * 65536, 65536 + m1, m2 * 65536, 65536 + m2);
}

/// Saturation property: for any finite raw input the clipped value lies
/// strictly inside `(-1, 1)`, and the curve is odd and fixes zero.
pub proof fn lemma_soft_clip_bounded(x: int)
    ensures
        -65536 < soft_clip_spec(x) < 65536,
        soft_clip_spec(0) == 0,
        soft_clip_spec(-x) == -soft_clip_spec(x),
{
    if x >= 0 {
        lemma_sat_mag_range(x);
    } else {
        lemma_sat_mag_range(-x);
    }
    lemma_sat_mag_range(0);
}

/// Monotonicity: a larger raw input never clips to a smaller output.
pub proof fn lemma_soft_clip_monotone(x1: int, x2: int)
    requires
        x1 <= x2,
    ensures
        soft_clip_spec(x1) <= soft_clip_spec(x2),
{
    if 0 <= x1 {
        lemma_sat_mag_monotone(x1, x2);
    } else if x2 < 0 {
        lemma_sat_mag_monotone(-x2, -x1);
    } else {
        lemma_sat_mag_range(-x1);
        lemma_sat_mag_range(x2);
    }
}

/// Soft-clip the raw mixed signal into `(-1, 1)` (fixed point).
pub fn soft_clip(x: i64) -> (r: i64)
    requires
        -1099511627776 <= x <= 1099511627776,
    ensures
        r == soft_clip_spec(x as int),
        -65536 < r < 65536,
{
    proof {
        lemma_soft_clip_bounded(x as int);
    }
    if x >= 0 {
        let num: u64 = (x as u64) * 65536;
        let den: u64 = 65536 + (x as u64);
        let q: u64 = num / den;
        proof {
            lemma_sat_mag_range(x as int);
        }
        q as i64
    } else {
        let m: i64 = -x;
        let num: u64 = (m as u64) * 65536;
        let den: u64 = 65536 + (m as u64);
        let q: u64 = num / den;
        proof {
            lemma_sat_mag_range(m as int);
        }
        -(q as i64)
    }
}

} // verus!
