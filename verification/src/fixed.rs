//! Q16.16 signed fixed-point arithmetic: the signal domain of the engine.
//!
//! A sample or control scalar is an `i64` holding `value * 65536`. Division
//! and multiplication truncate toward zero, matching Rust's own integer
//! semantics; the spec-side model is `tdiv`, truncating division.

use vstd::prelude::*;

verus! {

use vstd::arithmetic::div_mod::*;

/// The fixed-point representation of 1.0.
pub const FRAC_ONE: i64 = 65536;

/// Truncating division (round toward zero), defined for positive divisors.
pub open spec fn tdiv(a: int, b: int) -> int {
    if a >= 0 {
        a / b
    } else {
        -((-a) / b)
    }
}

/// Fixed-point product: `a * b / 65536`, truncated toward zero.
pub open spec fn q16_mul(a: int, b: int) -> int {
    tdiv(a * b, 65536)
}

/// Truncating division for nonnegative operands is plain Euclidean division.
pub proof fn lemma_tdiv_nonneg(a: int, b: int)
    requires
        a >= 0,
        b > 0,
    ensures
        tdiv(a, b) == a / b,
        0 <= tdiv(a, b) <= a,
{
    lemma_div_pos_is_pos(a, b);
    lemma_div_nonincreasing(a, b);
}

/// The magnitude of a truncated quotient never exceeds the magnitude of the
/// dividend.
pub proof fn lemma_tdiv_bound(a: int, b: int)
    requires
        b > 0,
    ensures
        a >= 0 ==> 0 <= tdiv(a, b) <= a,
        a < 0 ==> a <= tdiv(a, b) <= 0,
{
    if a >= 0 {
        lemma_tdiv_nonneg(a, b);
    } else {
        lemma_tdiv_nonneg(-a, b);
    }
}

/// Scaling by a factor in `[0, 1]` (fixed point) cannot grow a magnitude.
pub proof fn lemma_q16_mul_bound(a: int, b: int, cap: int)
    requires
        -cap <= a <= cap,
        0 <= b <= 65536,
        0 <= cap,
    ensures
        -cap <= q16_mul(a, b) <= cap,
{
    if a >= 0 {
        lemma_mul_inequality_helper(a, b, cap);
        lemma_tdiv_nonneg(a * b, 65536);
        lemma_div_is_ordered(a * b, cap * 65536, 65536);
        lemma_div_by_multiple(cap, 65536);
    } else {
        lemma_mul_inequality_helper(-a, b, cap);
        lemma_tdiv_nonneg((-a) * b, 65536);
        lemma_div_is_ordered((-a) * b, cap * 65536, 65536);
        lemma_div_by_multiple(cap, 65536);
        assert(a * b == -((-a) * b)) by (nonlinear_arith);
    }
}

/// `x <= cap` and `0 <= y <= m` give `x * y <= cap * m`.
proof fn lemma_mul_inequality_helper(x: int, y: int, cap: int)
    requires
        0 <= x <= cap,
        0 <= y <= 65536,
    ensures
        0 <= x * y <= cap * 65536,
{
    assert(x * y <= cap * 65536) by (nonlinear_arith)
        requires
            0 <= x <= cap,
            0 <= y <= 65536,
    ;
    assert(0 <= x * y) by (nonlinear_arith)
        requires
            0 <= x,
            0 <= y,
    ;
}

/// Multiplying by fixed-point zero yields zero.
pub proof fn lemma_q16_mul_zero(a: int)
    ensures
        q16_mul(a, 0) == 0,
        q16_mul(0, a) == 0,
{
    assert(a * 0 == 0);
    assert(0 * a == 0);
    lemma_div_of0(65536);
}

/// Truncating division, computed through unsigned division so that the
/// machine operation matches `tdiv` exactly.
pub fn div_trunc(a: i64, b: i64) -> (r: i64)
    requires
        b > 0,
        a > i64::MIN,
    ensures
        r == tdiv(a as int, b as int),
{
    proof {
        lemma_tdiv_bound(a as int, b as int);
    }
    if a >= 0 {
        let q: u64 = (a as u64) / (b as u64);
        q as i64
    } else {
        let neg: i64 = -a;
        let q: u64 = (neg as u64) / (b as u64);
        -(q as i64)
    }
}

/// Fixed-point multiply: truncated `a * b / 65536`.
pub fn mul_q16(a: i64, b: i64) -> (r: i64)
    requires
        -2147483647 <= a <= 2147483647,
        -2147483647 <= b <= 2147483647,
    ensures
        r == q16_mul(a as int, b as int),
{
    proof {
        assert(-4611686018427387904 < a * b < 4611686018427387904) by (nonlinear_arith)
            requires
                -2147483647 <= a <= 2147483647,
                -2147483647 <= b <= 2147483647,
        ;
    }
    let p: i64 = a * b;
    div_trunc(p, 65536)
}

} // verus!
