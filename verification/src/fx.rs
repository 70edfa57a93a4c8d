//! Fixed-point scalar arithmetic.
//!
//! A scalar is an `i64` counting millionths of a world unit ([`crate::FX_ONE`]
//! raw steps make one unit). Multiplication and division of scalars rescale
//! their raw products and quotients by [`crate::FX_ONE`], truncating toward
//! zero, exactly as the specification functions in this module state. Square
//! roots truncate to the integer square root of the raw radicand.

use vstd::prelude::*;

verus! {

use vstd::arithmetic::div_mod::{
    lemma_div_is_ordered,
    lemma_div_pos_is_pos,
    lemma_div_nonincreasing,
    lemma_div_by_multiple,
    lemma_basic_div,
};
use vstd::arithmetic::mul::{lemma_mul_inequality, lemma_mul_strict_inequality};
use crate::{FX_ONE, FX_LIM};

/// A scalar within the working range of the simulation. Keeping positions,
/// velocities and shape parameters inside this (generous) range keeps every
/// raw product within 128 bits.
pub open spec fn fx_ok(x: int) -> bool {
    -FX_LIM <= x <= FX_LIM
}

/// Truncating (round-toward-zero) division, the rounding Rust's `/` uses.
/// Meaningful for positive divisors.
pub open spec fn tdiv(a: int, b: int) -> int {
    if a >= 0 {
        a / b
    } else {
        -((-a) / b)
    }
}

/// Product of two fixed-point scalars: the raw product carries the scale
/// squared, so it is divided back down by one scale, truncating toward zero.
pub open spec fn fx_mul(a: int, b: int) -> int {
    tdiv(a * b, FX_ONE as int)
}

/// Quotient of two fixed-point scalars: the raw dividend is scaled up first
/// so the quotient keeps the fixed-point scale. Meaningful for positive
/// divisors.
pub open spec fn fx_div(a: int, b: int) -> int {
    tdiv(a * FX_ONE, b)
}

/// `r` is the integer square root of `n`.
pub open spec fn is_isqrt(n: int, r: int) -> bool {
    &&& 0 <= r
    &&& r * r <= n
    &&& n < (r + 1) * (r + 1)
}

/// The integer square root of a nonnegative `n`: the largest `r` with
/// `r * r <= n`. [`lemma_isqrt`] shows it exists; [`lemma_isqrt_unique`]
/// shows it is unique.
pub closed spec fn isqrt(n: int) -> int {
    choose|r: int| is_isqrt(n, r)
}

/// Two integer square roots of the same radicand are the same root.
pub proof fn lemma_isqrt_unique(n: int, r1: int, r2: int)
    requires
        is_isqrt(n, r1),
        is_isqrt(n, r2),
    ensures
        r1 == r2,
{
    if r1 < r2 {
        lemma_mul_inequality(r1 + 1, r2, r1 + 1);
        lemma_mul_inequality(r1 + 1, r2, r2);
    }
    if r2 < r1 {
        lemma_mul_inequality(r2 + 1, r1, r2 + 1);
        lemma_mul_inequality(r2 + 1, r1, r1);
    }
}

/// [`isqrt`] satisfies the defining inequalities of the integer square root.
pub proof fn lemma_isqrt(n: int)
    requires
        n >= 0,
    ensures
        is_isqrt(n, isqrt(n)),
    decreases n,
{
    if n == 0 {
        assert(is_isqrt(0, 0)) by (nonlinear_arith);
    } else {
        lemma_isqrt(n - 1);
        let r = isqrt(n - 1);
        if n < (r + 1) * (r + 1) {
            assert(is_isqrt(n, r));
        } else {
            assert(n - 1 < (r + 1) * (r + 1) <= n);
            assert(n == (r + 1) * (r + 1));
            assert((r + 1) * (r + 1) < (r + 2) * (r + 2)) by (nonlinear_arith)
                requires r >= 0;
            assert(is_isqrt(n, r + 1));
        }
        assert(exists|q: int| is_isqrt(n, q));
    }
}

/// The integer square root is strictly below `m` exactly when the radicand
/// is strictly below `m * m`; at or above `m` exactly when the radicand is.
pub proof fn lemma_isqrt_vs(n: int, m: int)
    requires
        n >= 0,
        m >= 0,
    ensures
        (isqrt(n) < m) <==> (n < m * m),
        (isqrt(n) >= m) <==> (n >= m * m),
{
    lemma_isqrt(n);
    let r = isqrt(n);
    if r < m {
        lemma_mul_inequality(r + 1, m, r + 1);
        lemma_mul_inequality(r + 1, m, m);
        assert(n < m * m);
    }
    if m <= r {
        lemma_mul_inequality(m, r, m);
        lemma_mul_inequality(m, r, r);
        assert(m * m <= n);
    }
}

/// Truncating division flips sign with its dividend.
pub proof fn lemma_tdiv_neg(a: int, b: int)
    requires
        b > 0,
    ensures
        tdiv(-a, b) == -tdiv(a, b),
{
}

/// Truncating division by a positive divisor is monotone in the dividend.
pub proof fn lemma_tdiv_ordered(a1: int, a2: int, b: int)
    requires
        b > 0,
        a1 <= a2,
    ensures
        tdiv(a1, b) <= tdiv(a2, b),
{
    if a1 >= 0 {
        lemma_div_is_ordered(a1, a2, b);
    } else if a2 < 0 {
        lemma_div_is_ordered(-a2, -a1, b);
    } else {
        lemma_div_pos_is_pos(-a1, b);
        lemma_div_pos_is_pos(a2, b);
    }
}

/// Dividing an exact multiple is exact.
pub proof fn lemma_tdiv_exact(a: int, b: int)
    requires
        b > 0,
    ensures
        tdiv(a * b, b) == a,
{
    if a >= 0 {
        assert(a * b >= 0) by (nonlinear_arith)
            requires a >= 0 && b > 0;
        lemma_div_by_multiple(a, b);
    } else {
        assert(a * b < 0) by (nonlinear_arith)
            requires a < 0 && b > 0;
        lemma_div_by_multiple(-a, b);
        assert((-a) * b == -(a * b)) by (nonlinear_arith);
    }
}

/// A truncated quotient lies between zero and its dividend.
pub proof fn lemma_tdiv_range(a: int, b: int)
    requires
        b >= 1,
    ensures
        a >= 0 ==> 0 <= tdiv(a, b) <= a,
        a <= 0 ==> a <= tdiv(a, b) <= 0,
{
    if a >= 0 {
        lemma_div_pos_is_pos(a, b);
        lemma_div_nonincreasing(a, b);
    } else {
        lemma_div_pos_is_pos(-a, b);
        lemma_div_nonincreasing(-a, b);
    }
}

/// A bound on both factors bounds a fixed-point product.
pub proof fn lemma_fx_mul_bound(a: int, b: int, la: int, lb: int)
    requires
        -la <= a <= la,
        -lb <= b <= lb,
    ensures
        -tdiv(la * lb, FX_ONE as int) <= fx_mul(a, b) <= tdiv(la * lb, FX_ONE as int),
{
    assert(-(la * lb) <= a * b <= la * lb) by (nonlinear_arith)
        requires -la <= a <= la && -lb <= b <= lb;
    lemma_tdiv_ordered(a * b, la * lb, FX_ONE as int);
    lemma_tdiv_ordered(-(la * lb), a * b, FX_ONE as int);
    lemma_tdiv_neg(la * lb, FX_ONE as int);
}

/// Truncating division of `a` by a positive `b`.
pub fn tdiv64(a: i64, b: i64) -> (r: i64)
    requires
        b > 0,
    ensures
        r == tdiv(a as int, b as int),
{
    a / b
}

/// Fixed-point product of two scalars. The raw product is taken at full
/// 128-bit width, so only the final result must fit.
pub fn fx_mul64(a: i64, b: i64) -> (r: i64)
    requires
        i64::MIN <= fx_mul(a as int, b as int) <= i64::MAX,
    ensures
        r == fx_mul(a as int, b as int),
{
    let p: i128 = (a as i128) * (b as i128);
    let q: i128 = p / (FX_ONE as i128);
    q as i64
}

/// Fixed-point quotient of a scalar by a positive scalar. The scaled-up
/// dividend is taken at full 128-bit width, so only the result must fit.
pub fn fx_div64(a: i64, b: i64) -> (r: i64)
    requires
        b > 0,
        i64::MIN <= fx_div(a as int, b as int) <= i64::MAX,
    ensures
        r == fx_div(a as int, b as int),
{
    let p: i128 = (a as i128) * (FX_ONE as i128);
    let q: i128 = p / (b as i128);
    q as i64
}

/// Integer square root of a raw 128-bit radicand, by bisection.
pub fn isqrt_u128(n: u128) -> (r: u64)
    ensures
        r == isqrt(n as int),
        is_isqrt(n as int, r as int),
{
    let mut lo: u128 = 0;
    let mut hi: u128 = 0x1_0000_0000_0000_0000;
    assert(n < hi * hi) by (nonlinear_arith)
        requires hi == 0x1_0000_0000_0000_0000 && n <= u128::MAX;
    while hi - lo > 1
        invariant
            0 <= lo < hi <= 0x1_0000_0000_0000_0000,
            lo * lo <= n,
            n < hi * hi,
        decreases hi - lo,
    {
        let mid: u128 = lo + (hi - lo) / 2;
        assert(lo < mid < hi);
        assert(mid * mid < u128::MAX) by (nonlinear_arith)
            requires mid < 0x1_0000_0000_0000_0000;
        if mid * mid <= n {
            lo = mid;
        } else {
            hi = mid;
        }
    }
    proof {
        assert(hi == lo + 1);
        lemma_isqrt(n as int);
        lemma_isqrt_unique(n as int, isqrt(n as int), lo as int);
    }
    lo as u64
}

} // verus!
