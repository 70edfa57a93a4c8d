//! Mathematical utility functions: interpolation splines and square corners.

use vstd::prelude::*;

verus! {

use crate::FX_ONE;
use crate::fx::{
    tdiv, fx_mul, fx_ok, fx_mul64, tdiv64,
    lemma_tdiv_exact, lemma_tdiv_ordered, lemma_tdiv_range,
};
use vstd::arithmetic::mul::lemma_mul_inequality;

/// Linear interpolation between two scalars: `from + alpha * (to - from)`,
/// where `alpha` is a fixed-point blend weight (one whole unit reaches `to`).
pub open spec fn lerp_fx(from: int, to: int, alpha: int) -> int {
    from + fx_mul(alpha, to - from)
}

/// The smootherstep blend weight: Ken Perlin's quintic spline
/// `6a^5 - 15a^4 + 10a^3`, over fixed-point scalars. The quotient is
/// clamped into the unit interval, where the spline keeps every blend
/// weight taken from it.
pub open spec fn smoother_alpha(alpha: int) -> int {
    let s = FX_ONE as int;
    let q = tdiv(6 * alpha * alpha * alpha * alpha * alpha
        - 15 * s * alpha * alpha * alpha * alpha
        + 10 * s * s * alpha * alpha * alpha, s * s * s * s);
    if q < 0 { 0 } else if q > s { s } else { q }
}

/// Interpolation between two scalars by the smootherstep spline.
pub open spec fn smootherstep_fx(from: int, to: int, alpha: int) -> int {
    lerp_fx(from, to, smoother_alpha(alpha))
}

/// The quintic blend weight stays a blend weight: it maps `[0, 1]` into
/// `[0, 1]` (in whole units), fixing both endpoints.
pub proof fn lemma_smoother_alpha_bounds(alpha: int)
    requires
        0 <= alpha <= FX_ONE,
    ensures
        0 <= smoother_alpha(alpha) <= FX_ONE,
        smoother_alpha(0) == 0,
        smoother_alpha(FX_ONE as int) == FX_ONE,
{
    let s = FX_ONE as int;
    lemma_tdiv_range(0, s * s * s * s);
    lemma_tdiv_exact(s, s * s * s * s);
    assert(s * (s * s * s * s) == s * s * s * s * s) by (nonlinear_arith);
}

/// Linear interpolation lands between its endpoints when the blend weight
/// lies in `[0, 1]` whole units, and is exact at both ends.
pub proof fn lemma_lerp_bounds(from: int, to: int, alpha: int)
    requires
        0 <= alpha <= FX_ONE,
    ensures
        from <= to ==> from <= lerp_fx(from, to, alpha) <= to,
        to <= from ==> to <= lerp_fx(from, to, alpha) <= from,
        lerp_fx(from, to, 0) == from,
        lerp_fx(from, to, FX_ONE as int) == to,
{
    let s = FX_ONE as int;
    let d = to - from;
    lemma_tdiv_exact(d, s);
    assert(d * s == s * d) by (nonlinear_arith);
    if d >= 0 {
        lemma_mul_inequality(alpha, s, d);
        lemma_tdiv_range(alpha * d, s);
        lemma_tdiv_ordered(alpha * d, s * d, s);
    } else {
        assert(s * d <= alpha * d <= 0) by (nonlinear_arith)
            requires
                0 <= alpha <= s,
                d < 0,
        ;
        lemma_tdiv_range(alpha * d, s);
        lemma_tdiv_ordered(s * d, alpha * d, s);
    }
    lemma_tdiv_range(0, s);
}

/// Linear interpolation is monotone in its target when the blend weight is
/// nonnegative.
pub proof fn lemma_lerp_monotone(from: int, to1: int, to2: int, alpha: int)
    requires
        alpha >= 0,
        to1 <= to2,
    ensures
        lerp_fx(from, to1, alpha) <= lerp_fx(from, to2, alpha),
{
    lemma_mul_inequality(to1 - from, to2 - from, alpha);
    assert((to1 - from) * alpha == alpha * (to1 - from)) by (nonlinear_arith);
    assert((to2 - from) * alpha == alpha * (to2 - from)) by (nonlinear_arith);
    lemma_tdiv_ordered(alpha * (to1 - from), alpha * (to2 - from), FX_ONE as int);
}

/// Linearly interpolate between two values.
pub fn lerp(from: i64, to: i64, alpha: i64) -> (r: i64)
    requires
        fx_ok(from as int),
        fx_ok(to as int),
        0 <= alpha <= FX_ONE,
    ensures
        r == lerp_fx(from as int, to as int, alpha as int),
        fx_ok(from as int) && fx_ok(to as int) ==> (
            -crate::FX_LIM <= r <= crate::FX_LIM
        ),
{
    proof {
        lemma_lerp_bounds(from as int, to as int, alpha as int);
    }
    from + fx_mul64(alpha, to - from)
}

/// The smootherstep blend weight of `alpha`, by the quintic spline.
pub fn smoother_alpha64(alpha: i64) -> (r: i64)
    requires
        0 <= alpha <= FX_ONE,
    ensures
        r == smoother_alpha(alpha as int),
        0 <= r <= FX_ONE,
{
    proof {
        lemma_smoother_alpha_bounds(alpha as int);
    }
    let a = alpha as i128;
    proof {
        assert(0 <= a * a <= 1_000_000_000_000int) by (nonlinear_arith)
            requires 0 <= a <= 1_000_000;
    }
    let a2 = a * a;
    proof {
        assert(0 <= a2 * a <= 1_000_000_000_000_000_000int) by (nonlinear_arith)
            requires
                0 <= a <= 1_000_000,
                0 <= a2 <= 1_000_000_000_000,
        ;
    }
    let a3 = a2 * a;
    proof {
        assert(0 <= a3 * a <= 1_000_000_000_000_000_000_000_000int) by (nonlinear_arith)
            requires
                0 <= a <= 1_000_000,
                0 <= a3 <= 1_000_000_000_000_000_000,
        ;
    }
    let a4 = a3 * a;
    proof {
        assert(0 <= a4 * a <= 1_000_000_000_000_000_000_000_000_000_000int) by (nonlinear_arith)
            requires
                0 <= a <= 1_000_000,
                0 <= a4 <= 1_000_000_000_000_000_000_000_000,
        ;
    }
    let a5 = a4 * a;
    let num = 6 * a5 - 15_000_000 * a4 + 10_000_000_000_000 * a3;
    proof {
        let s = FX_ONE as int;
        assert(num == 6 * a * a * a * a * a - 15 * s * a * a * a * a
            + 10 * s * s * a * a * a) by (nonlinear_arith)
            requires
                num == 6 * a5 - 15_000_000 * a4 + 10_000_000_000_000 * a3,
                a5 == a4 * a,
                a4 == a3 * a,
                a3 == a2 * a,
                a2 == a * a,
                s == 1_000_000,
        ;
        assert(s * s * s * s == 1_000_000_000_000_000_000_000_000int) by (nonlinear_arith)
            requires s == 1_000_000;
    }
    let q = num / 1_000_000_000_000_000_000_000_000i128;
    if q < 0 {
        0
    } else if q > 1_000_000 {
        FX_ONE
    } else {
        q as i64
    }
}

/// Interpolate between two values using smootherstep, Ken Perlin's optimized
/// version of the smoothstep interpolation spline.
pub fn smootherstep(from: i64, to: i64, alpha: i64) -> (r: i64)
    requires
        fx_ok(from as int),
        fx_ok(to as int),
        0 <= alpha <= FX_ONE,
    ensures
        r == smootherstep_fx(from as int, to as int, alpha as int),
        -crate::FX_LIM <= r <= crate::FX_LIM,
{
    let weight = smoother_alpha64(alpha);
    lerp(from, to, weight)
}

/// The four corners of a square.
#[derive(Clone, Copy, PartialEq, Eq, Structural, Debug)]
pub enum QuadCorner {
    NW,
    NE,
    SW,
    SE,
}

impl QuadCorner {
    /// Unit X coordinate of the square corner.
    pub fn x(&self) -> (r: usize)
        ensures
            r == (if self is NE || self is SE { 1int } else { 0int }),
    {
        match self {
            QuadCorner::NW => 0,
            QuadCorner::SW => 0,
            QuadCorner::NE => 1,
            QuadCorner::SE => 1,
        }
    }

    /// Unit Y coordinate of the square corner.
    pub fn y(&self) -> (r: usize)
        ensures
            r == (if self is SW || self is SE { 1int } else { 0int }),
    {
        match self {
            QuadCorner::NW => 0,
            QuadCorner::NE => 0,
            QuadCorner::SW => 1,
            QuadCorner::SE => 1,
        }
    }

    /// Unit X coordinate of the square corner, as a fixed-point scalar.
    pub fn xf(&self) -> (r: i64)
        ensures
            r == (if self is NE || self is SE { FX_ONE as int } else { 0int }),
    {
        match self {
            QuadCorner::NW => 0,
            QuadCorner::SW => 0,
            QuadCorner::NE => FX_ONE,
            QuadCorner::SE => FX_ONE,
        }
    }

    /// Unit Y coordinate of the square corner, as a fixed-point scalar.
    pub fn yf(&self) -> (r: i64)
        ensures
            r == (if self is SW || self is SE { FX_ONE as int } else { 0int }),
    {
        match self {
            QuadCorner::NW => 0,
            QuadCorner::NE => 0,
            QuadCorner::SW => FX_ONE,
            QuadCorner::SE => FX_ONE,
        }
    }
}

} // verus!
