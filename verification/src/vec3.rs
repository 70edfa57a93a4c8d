//! Three-dimensional vectors over fixed-point scalars.

use vstd::prelude::*;

verus! {

use crate::{FX_ONE, FX_LIM};
use crate::fx::{
    tdiv, fx_mul, fx_div, fx_ok, isqrt, is_isqrt,
    fx_mul64, fx_div64, isqrt_u128,
    lemma_isqrt_vs, lemma_tdiv_ordered, lemma_tdiv_exact, lemma_tdiv_neg, lemma_tdiv_range,
};
use vstd::arithmetic::mul::lemma_mul_inequality;

/// A vector in 3D space, one fixed-point scalar per axis.
#[derive(Clone, Copy, PartialEq, Eq, Structural, Debug)]
pub struct Vec3 {
    pub x: i64,
    pub y: i64,
    pub z: i64,
}

/// All three components lie within the working scalar range.
pub open spec fn v_ok(v: Vec3) -> bool {
    fx_ok(v.x as int) && fx_ok(v.y as int) && fx_ok(v.z as int)
}

/// All three components lie within the wider geometry range (eight times the
/// scalar limit): the range of offsets, closest points and their averages
/// computed from in-range positions.
pub open spec fn vd_ok(v: Vec3) -> bool {
    &&& -8 * FX_LIM <= v.x <= 8 * FX_LIM
    &&& -8 * FX_LIM <= v.y <= 8 * FX_LIM
    &&& -8 * FX_LIM <= v.z <= 8 * FX_LIM
}

/// The direction of a vector on the fixed-point grid: the vector divided by
/// its own length, or a fixed upward fallback for the zero vector, which has
/// no direction.
pub open spec fn unit_of(v: Vec3) -> Vec3 {
    if norm_of(v) == 0 {
        Vec3 { x: 0, y: FX_ONE, z: 0 }
    } else {
        Vec3 {
            x: fx_div(v.x as int, norm_of(v)) as i64,
            y: fx_div(v.y as int, norm_of(v)) as i64,
            z: fx_div(v.z as int, norm_of(v)) as i64,
        }
    }
}

/// The squared length of a vector, on raw components (so it carries the
/// fixed-point scale squared).
pub open spec fn norm2(v: Vec3) -> int {
    v.x * v.x + v.y * v.y + v.z * v.z
}

/// The length of a vector: the integer square root of its squared length,
/// which lands back on the fixed-point scale.
pub open spec fn norm_of(v: Vec3) -> int {
    isqrt(norm2(v))
}

/// A square of an in-range scalar is nonnegative and within one scale square.
pub proof fn lemma_sq_bound(x: int)
    requires
        fx_ok(x),
    ensures
        0 <= x * x <= FX_LIM * FX_LIM,
{
    assert(0 <= x * x <= FX_LIM * FX_LIM) by (nonlinear_arith)
        requires -FX_LIM <= x <= FX_LIM;
}

/// A square of a geometry-range scalar is nonnegative and within 64 scale
/// squares.
pub proof fn lemma_sq_bound2(x: int)
    requires
        -8 * FX_LIM <= x <= 8 * FX_LIM,
    ensures
        0 <= x * x <= 64 * (FX_LIM * FX_LIM),
{
    assert(0 <= x * x <= 64 * (FX_LIM * FX_LIM)) by (nonlinear_arith)
        requires -8 * FX_LIM <= x <= 8 * FX_LIM;
}

/// The length of an in-range vector is at most twice the scalar limit, and
/// every component has magnitude at most the length.
pub proof fn lemma_norm_bounds(v: Vec3)
    requires
        vd_ok(v),
    ensures
        0 <= norm_of(v) < 16 * FX_LIM,
        v.x * v.x <= norm2(v) && v.y * v.y <= norm2(v) && v.z * v.z <= norm2(v),
        is_isqrt(norm2(v), norm_of(v)),
{
    lemma_sq_bound2(v.x as int);
    lemma_sq_bound2(v.y as int);
    lemma_sq_bound2(v.z as int);
    assert(norm2(v) < (16 * FX_LIM) * (16 * FX_LIM)) by (nonlinear_arith)
        requires norm2(v) <= 192 * (FX_LIM * FX_LIM);
    lemma_isqrt_vs(norm2(v), 16 * FX_LIM as int);
    crate::fx::lemma_isqrt(norm2(v));
}

/// A component of a vector never exceeds the vector's length, so dividing a
/// component by the length lands within one whole unit either way.
pub proof fn lemma_unit_component(c: int, n2: int, len: int)
    requires
        c * c <= n2,
        is_isqrt(n2, len),
        len > 0,
    ensures
        -len <= c <= len,
        -FX_ONE <= fx_div(c, len) <= FX_ONE,
{
    if c > len {
        lemma_mul_inequality(len + 1, c, len + 1);
        lemma_mul_inequality(len + 1, c, c);
    }
    if c < -len {
        lemma_mul_inequality(len + 1, -c, len + 1);
        lemma_mul_inequality(len + 1, -c, -c);
        assert((-c) * (-c) == c * c) by (nonlinear_arith);
    }
    assert(c * FX_ONE <= len * FX_ONE) by (nonlinear_arith)
        requires c <= len && FX_ONE > 0;
    assert(-(len * FX_ONE) <= c * FX_ONE) by (nonlinear_arith)
        requires -len <= c && FX_ONE > 0;
    lemma_tdiv_ordered(c * FX_ONE, len * FX_ONE, len);
    lemma_tdiv_ordered(-(len * FX_ONE), c * FX_ONE, len);
    lemma_tdiv_exact(FX_ONE as int, len);
    assert(FX_ONE * len == len * FX_ONE) by (nonlinear_arith);
    lemma_tdiv_neg(len * FX_ONE, len);
}

/// The unit direction of a geometry-range vector has components within one
/// whole unit.
pub proof fn lemma_unit_bounds(v: Vec3)
    requires
        vd_ok(v),
    ensures
        -FX_ONE <= unit_of(v).x <= FX_ONE,
        -FX_ONE <= unit_of(v).y <= FX_ONE,
        -FX_ONE <= unit_of(v).z <= FX_ONE,
        unit_of(v).x > i64::MIN && unit_of(v).y > i64::MIN && unit_of(v).z > i64::MIN,
{
    lemma_norm_bounds(v);
    if norm_of(v) > 0 {
        lemma_unit_component(v.x as int, norm2(v), norm_of(v));
        lemma_unit_component(v.y as int, norm2(v), norm_of(v));
        lemma_unit_component(v.z as int, norm2(v), norm_of(v));
    }
}

impl Vec3 {
    /// The zero vector.
    pub fn zero() -> (r: Vec3)
        ensures
            r == (Vec3 { x: 0, y: 0, z: 0 }),
    {
        Vec3 { x: 0, y: 0, z: 0 }
    }

    /// Construct a vector from its three components.
    pub fn new(x: i64, y: i64, z: i64) -> (r: Vec3)
        ensures
            r == (Vec3 { x, y, z }),
    {
        Vec3 { x, y, z }
    }

    /// Componentwise sum.
    pub fn plus(self, o: Vec3) -> (r: Vec3)
        requires
            i64::MIN <= self.x + o.x <= i64::MAX,
            i64::MIN <= self.y + o.y <= i64::MAX,
            i64::MIN <= self.z + o.z <= i64::MAX,
        ensures
            r.x == self.x + o.x,
            r.y == self.y + o.y,
            r.z == self.z + o.z,
    {
        Vec3 { x: self.x + o.x, y: self.y + o.y, z: self.z + o.z }
    }

    /// Componentwise difference.
    pub fn minus(self, o: Vec3) -> (r: Vec3)
        requires
            i64::MIN <= self.x - o.x <= i64::MAX,
            i64::MIN <= self.y - o.y <= i64::MAX,
            i64::MIN <= self.z - o.z <= i64::MAX,
        ensures
            r.x == self.x - o.x,
            r.y == self.y - o.y,
            r.z == self.z - o.z,
    {
        Vec3 { x: self.x - o.x, y: self.y - o.y, z: self.z - o.z }
    }

    /// Componentwise negation.
    pub fn neg(self) -> (r: Vec3)
        requires
            self.x > i64::MIN,
            self.y > i64::MIN,
            self.z > i64::MIN,
        ensures
            r.x == -self.x,
            r.y == -self.y,
            r.z == -self.z,
    {
        Vec3 { x: -self.x, y: -self.y, z: -self.z }
    }

    /// Scale by a fixed-point scalar.
    pub fn scale(self, k: i64) -> (r: Vec3)
        requires
            i64::MIN <= fx_mul(self.x as int, k as int) <= i64::MAX,
            i64::MIN <= fx_mul(self.y as int, k as int) <= i64::MAX,
            i64::MIN <= fx_mul(self.z as int, k as int) <= i64::MAX,
        ensures
            r.x == fx_mul(self.x as int, k as int),
            r.y == fx_mul(self.y as int, k as int),
            r.z == fx_mul(self.z as int, k as int),
    {
        Vec3 {
            x: fx_mul64(self.x, k),
            y: fx_mul64(self.y, k),
            z: fx_mul64(self.z, k),
        }
    }

    /// Divide each component by a positive fixed-point scalar.
    pub fn divide(self, k: i64) -> (r: Vec3)
        requires
            k > 0,
            i64::MIN <= fx_div(self.x as int, k as int) <= i64::MAX,
            i64::MIN <= fx_div(self.y as int, k as int) <= i64::MAX,
            i64::MIN <= fx_div(self.z as int, k as int) <= i64::MAX,
        ensures
            r.x == fx_div(self.x as int, k as int),
            r.y == fx_div(self.y as int, k as int),
            r.z == fx_div(self.z as int, k as int),
    {
        Vec3 {
            x: fx_div64(self.x, k),
            y: fx_div64(self.y, k),
            z: fx_div64(self.z, k),
        }
    }

    /// Halve each component, truncating toward zero.
    pub fn half(self) -> (r: Vec3)
        ensures
            r.x == tdiv(self.x as int, 2),
            r.y == tdiv(self.y as int, 2),
            r.z == tdiv(self.z as int, 2),
    {
        Vec3 { x: self.x / 2, y: self.y / 2, z: self.z / 2 }
    }

    /// The squared length, on raw 128-bit arithmetic.
    pub fn length_squared(self) -> (r: i128)
        requires
            vd_ok(self),
        ensures
            r == norm2(self),
            0 <= r,
    {
        proof {
            lemma_sq_bound2(self.x as int);
            lemma_sq_bound2(self.y as int);
            lemma_sq_bound2(self.z as int);
        }
        (self.x as i128) * (self.x as i128)
            + (self.y as i128) * (self.y as i128)
            + (self.z as i128) * (self.z as i128)
    }

    /// The length of the vector, truncated to the fixed-point grid.
    pub fn length(self) -> (r: i64)
        requires
            vd_ok(self),
        ensures
            r == norm_of(self),
            0 <= r < 16 * FX_LIM,
            is_isqrt(norm2(self), r as int),
    {
        proof {
            lemma_norm_bounds(self);
        }
        let n2 = self.length_squared();
        isqrt_u128(n2 as u128) as i64
    }

    /// The vector scaled to unit length (within truncation), or a fixed
    /// upward fallback for the zero vector, which has no direction.
    pub fn normalize(self) -> (r: Vec3)
        requires
            vd_ok(self),
        ensures
            r == unit_of(self),
            -FX_ONE <= r.x <= FX_ONE && -FX_ONE <= r.y <= FX_ONE && -FX_ONE <= r.z <= FX_ONE,
    {
        let len = self.length();
        if len == 0 {
            Vec3 { x: 0, y: FX_ONE, z: 0 }
        } else {
            proof {
                lemma_norm_bounds(self);
                lemma_unit_component(self.x as int, norm2(self), len as int);
                lemma_unit_component(self.y as int, norm2(self), len as int);
                lemma_unit_component(self.z as int, norm2(self), len as int);
            }
            self.divide(len)
        }
    }

}

} // verus!
