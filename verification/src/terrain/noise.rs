//! Perlin-style and fractal noise.
//!
//! A [`NoiseLattice`] is a grid of lattice points, each carrying a unit-length
//! 'gradient vector'. The noise value between grid points comes from dot
//! products against the four surrounding corners, blended by a double
//! smootherstep interpolation. Stacking lattices at power-of-two 'octaves'
//! gives fractal noise, [`FractalNoise`]: each successive octave doubles
//! frequency and halves amplitude.

use vstd::prelude::*;

verus! {

use crate::FX_ONE;
use crate::fx::{
    tdiv, fx_mul, fx_div, fx_ok, isqrt, isqrt_u128,
    lemma_tdiv_ordered, lemma_tdiv_exact, lemma_tdiv_neg, lemma_tdiv_range,
    lemma_fx_mul_bound, lemma_isqrt_vs,
};
use crate::math::{smootherstep_fx, smoother_alpha, lerp_fx, smootherstep,
    lemma_smoother_alpha_bounds, lemma_lerp_bounds};
use vstd::arithmetic::div_mod::{lemma_fundamental_div_mod, lemma_div_pos_is_pos};
use vstd::arithmetic::mul::{lemma_mul_inequality, lemma_mul_strict_inequality};

/// Relies on `rand::random`: a uniformly drawn `u64`. Nothing is promised of
/// the value.
#[verifier::external_body]
fn random_bits() -> u64 {
    rand::random::<u64>()
}

/// A point on the grid of lattice points.
#[derive(Default, Clone, Copy, PartialEq, Eq, Structural, Debug)]
pub struct NoiseLatticePoint {
    /// The X component of the gradient vector.
    pub inf_vec_x: i64,

    /// The Y component of the gradient vector.
    pub inf_vec_y: i64,
}

/// A well-formed lattice point: both gradient components within one unit.
pub open spec fn lattice_point_ok(p: NoiseLatticePoint) -> bool {
    -FX_ONE <= p.inf_vec_x <= FX_ONE && -FX_ONE <= p.inf_vec_y <= FX_ONE
}

/// The gradient picked from a draw of random bits: an X component uniform
/// over `[-1, 1]` units, and a matching Y component of the unit circle, with
/// its sign taken from one more bit.
pub open spec fn gradient_of_bits(bits: u64) -> NoiseLatticePoint {
    let x = (bits % (2 * FX_ONE + 1) as u64) - FX_ONE;
    let y = isqrt(FX_ONE * FX_ONE - x * x);
    NoiseLatticePoint {
        inf_vec_x: x as i64,
        inf_vec_y: if (bits / 0x8000_0000_0000_0000u64) == 1u64 { (-y) as i64 } else { y as i64 },
    }
}

/// A gradient that some draw of random bits produces: the form every
/// randomized lattice point has.
pub open spec fn drawn_gradient(p: NoiseLatticePoint) -> bool {
    exists|bits: u64| p == #[trigger] gradient_of_bits(bits)
}

/// Every drawn gradient is a unit vector within truncation: its squared
/// length lands within one truncation step below one squared unit.
pub proof fn lemma_gradient_unit(bits: u64)
    ensures
        lattice_point_ok(gradient_of_bits(bits)),
        ({
            let g = gradient_of_bits(bits);
            let n2 = g.inf_vec_x * g.inf_vec_x + g.inf_vec_y * g.inf_vec_y;
            FX_ONE * FX_ONE - 2 * FX_ONE - 1 <= n2 <= FX_ONE * FX_ONE
        }),
{
    let s = FX_ONE as int;
    let x = (bits % (2 * FX_ONE + 1) as u64) - FX_ONE;
    assert(0 <= x * x <= s * s) by (nonlinear_arith)
        requires -s <= x <= s;
    crate::fx::lemma_isqrt(s * s - x * x);
    assert(s * s - x * x < (s + 1) * (s + 1)) by (nonlinear_arith)
        requires 0 <= s * s - x * x <= s * s && s >= 1;
    lemma_isqrt_vs(s * s - x * x, s + 1);
    let y = isqrt(s * s - x * x);
    assert((-y) * (-y) == y * y) by (nonlinear_arith);
    assert(x * x + y * y <= s * s);
    assert(s * s - x * x < (y + 1) * (y + 1));
    assert((y + 1) * (y + 1) == y * y + 2 * y + 1) by (nonlinear_arith);
}

/// The dot product of a lattice point's gradient vector with an offset.
pub open spec fn influence_on(p: NoiseLatticePoint, off_x: int, off_y: int) -> int {
    fx_mul(p.inf_vec_x as int, off_x) + fx_mul(p.inf_vec_y as int, off_y)
}

/// The gradient dot product of a unit-ish gradient with an in-tile offset is
/// at most two units in magnitude.
pub proof fn lemma_influence_bound(p: NoiseLatticePoint, off_x: int, off_y: int)
    requires
        lattice_point_ok(p),
        -FX_ONE <= off_x <= FX_ONE,
        -FX_ONE <= off_y <= FX_ONE,
    ensures
        -2 * FX_ONE <= influence_on(p, off_x, off_y) <= 2 * FX_ONE,
{
    lemma_fx_mul_bound(p.inf_vec_x as int, off_x, FX_ONE as int, FX_ONE as int);
    lemma_fx_mul_bound(p.inf_vec_y as int, off_y, FX_ONE as int, FX_ONE as int);
    lemma_tdiv_exact(FX_ONE as int, FX_ONE as int);
}

impl NoiseLatticePoint {
    /// Creates a new lattice grid point with the given gradient components,
    /// renormalized to unit length.
    pub fn new(inf_vec_x: i64, inf_vec_y: i64) -> (r: NoiseLatticePoint)
        requires
            crate::fx::fx_ok(inf_vec_x as int),
            crate::fx::fx_ok(inf_vec_y as int),
            inf_vec_x != 0 || inf_vec_y != 0,
        ensures
            lattice_point_ok(r),
            r.inf_vec_x == fx_div(inf_vec_x as int, isqrt(inf_vec_x * inf_vec_x + inf_vec_y * inf_vec_y)),
            r.inf_vec_y == fx_div(inf_vec_y as int, isqrt(inf_vec_x * inf_vec_x + inf_vec_y * inf_vec_y)),
    {
        proof {
            crate::vec3::lemma_sq_bound(inf_vec_x as int);
            crate::vec3::lemma_sq_bound(inf_vec_y as int);
        }
        let n2 = (inf_vec_x as i128) * (inf_vec_x as i128) + (inf_vec_y as i128) * (inf_vec_y as i128);
        proof {
            assert(inf_vec_x * inf_vec_x + inf_vec_y * inf_vec_y >= 1) by (nonlinear_arith)
                requires inf_vec_x != 0 || inf_vec_y != 0;
        }
        let len = isqrt_u128(n2 as u128) as i64;
        proof {
            let nn = inf_vec_x * inf_vec_x + inf_vec_y * inf_vec_y;
            crate::fx::lemma_isqrt(nn);
            lemma_isqrt_vs(nn, 1);
            lemma_isqrt_vs(nn, 2_000_000_000_000_000);
            assert(nn < 2_000_000_000_000_000int * 2_000_000_000_000_000int) by (nonlinear_arith)
                requires nn <= 2 * (crate::FX_LIM * crate::FX_LIM) && crate::FX_LIM == 1_000_000_000_000_000;
            crate::vec3::lemma_unit_component(inf_vec_x as int, nn, len as int);
            crate::vec3::lemma_unit_component(inf_vec_y as int, nn, len as int);
        }
        NoiseLatticePoint {
            inf_vec_x: crate::fx::fx_div64(inf_vec_x, len),
            inf_vec_y: crate::fx::fx_div64(inf_vec_y, len),
        }
    }

    /// Returns the gradient vector at this lattice grid point.
    pub fn get_gradient_vector(&self) -> (r: (i64, i64))
        ensures
            r.0 == self.inf_vec_x && r.1 == self.inf_vec_y,
    {
        (self.inf_vec_x, self.inf_vec_y)
    }

    /// Pick this point's gradient from a draw of random bits: always a
    /// unit-length (within truncation) gradient.
    pub fn randomize_from_bits(&mut self, bits: u64)
        ensures
            *final(self) == gradient_of_bits(bits),
            lattice_point_ok(*final(self)),
    {
        let xbits = bits % (2 * (FX_ONE as u64) + 1);
        let x = (xbits as i64) - FX_ONE;
        proof {
            assert(0 <= x * x <= FX_ONE * FX_ONE) by (nonlinear_arith)
                requires -FX_ONE <= x <= FX_ONE;
            crate::fx::lemma_isqrt(FX_ONE * FX_ONE - x * x);
            assert((FX_ONE * FX_ONE - x * x) < (FX_ONE + 1) * (FX_ONE + 1)) by (nonlinear_arith)
                requires 0 <= FX_ONE * FX_ONE - x * x <= FX_ONE * FX_ONE && FX_ONE == 1_000_000;
            lemma_isqrt_vs(FX_ONE * FX_ONE - x * x, FX_ONE as int + 1);
        }
        let y2 = (FX_ONE as i128) * (FX_ONE as i128) - (x as i128) * (x as i128);
        let y = isqrt_u128(y2 as u128) as i64;
        let flip = bits / 0x8000_0000_0000_0000u64;
        self.inf_vec_x = x;
        self.inf_vec_y = if flip == 1 { -y } else { y };
    }

    /// The dot product between this point's gradient and the given offset.
    fn influence_at_offset(&self, off_x: i64, off_y: i64) -> (r: i64)
        requires
            lattice_point_ok(*self),
            -FX_ONE <= off_x <= FX_ONE,
            -FX_ONE <= off_y <= FX_ONE,
        ensures
            r == influence_on(*self, off_x as int, off_y as int),
            -2 * FX_ONE <= r <= 2 * FX_ONE,
    {
        proof {
            lemma_influence_bound(*self, off_x as int, off_y as int);
            lemma_fx_mul_bound(self.inf_vec_x as int, off_x as int, FX_ONE as int, FX_ONE as int);
            lemma_fx_mul_bound(self.inf_vec_y as int, off_y as int, FX_ONE as int, FX_ONE as int);
            lemma_tdiv_exact(FX_ONE as int, FX_ONE as int);
        }
        crate::fx::fx_mul64(self.inf_vec_x, off_x) + crate::fx::fx_mul64(self.inf_vec_y, off_y)
    }
}

/// A 'quad', or tile, of [`NoiseLatticePoint`] corners.
///
/// Note that +X is east and +Y is south.
#[derive(Clone, Copy, PartialEq, Eq, Structural, Debug)]
pub struct LatticeQuadCorners {
    /// The northwest point, or x:0 y:0.
    pub nw: NoiseLatticePoint,

    /// The northeast point, or x:1 y:0.
    pub ne: NoiseLatticePoint,

    /// The southwest point, or x:0 y:1.
    pub sw: NoiseLatticePoint,

    /// The southeast point, or x:1 y:1.
    pub se: NoiseLatticePoint,
}

/// All four corners of a quad are well-formed.
pub open spec fn quad_ok(q: LatticeQuadCorners) -> bool {
    lattice_point_ok(q.nw) && lattice_point_ok(q.ne)
        && lattice_point_ok(q.sw) && lattice_point_ok(q.se)
}

/// The noise value of a quad at an inner offset: the corner dot products,
/// blended by smootherstep west-to-east and then north-to-south.
pub open spec fn quad_influence(q: LatticeQuadCorners, off_x: int, off_y: int) -> int {
    let s = FX_ONE as int;
    let inf_nw = influence_on(q.nw, off_x, off_y);
    let inf_ne = influence_on(q.ne, off_x - s, off_y);
    let inf_sw = influence_on(q.sw, off_x, off_y - s);
    let inf_se = influence_on(q.se, off_x - s, off_y - s);
    let inf_n = smootherstep_fx(inf_nw, inf_ne, off_x);
    let inf_s = smootherstep_fx(inf_sw, inf_se, off_x);
    smootherstep_fx(inf_n, inf_s, off_y)
}

/// A quad's noise value is at most two units in magnitude: it interpolates
/// between bounded corner dot products.
pub proof fn lemma_quad_influence_bound(q: LatticeQuadCorners, off_x: int, off_y: int)
    requires
        quad_ok(q),
        0 <= off_x <= FX_ONE,
        0 <= off_y <= FX_ONE,
    ensures
        -2 * FX_ONE <= quad_influence(q, off_x, off_y) <= 2 * FX_ONE,
{
    let s = FX_ONE as int;
    lemma_influence_bound(q.nw, off_x, off_y);
    lemma_influence_bound(q.ne, off_x - s, off_y);
    lemma_influence_bound(q.sw, off_x, off_y - s);
    lemma_influence_bound(q.se, off_x - s, off_y - s);
    lemma_smoother_alpha_bounds(off_x);
    lemma_smoother_alpha_bounds(off_y);
    let inf_nw = influence_on(q.nw, off_x, off_y);
    let inf_ne = influence_on(q.ne, off_x - s, off_y);
    let inf_sw = influence_on(q.sw, off_x, off_y - s);
    let inf_se = influence_on(q.se, off_x - s, off_y - s);
    lemma_lerp_bounds(inf_nw, inf_ne, smoother_alpha(off_x));
    lemma_lerp_bounds(inf_sw, inf_se, smoother_alpha(off_x));
    lemma_lerp_bounds(smootherstep_fx(inf_nw, inf_ne, off_x),
        smootherstep_fx(inf_sw, inf_se, off_x), smoother_alpha(off_y));
}

impl LatticeQuadCorners {
    /// Creates a square lattice tile, or 'quad', from four corner points.
    pub fn new(
        nw: NoiseLatticePoint,
        ne: NoiseLatticePoint,
        sw: NoiseLatticePoint,
        se: NoiseLatticePoint,
    ) -> (r: LatticeQuadCorners)
        ensures
            r == (LatticeQuadCorners { nw, ne, sw, se }),
    {
        LatticeQuadCorners { nw, ne, sw, se }
    }

    /// Calculates the value for each tile corner at the given input
    /// coordinates, then performs a smoothed bilinear interpolation between
    /// them.
    pub fn influence_at(&self, off_x: i64, off_y: i64) -> (r: i64)
        requires
            quad_ok(*self),
            0 <= off_x <= FX_ONE,
            0 <= off_y <= FX_ONE,
        ensures
            r == quad_influence(*self, off_x as int, off_y as int),
            -2 * FX_ONE <= r <= 2 * FX_ONE,
    {
        proof {
            lemma_quad_influence_bound(*self, off_x as int, off_y as int);
            lemma_influence_bound(self.nw, off_x as int, off_y as int);
            lemma_influence_bound(self.ne, off_x - FX_ONE, off_y as int);
            lemma_influence_bound(self.sw, off_x as int, off_y - FX_ONE);
            lemma_influence_bound(self.se, off_x - FX_ONE, off_y - FX_ONE);
        }
        let inf_nw = self.nw.influence_at_offset(off_x, off_y);
        let inf_ne = self.ne.influence_at_offset(off_x - FX_ONE, off_y);
        let inf_sw = self.sw.influence_at_offset(off_x, off_y - FX_ONE);
        let inf_se = self.se.influence_at_offset(off_x - FX_ONE, off_y - FX_ONE);
        let inf_n = smootherstep(inf_nw, inf_ne, off_x);
        let inf_s = smootherstep(inf_sw, inf_se, off_x);
        smootherstep(inf_n, inf_s, off_y)
    }
}

/// **Noise lattice continuity.** Two vertically adjacent quads that share an
/// edge (the first quad's south corners are the second quad's north corners)
/// agree exactly along that edge: the first quad's value at the very south
/// equals the second quad's value at the very north, for every position
/// along the edge.
pub proof fn lemma_noise_quad_continuity(q1: LatticeQuadCorners, q2: LatticeQuadCorners, off_x: int)
    requires
        quad_ok(q1),
        q1.sw == q2.nw,
        q1.se == q2.ne,
        0 <= off_x <= FX_ONE,
    ensures
        quad_influence(q1, off_x, FX_ONE as int) == quad_influence(q2, off_x, 0),
{
    let s = FX_ONE as int;
    lemma_smoother_alpha_bounds(s);
    lemma_smoother_alpha_bounds(0);
    let inf_sw = influence_on(q1.sw, off_x, 0);
    let inf_se = influence_on(q1.se, off_x - s, 0);
    let inf_nw1 = influence_on(q1.nw, off_x, s);
    let inf_ne1 = influence_on(q1.ne, off_x - s, s);
    let inf_n1 = smootherstep_fx(inf_nw1, inf_ne1, off_x);
    let inf_s1 = smootherstep_fx(inf_sw, inf_se, off_x);
    lemma_lerp_bounds(inf_n1, inf_s1, smoother_alpha(s));
    let inf_sw2 = influence_on(q2.sw, off_x, -s);
    let inf_se2 = influence_on(q2.se, off_x - s, -s);
    let inf_s2 = smootherstep_fx(inf_sw2, inf_se2, off_x);
    lemma_lerp_bounds(inf_s1, inf_s2, smoother_alpha(0));
}

/// A Perlin-style noise grid lattice: a rectangle of lattice points, row
/// after row.
#[derive(Clone, Debug)]
pub struct NoiseLattice {
    /// The lattice points, row after row.
    pub points: Vec<NoiseLatticePoint>,

    /// The width of the lattice in points.
    pub width: usize,
}

/// A well-formed lattice: at least two points per axis, whole rows, and
/// well-formed points throughout.
pub open spec fn lattice_ok(l: NoiseLattice) -> bool {
    &&& 2 <= l.width
    &&& l.points@.len() as int % (l.width as int) == 0
    &&& l.points@.len() as int / (l.width as int) >= 2
    &&& l.points@.len() <= 0xFFFF_FFFF
    &&& forall|i: int| 0 <= i < l.points@.len() ==> lattice_point_ok(#[trigger] l.points@[i])
}

/// The number of point rows of a lattice.
pub open spec fn lattice_height(l: NoiseLattice) -> int {
    l.points@.len() as int / (l.width as int)
}

/// The four corner points of the lattice tile at quad coordinates
/// `(qx, qy)`.
pub open spec fn corners_of(l: NoiseLattice, qx: int, qy: int) -> LatticeQuadCorners {
    LatticeQuadCorners {
        nw: l.points@[qx + qy * l.width],
        ne: l.points@[qx + qy * l.width + 1],
        sw: l.points@[qx + (qy + 1) * l.width],
        se: l.points@[qx + (qy + 1) * l.width + 1],
    }
}

/// **Shared corners.** Quads that touch share their corner points by
/// construction: a quad's south corners are the corners below's north
/// corners, and its east corners are the corners to the right's west ones.
pub proof fn lemma_quad_sharing(l: NoiseLattice, qx: int, qy: int)
    requires
        0 <= qx,
        0 <= qy,
    ensures
        corners_of(l, qx, qy).sw == corners_of(l, qx, qy + 1).nw,
        corners_of(l, qx, qy).se == corners_of(l, qx, qy + 1).ne,
        corners_of(l, qx, qy).ne == corners_of(l, qx + 1, qy).nw,
        corners_of(l, qx, qy).se == corners_of(l, qx + 1, qy).sw,
{
}

/// The noise value of a lattice at a fixed-point position: the quad under
/// the position, sampled at the position's fractional offset within it.
pub open spec fn lattice_influence(l: NoiseLattice, pos_x: int, pos_y: int) -> int {
    let s = FX_ONE as int;
    quad_influence(corners_of(l, pos_x / s, pos_y / s), pos_x % s, pos_y % s)
}

/// A position in the sampling range of a lattice: nonnegative and strictly
/// inside the last row and column of quads.
pub open spec fn lattice_can_sample(l: NoiseLattice, pos_x: int, pos_y: int) -> bool {
    &&& 0 <= pos_x < (l.width - 1) * FX_ONE
    &&& 0 <= pos_y < (lattice_height(l) - 1) * FX_ONE
}

impl NoiseLattice {
    /// Creates a rectangular lattice of `width` by `height` zeroed points.
    pub fn new(width: usize, height: usize) -> (r: NoiseLattice)
        requires
            2 <= width <= 0xFFFF,
            2 <= height <= 0xFFFF,
        ensures
            lattice_ok(r),
            r.width == width,
            lattice_height(r) == height,
            forall|i: int| 0 <= i < r.points@.len()
                ==> #[trigger] r.points@[i] == (NoiseLatticePoint { inf_vec_x: 0, inf_vec_y: 0 }),
    {
        proof {
            assert(0 < width * height <= 0xFFFF_FFFFusize) by (nonlinear_arith)
                requires 2 <= width <= 0xFFFF && 2 <= height <= 0xFFFF;
        }
        let n = width * height;
        let mut points: Vec<NoiseLatticePoint> = Vec::new();
        let mut i: usize = 0;
        while i < n
            invariant
                i <= n,
                points@.len() == i,
                forall|j: int| 0 <= j < i
                    ==> #[trigger] points@[j] == (NoiseLatticePoint { inf_vec_x: 0, inf_vec_y: 0 }),
            decreases n - i,
        {
            points.push(NoiseLatticePoint { inf_vec_x: 0, inf_vec_y: 0 });
            i += 1;
        }
        proof {
            vstd::arithmetic::div_mod::lemma_mod_multiples_basic(height as int, width as int);
            assert(width * height == height * width) by (nonlinear_arith);
            vstd::arithmetic::div_mod::lemma_div_by_multiple(height as int, width as int);
        }
        NoiseLattice { points, width }
    }

    /// Gets the width of the lattice in points.
    pub fn get_width(&self) -> (r: usize)
        ensures
            r == self.width,
    {
        self.width
    }

    /// Gets the height of the lattice in points.
    pub fn get_height(&self) -> (r: usize)
        requires
            self.width > 0,
        ensures
            r == lattice_height(*self),
    {
        proof {
            lemma_div_pos_is_pos(self.points@.len() as int, self.width as int);
        }
        self.points.len() / self.width
    }

    /// Gets the corners of the square tile at quad coordinates `(qx, qy)`.
    pub fn corners_at_quad(&self, qx: usize, qy: usize) -> (r: LatticeQuadCorners)
        requires
            lattice_ok(*self),
            qx + 1 < self.width,
            qy + 1 < lattice_height(*self),
        ensures
            r == corners_of(*self, qx as int, qy as int),
            quad_ok(r),
    {
        proof {
            lemma_fundamental_div_mod(self.points@.len() as int, self.width as int);
            lemma_mul_inequality(qy as int + 2, lattice_height(*self), self.width as int);
            assert((qy + 2) * self.width == qy * self.width + 2 * self.width) by (nonlinear_arith);
            assert((qy + 1) * self.width == qy * self.width + self.width) by (nonlinear_arith);
            assert(lattice_height(*self) * self.width == self.width * lattice_height(*self)) by (nonlinear_arith);
        }
        let c_nw = qx + qy * self.width;
        let c_sw = qx + (qy + 1) * self.width;
        LatticeQuadCorners {
            nw: self.points[c_nw],
            ne: self.points[c_nw + 1],
            sw: self.points[c_sw],
            se: self.points[c_sw + 1],
        }
    }

    /// Randomizes the gradient vectors of the lattice points: afterwards,
    /// every point is the gradient of some draw of random bits, so every
    /// point carries a unit-length (within truncation) gradient.
    pub fn randomize(&mut self)
        requires
            lattice_ok(*old(self)),
        ensures
            lattice_ok(*final(self)),
            final(self).width == old(self).width,
            final(self).points@.len() == old(self).points@.len(),
            forall|j: int| 0 <= j < final(self).points@.len()
                ==> drawn_gradient(#[trigger] final(self).points@[j]),
    {
        let n = self.points.len();
        let mut i: usize = 0;
        while i < n
            invariant
                i <= n,
                n == self.points@.len(),
                self.width == old(self).width,
                self.points@.len() == old(self).points@.len(),
                lattice_ok(*old(self)),
                forall|j: int| 0 <= j < n ==> lattice_point_ok(#[trigger] self.points@[j]),
                forall|j: int| 0 <= j < i ==> drawn_gradient(#[trigger] self.points@[j]),
            decreases n - i,
        {
            let mut p = self.points[i];
            let bits = random_bits();
            p.randomize_from_bits(bits);
            self.points.set(i, p);
            proof {
                assert(self.points@[i as int] == gradient_of_bits(bits));
                assert(drawn_gradient(self.points@[i as int]));
            }
            i += 1;
        }
    }

    /// Gets the noise value at the given fixed-point input coordinates.
    ///
    /// Coordinates are normalized so that tile corners sit on whole numbers:
    /// the northwest quad spans the unit square at the origin.
    pub fn get_influence_at(&self, pos_x: i64, pos_y: i64) -> (r: i64)
        requires
            lattice_ok(*self),
            lattice_can_sample(*self, pos_x as int, pos_y as int),
        ensures
            r == lattice_influence(*self, pos_x as int, pos_y as int),
            -2 * FX_ONE <= r <= 2 * FX_ONE,
    {
        proof {
            lemma_fundamental_div_mod(pos_x as int, FX_ONE as int);
            lemma_fundamental_div_mod(pos_y as int, FX_ONE as int);
            lemma_div_bound_strict(pos_x as int, self.width as int - 1);
            lemma_div_bound_strict(pos_y as int, lattice_height(*self) - 1);
        }
        let quad_x = (pos_x / FX_ONE) as usize;
        let quad_y = (pos_y / FX_ONE) as usize;
        let inner_x = pos_x % FX_ONE;
        let inner_y = pos_y % FX_ONE;
        self.corners_at_quad(quad_x, quad_y).influence_at(inner_x, inner_y)
    }
}

/// A nonnegative position strictly under `bound` whole units lands strictly
/// under `bound` when divided down to whole units.
pub proof fn lemma_div_bound_strict(pos: int, bound: int)
    requires
        0 <= pos < bound * FX_ONE,
        bound >= 1,
    ensures
        0 <= pos / (FX_ONE as int) < bound,
{
    lemma_div_pos_is_pos(pos, FX_ONE as int);
    lemma_tdiv_ordered(pos, bound * FX_ONE - 1, FX_ONE as int);
    lemma_fundamental_div_mod(bound * FX_ONE - 1, FX_ONE as int);
    if pos / (FX_ONE as int) >= bound {
        lemma_mul_inequality(bound, pos / (FX_ONE as int), FX_ONE as int);
        lemma_fundamental_div_mod(pos, FX_ONE as int);
        assert((pos / (FX_ONE as int)) * FX_ONE == FX_ONE * (pos / (FX_ONE as int))) by (nonlinear_arith);
        assert(bound * FX_ONE <= (pos / (FX_ONE as int)) * FX_ONE);
    }
}

/// One frequency layer of fractal noise: a lattice at `2^octave` times the
/// base frequency, contributing at `2^-octave` amplitude.
#[derive(Clone, Debug)]
pub struct FractalNoiseOctave {
    /// The lattice of this layer.
    pub lattice: NoiseLattice,

    /// The octave number: each octave doubles frequency and halves
    /// amplitude.
    pub octave: u16,

    /// The frequency multiplier, `2^octave`, as a raw count.
    pub span: i64,
}

/// A well-formed octave layer over a noise field of `w_units` by `h_units`
/// whole units: the lattice has exactly `2^octave` quads per unit.
pub open spec fn octave_ok(o: FractalNoiseOctave, w_units: int, h_units: int) -> bool {
    &&& lattice_ok(o.lattice)
    &&& o.octave <= 20
    &&& o.span == vstd::arithmetic::power2::pow2(o.octave as nat)
    &&& o.lattice.width - 1 == w_units * o.span
    &&& lattice_height(o.lattice) - 1 == h_units * o.span
}

/// The contribution of one octave layer at a position: the lattice sampled
/// at `2^octave` frequency, scaled down by `2^octave`.
pub open spec fn octave_influence(o: FractalNoiseOctave, pos_x: int, pos_y: int) -> int {
    tdiv(lattice_influence(o.lattice, pos_x * o.span, pos_y * o.span), o.span as int)
}

impl FractalNoiseOctave {
    /// Gets this layer's contribution at the given coordinates.
    pub fn get_influence_at(&self, pos_x: i64, pos_y: i64, dims: Ghost<(int, int)>) -> (r: i64)
        requires
            octave_ok(*self, dims@.0, dims@.1),
            0 <= pos_x < dims@.0 * FX_ONE,
            0 <= pos_y < dims@.1 * FX_ONE,
            dims@.0 * FX_ONE <= 1000 * FX_ONE,
            dims@.1 * FX_ONE <= 1000 * FX_ONE,
        ensures
            r == octave_influence(*self, pos_x as int, pos_y as int),
            -2 * FX_ONE <= r <= 2 * FX_ONE,
    {
        proof {
            vstd::arithmetic::power2::lemma_pow2_pos(self.octave as nat);
            lemma_pow2_le20(self.octave as nat);
            lemma_octave_scale(dims@.0, self.span as int, pos_x as int);
            lemma_octave_scale(dims@.1, self.span as int, pos_y as int);
        }
        let sx = pos_x * self.span;
        let sy = pos_y * self.span;
        let raw = self.lattice.get_influence_at(sx, sy);
        proof {
            lemma_tdiv_range(raw as int, self.span as int);
            lemma_tdiv_ordered(raw as int, 2 * FX_ONE, self.span as int);
            lemma_tdiv_ordered(-2 * FX_ONE, raw as int, self.span as int);
            lemma_tdiv_range(2 * FX_ONE, self.span as int);
            lemma_tdiv_range(-2 * FX_ONE, self.span as int);
            lemma_tdiv_neg(2 * FX_ONE, self.span as int);
        }
        raw / self.span
    }
}

/// Scaling a position strictly inside `u` whole units by a positive span
/// keeps it strictly inside `u * span` whole units, within bounded range.
pub proof fn lemma_octave_scale(u: int, span: int, pos: int)
    requires
        0 <= pos < u * FX_ONE,
        0 < span <= 0x100000,
        u * FX_ONE <= 1000 * FX_ONE,
    ensures
        0 <= pos * span < (u * span) * FX_ONE,
        pos * span <= 1000 * FX_ONE * 0x100000,
{
    assert(0 <= pos * span) by (nonlinear_arith)
        requires 0 <= pos && 0 < span;
    assert(pos * span < (u * FX_ONE) * span) by (nonlinear_arith)
        requires pos < u * FX_ONE && span > 0;
    assert((u * FX_ONE) * span == (u * span) * FX_ONE) by (nonlinear_arith);
    assert(pos * span <= 1000 * FX_ONE * 0x100000) by (nonlinear_arith)
        requires 0 <= pos < u * FX_ONE && u * FX_ONE <= 1000 * FX_ONE && 0 < span <= 0x100000;
}

/// A lattice's noise value at a samplable position is at most two units in
/// magnitude.
pub proof fn lemma_lattice_influence_bound(l: NoiseLattice, pos_x: int, pos_y: int)
    requires
        lattice_ok(l),
        lattice_can_sample(l, pos_x, pos_y),
    ensures
        -2 * FX_ONE <= lattice_influence(l, pos_x, pos_y) <= 2 * FX_ONE,
{
    let s = FX_ONE as int;
    lemma_div_bound_strict(pos_x, l.width as int - 1);
    lemma_div_bound_strict(pos_y, lattice_height(l) - 1);
    let qx = pos_x / s;
    let qy = pos_y / s;
    lemma_fundamental_div_mod(l.points@.len() as int, l.width as int);
    lemma_mul_inequality(qy + 2, lattice_height(l), l.width as int);
    assert((qy + 2) * l.width == qy * l.width + 2 * l.width) by (nonlinear_arith);
    assert((qy + 1) * l.width == qy * l.width + l.width) by (nonlinear_arith);
    assert(lattice_height(l) * l.width == l.width * lattice_height(l)) by (nonlinear_arith);
    lemma_fundamental_div_mod(pos_x, s);
    lemma_fundamental_div_mod(pos_y, s);
    lemma_quad_influence_bound(corners_of(l, qx, qy), pos_x % s, pos_y % s);
}

/// Fractal noise: a stack of noise lattices, each at double the frequency
/// and half the amplitude of the previous one.
#[derive(Clone, Debug)]
pub struct FractalNoise {
    /// The bound on input X coordinates, in fixed-point whole units.
    pub width: i64,

    /// The bound on input Y coordinates, in fixed-point whole units.
    pub height: i64,

    /// The stacked octave layers.
    pub octaves: Vec<FractalNoiseOctave>,

    /// The highest octave number stacked so far, or -1 for none.
    pub max_octave: i32,
}

/// A well-formed fractal noise field: whole-unit bounds of at least one and
/// at most a thousand units per axis, and consistently-sized octave layers.
pub open spec fn fractal_ok(f: FractalNoise) -> bool {
    &&& FX_ONE <= f.width <= 1000 * FX_ONE
    &&& FX_ONE <= f.height <= 1000 * FX_ONE
    &&& f.width as int % (FX_ONE as int) == 0
    &&& f.height as int % (FX_ONE as int) == 0
    &&& f.octaves@.len() <= 64
    &&& -1 <= f.max_octave <= 20
    &&& forall|i: int| 0 <= i < f.octaves@.len()
        ==> octave_ok(#[trigger] f.octaves@[i], f.width as int / (FX_ONE as int), f.height as int / (FX_ONE as int))
            && f.octaves@[i].octave <= f.max_octave
}

/// The total fractal noise value: the sum of every layer's contribution.
pub open spec fn fractal_influence(os: Seq<FractalNoiseOctave>, pos_x: int, pos_y: int) -> int
    decreases os.len(),
{
    if os.len() == 0 {
        0
    } else {
        fractal_influence(os.drop_last(), pos_x, pos_y) + octave_influence(os.last(), pos_x, pos_y)
    }
}

/// **Fractal noise convergence.** Adding one octave layer changes the total
/// influence by exactly that layer's contribution, and a layer at octave `k`
/// contributes no more than two units divided by `2^k`: ever finer octaves
/// change the sampled noise by ever smaller amounts.
pub proof fn lemma_fractal_octave_convergence(
    os: Seq<FractalNoiseOctave>,
    o: FractalNoiseOctave,
    w_units: int,
    h_units: int,
    pos_x: int,
    pos_y: int,
)
    requires
        octave_ok(o, w_units, h_units),
        0 <= pos_x < w_units * FX_ONE,
        0 <= pos_y < h_units * FX_ONE,
        w_units <= 1000,
        h_units <= 1000,
    ensures
        fractal_influence(os.push(o), pos_x, pos_y)
            == fractal_influence(os, pos_x, pos_y) + octave_influence(o, pos_x, pos_y),
        -tdiv(2 * FX_ONE, o.span as int) <= octave_influence(o, pos_x, pos_y)
            <= tdiv(2 * FX_ONE, o.span as int),
{
    assert(os.push(o).drop_last() =~= os);
    assert(os.push(o).last() == o);
    vstd::arithmetic::power2::lemma_pow2_pos(o.octave as nat);
    lemma_pow2_le20(o.octave as nat);
    assert(w_units * FX_ONE <= 1000 * FX_ONE) by (nonlinear_arith)
        requires w_units <= 1000 && FX_ONE > 0;
    assert(h_units * FX_ONE <= 1000 * FX_ONE) by (nonlinear_arith)
        requires h_units <= 1000 && FX_ONE > 0;
    lemma_octave_scale(w_units, o.span as int, pos_x);
    lemma_octave_scale(h_units, o.span as int, pos_y);
    lemma_lattice_influence_bound(o.lattice, pos_x * o.span, pos_y * o.span);
    let raw = lattice_influence(o.lattice, pos_x * o.span, pos_y * o.span);
    lemma_tdiv_ordered(raw, 2 * FX_ONE, o.span as int);
    lemma_tdiv_ordered(-2 * FX_ONE, raw, o.span as int);
    lemma_tdiv_neg(2 * FX_ONE, o.span as int);
}

/// A new octave layer's lattice fits the machine: at most `0xFFFF` points
/// per axis.
pub open spec fn noise_fits(f: FractalNoise, octave: int) -> bool {
    &&& (f.width as int / (FX_ONE as int)) * vstd::arithmetic::power2::pow2(octave as nat) + 1 <= 0xFFFF
    &&& (f.height as int / (FX_ONE as int)) * vstd::arithmetic::power2::pow2(octave as nat) + 1 <= 0xFFFF
}

/// The octave number the next added layer takes: one past the finest layer,
/// or zero on an empty stack.
pub open spec fn next_octave_start(f: FractalNoise) -> int {
    if f.max_octave < 0 {
        0
    } else {
        f.max_octave + 1
    }
}

/// A coarser octave fits whenever a finer one does.
pub proof fn lemma_fits_monotone(f: FractalNoise, o1: int, o2: int)
    requires
        fractal_ok(f),
        0 <= o1 <= o2,
        noise_fits(f, o2),
    ensures
        noise_fits(f, o1),
{
    let wu = f.width as int / (FX_ONE as int);
    let hu = f.height as int / (FX_ONE as int);
    lemma_fundamental_div_mod(f.width as int, FX_ONE as int);
    lemma_fundamental_div_mod(f.height as int, FX_ONE as int);
    lemma_div_pos_is_pos(f.width as int, FX_ONE as int);
    lemma_div_pos_is_pos(f.height as int, FX_ONE as int);
    if o1 < o2 {
        vstd::arithmetic::power2::lemma_pow2_strictly_increases(o1 as nat, o2 as nat);
    }
    vstd::arithmetic::power2::lemma_pow2_pos(o1 as nat);
    assert(wu * vstd::arithmetic::power2::pow2(o1 as nat)
        <= wu * vstd::arithmetic::power2::pow2(o2 as nat)) by (nonlinear_arith)
        requires wu >= 0
            && vstd::arithmetic::power2::pow2(o1 as nat) <= vstd::arithmetic::power2::pow2(o2 as nat);
    assert(hu * vstd::arithmetic::power2::pow2(o1 as nat)
        <= hu * vstd::arithmetic::power2::pow2(o2 as nat)) by (nonlinear_arith)
        requires hu >= 0
            && vstd::arithmetic::power2::pow2(o1 as nat) <= vstd::arithmetic::power2::pow2(o2 as nat);
}

impl FractalNoise {
    /// Creates a fractal noise generator over the given whole-unit
    /// boundaries for the input coordinates.
    pub fn new(width: i64, height: i64) -> (r: FractalNoise)
        requires
            FX_ONE <= width <= 1000 * FX_ONE,
            FX_ONE <= height <= 1000 * FX_ONE,
            width as int % (FX_ONE as int) == 0,
            height as int % (FX_ONE as int) == 0,
        ensures
            fractal_ok(r),
            r.width == width,
            r.height == height,
            r.octaves@.len() == 0,
            r.max_octave == -1,
    {
        FractalNoise { width, height, octaves: Vec::new(), max_octave: -1 }
    }

    /// Get the width of the input coordinate boundary; that is, the maximum
    /// X coordinate.
    pub fn get_width(&self) -> (r: i64)
        ensures
            r == self.width,
    {
        self.width
    }

    /// Get the height of the input coordinate boundary; that is, the maximum
    /// Y coordinate.
    pub fn get_height(&self) -> (r: i64)
        ensures
            r == self.height,
    {
        self.height
    }

    /// How many octave layers have been stacked so far.
    pub fn octave_count(&self) -> (r: usize)
        ensures
            r == self.octaves@.len(),
    {
        self.octaves.len()
    }

    /// Build one zeroed octave layer of the right lattice size.
    fn make_octave(&self, octave: u16) -> (r: FractalNoiseOctave)
        requires
            fractal_ok(*self),
            octave <= 20,
            noise_fits(*self, octave as int),
        ensures
            octave_ok(r, self.width as int / (FX_ONE as int), self.height as int / (FX_ONE as int)),
            r.octave == octave,
    {
        let mut span: i64 = 1;
        let mut k: u16 = 0;
        proof {
            vstd::arithmetic::power2::lemma2_to64();
        }
        while k < octave
            invariant
                k <= octave <= 20,
                span == vstd::arithmetic::power2::pow2(k as nat),
                1 <= span <= 0x100000,
            decreases octave - k,
        {
            proof {
                lemma_pow2_le20(k as nat + 1);
                vstd::arithmetic::power2::lemma_pow2_adds(k as nat, 1nat);
                vstd::arithmetic::power2::lemma2_to64();
            }
            span = span * 2;
            k += 1;
        }
        let w_units = (self.width / FX_ONE) as usize;
        let h_units = (self.height / FX_ONE) as usize;
        proof {
            lemma_fundamental_div_mod(self.width as int, FX_ONE as int);
            lemma_fundamental_div_mod(self.height as int, FX_ONE as int);
            lemma_div_pos_is_pos(self.width as int, FX_ONE as int);
            lemma_div_pos_is_pos(self.height as int, FX_ONE as int);
            lemma_unit_count_range(self.width as int);
            lemma_unit_count_range(self.height as int);
            assert(1 <= w_units * (span as int)) by (nonlinear_arith)
                requires 1 <= w_units && 1 <= span;
            assert(1 <= h_units * (span as int)) by (nonlinear_arith)
                requires 1 <= h_units && 1 <= span;
        }
        let ow = w_units * (span as usize) + 1;
        let oh = h_units * (span as usize) + 1;
        let lattice = NoiseLattice::new(ow, oh);
        FractalNoiseOctave { lattice, octave, span }
    }

    /// Add a layer of zeroed noise at the given octave.
    pub fn add_octave(&mut self, octave: u16)
        requires
            fractal_ok(*old(self)),
            octave <= 20,
            noise_fits(*old(self), octave as int),
            old(self).octaves@.len() < 64,
        ensures
            fractal_ok(*final(self)),
            final(self).width == old(self).width,
            final(self).height == old(self).height,
            final(self).octaves@.len() == old(self).octaves@.len() + 1,
            final(self).octaves@.drop_last() =~= old(self).octaves@,
            final(self).octaves@.last().octave == octave,
            octave_ok(final(self).octaves@.last(),
                old(self).width as int / (FX_ONE as int), old(self).height as int / (FX_ONE as int)),
    {
        let layer = self.make_octave(octave);
        self.octaves.push(layer);
        if (octave as i32) > self.max_octave {
            self.max_octave = octave as i32;
        }
    }

    /// Add a layer of noise at the given octave, with randomized gradients.
    pub fn add_random_octave(&mut self, octave: u16)
        requires
            fractal_ok(*old(self)),
            octave <= 20,
            noise_fits(*old(self), octave as int),
            old(self).octaves@.len() < 64,
        ensures
            fractal_ok(*final(self)),
            final(self).width == old(self).width,
            final(self).height == old(self).height,
            final(self).octaves@.len() == old(self).octaves@.len() + 1,
            final(self).octaves@.drop_last() =~= old(self).octaves@,
            final(self).octaves@.last().octave == octave,
            octave_ok(final(self).octaves@.last(),
                old(self).width as int / (FX_ONE as int), old(self).height as int / (FX_ONE as int)),
            forall|j: int| 0 <= j < final(self).octaves@.last().lattice.points@.len()
                ==> drawn_gradient(#[trigger] final(self).octaves@.last().lattice.points@[j]),
    {
        let mut layer = self.make_octave(octave);
        layer.lattice.randomize();
        self.octaves.push(layer);
        if (octave as i32) > self.max_octave {
            self.max_octave = octave as i32;
        }
    }

    /// Add several randomized octave layers at once: one layer for each
    /// octave from just past the finest existing layer (octave zero on an
    /// empty stack) through `num_octaves` past it, in order.
    pub fn add_many_random_octaves(&mut self, num_octaves: u16)
        requires
            fractal_ok(*old(self)),
            num_octaves >= 1,
            old(self).max_octave + num_octaves + 1 <= 20,
            old(self).octaves@.len() + num_octaves + 1 <= 64,
            noise_fits(*old(self), old(self).max_octave + num_octaves + 1),
        ensures
            fractal_ok(*final(self)),
            final(self).width == old(self).width,
            final(self).height == old(self).height,
            final(self).octaves@.len() == old(self).octaves@.len() + num_octaves + 1,
            forall|k: int| 0 <= k < old(self).octaves@.len()
                ==> #[trigger] final(self).octaves@[k] == old(self).octaves@[k],
            forall|k: int| old(self).octaves@.len() <= k < final(self).octaves@.len()
                ==> (#[trigger] final(self).octaves@[k]).octave
                    == next_octave_start(*old(self)) + (k - old(self).octaves@.len()),
    {
        let first = if self.max_octave < 0 { 0u16 } else { (self.max_octave as u16) + 1 };
        let ghost base = old(self).octaves@.len() as int;
        let mut added: u16 = 0;
        while added <= num_octaves
            invariant
                fractal_ok(*self),
                self.width == old(self).width,
                self.height == old(self).height,
                added <= num_octaves + 1,
                first == next_octave_start(*old(self)),
                first + added <= 21,
                first + num_octaves <= 20,
                base == old(self).octaves@.len() as int,
                self.octaves@.len() == base + added,
                self.octaves@.len() + (num_octaves + 1 - added) <= 64,
                noise_fits(*self, first as int + num_octaves as int),
                forall|k: int| 0 <= k < base ==> #[trigger] self.octaves@[k] == old(self).octaves@[k],
                forall|k: int| base <= k < self.octaves@.len()
                    ==> (#[trigger] self.octaves@[k]).octave == first + (k - base),
            decreases num_octaves + 1 - added,
        {
            proof {
                lemma_fits_monotone(*self, first as int + added as int,
                    first as int + num_octaves as int);
            }
            let ghost pre = self.octaves@;
            self.add_random_octave(first + added);
            proof {
                assert(forall|k: int| 0 <= k < pre.len()
                    ==> #[trigger] self.octaves@[k] == pre[k]) by {
                    assert(self.octaves@.drop_last() =~= pre);
                }
            }
            added += 1;
        }
    }

    /// Get the total noise value at the given input coordinates: the sum of
    /// every octave layer's contribution there.
    pub fn get_influence_at(&self, pos_x: i64, pos_y: i64) -> (r: i64)
        requires
            fractal_ok(*self),
            0 <= pos_x < self.width,
            0 <= pos_y < self.height,
        ensures
            r == fractal_influence(self.octaves@, pos_x as int, pos_y as int),
            -(self.octaves@.len() * 2 * FX_ONE) <= r <= self.octaves@.len() * 2 * FX_ONE,
    {
        proof {
            lemma_fundamental_div_mod(self.width as int, FX_ONE as int);
            lemma_fundamental_div_mod(self.height as int, FX_ONE as int);
            lemma_unit_count_range(self.width as int);
            lemma_unit_count_range(self.height as int);
        }
        let ghost wu = self.width as int / (FX_ONE as int);
        let ghost hu = self.height as int / (FX_ONE as int);
        let n = self.octaves.len();
        let mut acc: i64 = 0;
        let mut i: usize = 0;
        while i < n
            invariant
                i <= n,
                n == self.octaves@.len() <= 64,
                fractal_ok(*self),
                0 <= pos_x < self.width,
                0 <= pos_y < self.height,
                wu == self.width as int / (FX_ONE as int),
                hu == self.height as int / (FX_ONE as int),
                wu * FX_ONE == self.width,
                hu * FX_ONE == self.height,
                1 <= wu <= 1000 && 1 <= hu <= 1000,
                acc == fractal_influence(self.octaves@.take(i as int), pos_x as int, pos_y as int),
                -(i * 2 * FX_ONE) <= acc <= i * 2 * FX_ONE,
            decreases n - i,
        {
            proof {
                assert(self.octaves@.take(i as int + 1).drop_last() =~= self.octaves@.take(i as int));
                assert(self.octaves@.take(i as int + 1).last() == self.octaves@[i as int]);
            }
            let layer_inf = self.octaves[i].get_influence_at(pos_x, pos_y, Ghost((wu, hu)));
            acc = acc + layer_inf;
            i += 1;
        }
        proof {
            assert(self.octaves@.take(n as int) =~= self.octaves@);
        }
        acc
    }
}

/// A whole-unit scalar between one and a thousand units counts between 1 and
/// 1000 units, and the count scales back exactly.
pub proof fn lemma_unit_count_range(w: int)
    requires
        FX_ONE <= w <= 1000 * FX_ONE,
        w % (FX_ONE as int) == 0,
    ensures
        1 <= w / (FX_ONE as int) <= 1000,
        (w / (FX_ONE as int)) * FX_ONE == w,
{
    lemma_fundamental_div_mod(w, FX_ONE as int);
    lemma_div_pos_is_pos(w, FX_ONE as int);
    vstd::arithmetic::div_mod::lemma_div_is_ordered(w, 1000 * FX_ONE, FX_ONE as int);
    lemma_tdiv_exact(1000, FX_ONE as int);
    assert(1000 * FX_ONE == FX_ONE * 1000) by (nonlinear_arith);
    if w / (FX_ONE as int) < 1 {
        assert(FX_ONE * (w / (FX_ONE as int)) <= 0) by (nonlinear_arith)
            requires w / (FX_ONE as int) <= 0 && FX_ONE > 0;
    }
    assert((w / (FX_ONE as int)) * FX_ONE == FX_ONE * (w / (FX_ONE as int))) by (nonlinear_arith);
}

/// Powers of two up to the twentieth stay under `0x100000`.
pub proof fn lemma_pow2_le20(e: nat)
    requires
        e <= 20,
    ensures
        0 < vstd::arithmetic::power2::pow2(e) <= 0x100000,
{
    vstd::arithmetic::power2::lemma_pow2_pos(e);
    vstd::arithmetic::power2::lemma2_to64();
    if e < 20 {
        vstd::arithmetic::power2::lemma_pow2_strictly_increases(e, 20nat);
    }
}

} // verus!
