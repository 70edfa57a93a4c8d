//! Terrain buffer: a sampled heightmap grid that can answer height, gradient
//! and normal queries, and be triangulated into a mesh.

use vstd::prelude::*;

verus! {

use crate::{FX_ONE, FX_LIM};
use crate::fx::{
    tdiv, fx_mul, fx_div, fx_ok, fx_div64, fx_mul64,
    lemma_tdiv_ordered, lemma_tdiv_range, lemma_tdiv_exact,
};
use crate::math::{lerp_fx, lerp, lemma_lerp_bounds};
use crate::vec3::{Vec3, vd_ok, unit_of};
use crate::terrain::generator::{
    TerrainGenerator, TerrainModulatorAlgorithm, DistanceCollector, generator_ok, generator_height,
    center_distances,
};
use crate::terrain::noise::fractal_influence;
use vstd::arithmetic::div_mod::{lemma_fundamental_div_mod, lemma_div_pos_is_pos};
use vstd::arithmetic::mul::lemma_mul_inequality;

/// The offset used for finite-difference gradient sampling: one ten
/// thousandth of a world unit.
pub const SAMPLE_EPSILON: i64 = 100;

/// A terrain buffer: a heightmap sampled on a regular grid, with the spacing
/// between samples and the range of held values.
#[derive(Clone, Debug)]
pub struct TerrainBuffer {
    /// The spacing, in world units, between vertices.
    pub resolution: i64,

    /// The width of the 2D heightmap sample array.
    pub width: usize,

    /// The height of the 2D heightmap sample array.
    pub height: usize,

    /// The data of the 2D heightmap sample array, row after row.
    pub values: Vec<i64>,

    /// The lower bound of the values that this buffer holds.
    pub height_range_low: i64,

    /// The upper bound of the values that this buffer holds.
    pub height_range_high: i64,
}

/// A well-formed buffer: a grid of at least two samples per axis, whole
/// rows, in-range values, and a positive resolution small enough that the
/// whole extent stays in range.
pub open spec fn buffer_ok(b: TerrainBuffer) -> bool {
    &&& 2 <= b.width <= 0x4000
    &&& 2 <= b.height <= 0x4000
    &&& b.values@.len() == b.width * b.height
    &&& FX_ONE <= b.resolution
    &&& b.width * b.resolution <= FX_LIM
    &&& b.height * b.resolution <= FX_LIM
    &&& (forall|i: int| 0 <= i < b.values@.len() ==> fx_ok(#[trigger] b.values@[i] as int))
    &&& b.height_range_low <= b.height_range_high
}

/// The stored sample at grid coordinates `(x, y)`.
pub open spec fn value_at(b: TerrainBuffer, x: int, y: int) -> int {
    b.values@[y * b.width + x] as int
}

/// A position maps into the sample grid: its grid-space image is between the
/// first and last sample on both axes.
pub open spec fn can_query(b: TerrainBuffer, pos_x: int, pos_y: int) -> bool {
    &&& 0 <= fx_div(pos_x, b.resolution as int) <= (b.width - 1) * FX_ONE
    &&& 0 <= fx_div(pos_y, b.resolution as int) <= (b.height - 1) * FX_ONE
}

/// The bilinearly interpolated height at a position: the four neighboring
/// samples blended by the position's fractional offsets in its grid cell.
pub open spec fn buffer_height_at(b: TerrainBuffer, pos_x: int, pos_y: int) -> int {
    let s = FX_ONE as int;
    let mx = fx_div(pos_x, b.resolution as int);
    let my = fx_div(pos_y, b.resolution as int);
    let x0 = mx / s;
    let y0 = my / s;
    let fx_ = mx % s;
    let fy_ = my % s;
    let x1 = if fx_ == 0 { x0 } else { x0 + 1 };
    let y1 = if fy_ == 0 { y0 } else { y0 + 1 };
    let north = lerp_fx(value_at(b, x0, y0), value_at(b, x1, y0), fx_);
    let south = lerp_fx(value_at(b, x0, y1), value_at(b, x1, y1), fx_);
    lerp_fx(north, south, fy_)
}

/// One axis of the finite-difference gradient at a position.
pub open spec fn gradient_axis(base: int, sample: int) -> int {
    fx_div(sample - base, SAMPLE_EPSILON as int)
}

/// The gradient samples flip direction when a forward sample would leave the
/// grid: near the far boundary the finite difference is taken backwards.
pub open spec fn grad_flip(b: TerrainBuffer, pos_x: int, pos_y: int) -> bool {
    ||| fx_div(pos_x + SAMPLE_EPSILON, b.resolution as int) > (b.width - 1) * FX_ONE
    ||| fx_div(pos_y + SAMPLE_EPSILON, b.resolution as int) > (b.height - 1) * FX_ONE
}

/// The X axis of the finite-difference gradient, its sample direction
/// flipped near the grid boundary to stay in-bounds.
pub open spec fn gradient_x_of(b: TerrainBuffer, pos_x: int, pos_y: int) -> int {
    let base = buffer_height_at(b, pos_x, pos_y);
    if grad_flip(b, pos_x, pos_y) {
        -gradient_axis(base, buffer_height_at(b, pos_x - SAMPLE_EPSILON, pos_y))
    } else {
        gradient_axis(base, buffer_height_at(b, pos_x + SAMPLE_EPSILON, pos_y))
    }
}

/// The Y axis of the finite-difference gradient, its sample direction
/// flipped near the grid boundary to stay in-bounds.
pub open spec fn gradient_y_of(b: TerrainBuffer, pos_x: int, pos_y: int) -> int {
    let base = buffer_height_at(b, pos_x, pos_y);
    if grad_flip(b, pos_x, pos_y) {
        -gradient_axis(base, buffer_height_at(b, pos_x, pos_y - SAMPLE_EPSILON))
    } else {
        gradient_axis(base, buffer_height_at(b, pos_x, pos_y + SAMPLE_EPSILON))
    }
}

/// Mapping an in-range coordinate to grid space stays in 64-bit range.
pub proof fn lemma_local_map(lx: int, resolution: int)
    requires
        0 <= lx <= 2 * FX_LIM + SAMPLE_EPSILON,
        FX_ONE <= resolution,
    ensures
        0 <= fx_div(lx, resolution) <= 2 * FX_LIM + SAMPLE_EPSILON,
{
    lemma_tdiv_range(lx * FX_ONE, resolution);
    vstd::arithmetic::div_mod::lemma_div_is_ordered_by_denominator(
        lx * FX_ONE, FX_ONE as int, resolution);
    lemma_tdiv_exact(lx, FX_ONE as int);
    assert(lx * FX_ONE == FX_ONE * lx) by (nonlinear_arith);
}

impl TerrainBuffer {
    pub fn get_vertex_width(&self) -> (r: usize)
        ensures
            r == self.width,
    {
        self.width
    }

    pub fn get_vertex_height(&self) -> (r: usize)
        ensures
            r == self.height,
    {
        self.height
    }

    /// The real extent along X: samples times spacing.
    pub fn get_real_width(&self) -> (r: i64)
        requires
            buffer_ok(*self),
        ensures
            r == self.width * self.resolution,
    {
        proof {
            assert(0 <= self.width * self.resolution) by (nonlinear_arith)
                requires self.width >= 0 && self.resolution >= 0;
        }
        (self.width as i64) * self.resolution
    }

    /// The real extent along Y (the Z world axis): samples times spacing.
    pub fn get_real_height(&self) -> (r: i64)
        requires
            buffer_ok(*self),
        ensures
            r == self.height * self.resolution,
    {
        proof {
            assert(0 <= self.height * self.resolution) by (nonlinear_arith)
                requires self.height >= 0 && self.resolution >= 0;
        }
        (self.height as i64) * self.resolution
    }

    /// The range of values this buffer holds: low and high bound.
    pub fn get_vertical_height_range(&self) -> (r: (i64, i64))
        ensures
            r.0 == self.height_range_low,
            r.1 == self.height_range_high,
    {
        (self.height_range_low, self.height_range_high)
    }

    /// The span of the held value range.
    pub fn get_vertical_height_span(&self) -> (r: i64)
        requires
            buffer_ok(*self),
            fx_ok(self.height_range_low as int),
            fx_ok(self.height_range_high as int),
        ensures
            r == self.height_range_high - self.height_range_low,
    {
        self.height_range_high - self.height_range_low
    }

    /// How many triangles this buffer meshes into: two per grid cell.
    pub fn get_num_tris(&self) -> (r: usize)
        requires
            buffer_ok(*self),
        ensures
            r == (self.width - 1) * (self.height - 1) * 2,
    {
        proof {
            assert(0 <= (self.width - 1) * (self.height - 1) * 2 < 0x2000_0000) by (nonlinear_arith)
                requires 2 <= self.width <= 0x4000 && 2 <= self.height <= 0x4000;
        }
        (self.width - 1) * (self.height - 1) * 2
    }

    /// The stored sample at grid coordinates `(value_x, value_y)`.
    pub fn get_value_at(&self, value_x: usize, value_y: usize) -> (r: i64)
        requires
            buffer_ok(*self),
            value_x < self.width,
            value_y < self.height,
        ensures
            r == value_at(*self, value_x as int, value_y as int),
            fx_ok(r as int),
    {
        proof {
            lemma_grid_index(self.width as int, self.height as int, value_x as int, value_y as int);
        }
        self.values[value_y * self.width + value_x]
    }

    /// Gets the height at a point along the terrain, using bilinear
    /// interpolation of the four neighboring samples.
    ///
    /// Note that this will necessarily mismatch the triangulated mesh.
    pub fn get_height_at(&self, pos_x: i64, pos_y: i64) -> (r: i64)
        requires
            buffer_ok(*self),
            0 <= pos_x,
            0 <= pos_y,
            can_query(*self, pos_x as int, pos_y as int),
        ensures
            r == buffer_height_at(*self, pos_x as int, pos_y as int),
            fx_ok(r as int),
    {
        proof {
            lemma_tdiv_range(pos_x as int * FX_ONE, self.resolution as int);
            lemma_tdiv_range(pos_y as int * FX_ONE, self.resolution as int);
        }
        let mapped_x = fx_div64(pos_x, self.resolution);
        let mapped_y = fx_div64(pos_y, self.resolution);
        proof {
            lemma_cell_bounds(mapped_x as int, self.width as int);
            lemma_cell_bounds(mapped_y as int, self.height as int);
        }
        let x0 = (mapped_x / FX_ONE) as usize;
        let y0 = (mapped_y / FX_ONE) as usize;
        let frac_x = mapped_x % FX_ONE;
        let frac_y = mapped_y % FX_ONE;
        let x1 = if frac_x == 0 { x0 } else { x0 + 1 };
        let y1 = if frac_y == 0 { y0 } else { y0 + 1 };
        let nw = self.get_value_at(x0, y0);
        let ne = self.get_value_at(x1, y0);
        let sw = self.get_value_at(x0, y1);
        let se = self.get_value_at(x1, y1);
        let interp_n = lerp(nw, ne, frac_x);
        let interp_s = lerp(sw, se, frac_x);
        lerp(interp_n, interp_s, frac_y)
    }

    /// Calculate the gradient at the given position by finite differences,
    /// sampling a small offset along each axis: the sample direction flips
    /// near the grid boundary, so the offset samples stay in-bounds.
    pub fn get_gradient_at(&self, pos_x: i64, pos_y: i64) -> (r: (i64, i64))
        requires
            buffer_ok(*self),
            0 <= pos_x <= 2 * FX_LIM,
            0 <= pos_y <= 2 * FX_LIM,
            can_query(*self, pos_x as int, pos_y as int),
            grad_flip(*self, pos_x as int, pos_y as int)
                ==> SAMPLE_EPSILON <= pos_x && SAMPLE_EPSILON <= pos_y,
            fx_ok(gradient_x_of(*self, pos_x as int, pos_y as int)),
            fx_ok(gradient_y_of(*self, pos_x as int, pos_y as int)),
        ensures
            r.0 == gradient_x_of(*self, pos_x as int, pos_y as int),
            r.1 == gradient_y_of(*self, pos_x as int, pos_y as int),
    {
        proof {
            lemma_local_map(pos_x + SAMPLE_EPSILON, self.resolution as int);
            lemma_local_map(pos_y + SAMPLE_EPSILON, self.resolution as int);
            lemma_local_map(pos_x as int, self.resolution as int);
            lemma_local_map(pos_y as int, self.resolution as int);
        }
        let qx_max = ((self.width - 1) as i64) * FX_ONE;
        let qy_max = ((self.height - 1) as i64) * FX_ONE;
        let mxe = fx_div64(pos_x + SAMPLE_EPSILON, self.resolution);
        let mye = fx_div64(pos_y + SAMPLE_EPSILON, self.resolution);
        let flip = mxe > qx_max || mye > qy_max;
        proof {
            if flip {
                lemma_tdiv_ordered((pos_x - SAMPLE_EPSILON) * FX_ONE, pos_x as int * FX_ONE,
                    self.resolution as int);
                lemma_tdiv_ordered((pos_y - SAMPLE_EPSILON) * FX_ONE, pos_y as int * FX_ONE,
                    self.resolution as int);
                lemma_tdiv_range((pos_x - SAMPLE_EPSILON) * FX_ONE, self.resolution as int);
                lemma_tdiv_range((pos_y - SAMPLE_EPSILON) * FX_ONE, self.resolution as int);
            }
        }
        let sample_base = self.get_height_at(pos_x, pos_y);
        let sample_x = if flip {
            self.get_height_at(pos_x - SAMPLE_EPSILON, pos_y)
        } else {
            self.get_height_at(pos_x + SAMPLE_EPSILON, pos_y)
        };
        let sample_y = if flip {
            self.get_height_at(pos_x, pos_y - SAMPLE_EPSILON)
        } else {
            self.get_height_at(pos_x, pos_y + SAMPLE_EPSILON)
        };
        let gx0 = fx_div64(sample_x - sample_base, SAMPLE_EPSILON);
        let gy0 = fx_div64(sample_y - sample_base, SAMPLE_EPSILON);
        if flip {
            (-gx0, -gy0)
        } else {
            (gx0, gy0)
        }
    }

    /// Use the gradient at a position to compute a unit surface normal: the
    /// two finite-difference horizontal gradient components combined with a
    /// unit vertical component, normalized. On a flat buffer the gradient
    /// vanishes and the result is the exact unit vertical.
    pub fn get_normal_at(&self, pos_x: i64, pos_y: i64) -> (r: Vec3)
        requires
            buffer_ok(*self),
            0 <= pos_x <= 2 * FX_LIM,
            0 <= pos_y <= 2 * FX_LIM,
            can_query(*self, pos_x as int, pos_y as int),
            grad_flip(*self, pos_x as int, pos_y as int)
                ==> SAMPLE_EPSILON <= pos_x && SAMPLE_EPSILON <= pos_y,
            fx_ok(gradient_x_of(*self, pos_x as int, pos_y as int)),
            fx_ok(gradient_y_of(*self, pos_x as int, pos_y as int)),
        ensures
            r == unit_of(Vec3 {
                x: gradient_x_of(*self, pos_x as int, pos_y as int) as i64,
                y: gradient_y_of(*self, pos_x as int, pos_y as int) as i64,
                z: FX_ONE,
            }),
            -FX_ONE <= r.x <= FX_ONE && -FX_ONE <= r.y <= FX_ONE && -FX_ONE <= r.z <= FX_ONE,
    {
        let grad = self.get_gradient_at(pos_x, pos_y);
        Vec3 { x: grad.0, y: grad.1, z: FX_ONE }.normalize()
    }
}

/// A grid index computed from in-range coordinates stays within the value
/// array.
pub proof fn lemma_grid_index(w: int, h: int, x: int, y: int)
    requires
        2 <= w <= 0x7FFF,
        2 <= h <= 0x7FFF,
        0 <= x < w,
        0 <= y < h,
    ensures
        0 <= y * w + x < w * h,
        y * w + x < 0x4000_0000,
{
    assert(0 <= y * w + x < w * h && y * w + x < 0x4000_0000) by (nonlinear_arith)
        requires 2 <= w <= 0x7FFF && 2 <= h <= 0x7FFF && 0 <= x < w && 0 <= y < h;
}

/// A grid-space coordinate between the first and last sample has its cell
/// corner indices in range, the far corner included.
pub proof fn lemma_cell_bounds(m: int, count: int)
    requires
        0 <= m <= (count - 1) * FX_ONE,
        2 <= count,
    ensures
        0 <= m / (FX_ONE as int) <= count - 1,
        m % (FX_ONE as int) != 0 ==> m / (FX_ONE as int) <= count - 2,
        0 <= m % (FX_ONE as int) < FX_ONE,
    decreases 0int,
{
    let s = FX_ONE as int;
    lemma_div_pos_is_pos(m, s);
    lemma_fundamental_div_mod(m, s);
    lemma_tdiv_exact(count - 1, s);
    assert((count - 1) * s == s * (count - 1)) by (nonlinear_arith);
    lemma_tdiv_ordered(m, (count - 1) * s, s);
    if m % s != 0 && m / s > count - 2 {
        assert(m / s == count - 1);
        assert(m == s * (count - 1) + m % s);
        assert(m > (count - 1) * s);
    }
}

/// A generator extent and its grid-space image stay within 64-bit range:
/// the extent of a well-formed generator is nonnegative and at most a
/// thousand scalar limits, and walking it at a unit-or-coarser step keeps
/// the quotient below the extent.
pub proof fn lemma_extent_fits(noise_extent: int, tile: int, step: int)
    requires
        FX_ONE <= noise_extent <= 1000 * FX_ONE,
        FX_ONE <= tile <= FX_LIM,
        FX_ONE <= step,
    ensures
        0 <= fx_mul(noise_extent, tile) <= 1000 * FX_LIM,
        0 <= fx_div(fx_mul(noise_extent, tile), step) <= fx_mul(noise_extent, tile),
        0 <= grid_count(noise_extent, tile, step) <= fx_mul(noise_extent, tile),
{
    assert(0 <= noise_extent * tile) by (nonlinear_arith)
        requires noise_extent >= 0 && tile >= 0;
    lemma_tdiv_range(noise_extent * tile, FX_ONE as int);
    crate::fx::lemma_fx_mul_bound(noise_extent, tile, 1000 * FX_ONE as int, FX_LIM as int);
    lemma_tdiv_exact(1000 * FX_LIM as int, FX_ONE as int);
    assert(1000 * FX_LIM as int * FX_ONE == 1000 * FX_ONE as int * FX_LIM) by (nonlinear_arith);
    let gw = fx_mul(noise_extent, tile);
    assert(0 <= gw * FX_ONE) by (nonlinear_arith)
        requires gw >= 0 && FX_ONE > 0;
    lemma_tdiv_range(gw * FX_ONE, step);
    vstd::arithmetic::div_mod::lemma_div_is_ordered_by_denominator(gw * FX_ONE, FX_ONE as int, step);
    lemma_tdiv_exact(gw, FX_ONE as int);
    assert(gw * FX_ONE == FX_ONE * gw) by (nonlinear_arith);
    lemma_tdiv_range(fx_div(gw, step), FX_ONE as int);
}

/// A triangulated terrain mesh: vertex positions and triangle indices, two
/// triangles per grid cell, vertices listed triangle by triangle.
#[derive(Clone, Debug)]
pub struct TerrainMesh {
    /// The vertex positions, three per triangle.
    pub positions: Vec<Vec3>,

    /// The vertex normals, one per emitted vertex: the buffer's
    /// gradient-based surface normal at the vertex's grid position.
    pub normals: Vec<Vec3>,

    /// The triangle indices: consecutive, one per emitted vertex.
    pub indices: Vec<u32>,
}

/// Everything one buffer sample of a generator needs: the sample point maps
/// into the generator's noise and modulation ranges, and the scaled height
/// stays in range.
pub open spec fn sample_req<TMA: TerrainModulatorAlgorithm, DC: DistanceCollector>(
    g: TerrainGenerator<TMA, DC>,
    resolution: int,
    vert_scale: int,
    ix: int,
    iy: int,
) -> bool {
    let x = ix * resolution;
    let y = iy * resolution;
    &&& fx_ok(x) && fx_ok(y)
    &&& 0 <= fx_div(x, g.resolution as int) < g.noise.width
    &&& 0 <= fx_div(y, g.resolution as int) < g.noise.height
    &&& g.modulator.algorithm.push_req(g.modulation_params,
        g.modulator.distance_collector.spec_collect(center_distances(g.center_points@, x, y)),
        fractal_influence(g.noise.octaves@, fx_div(x, g.resolution as int),
            fx_div(y, g.resolution as int)))
    &&& fx_ok(fx_mul(generator_height(g, x, y), vert_scale))
}

/// How many samples fit along one axis when a generator extent (a noise
/// extent times the tile size) is walked at a sampling step: the floor of
/// extent over step.
pub open spec fn grid_count(noise_extent: int, tile: int, step: int) -> int {
    tdiv(fx_div(fx_mul(noise_extent, tile), step), FX_ONE as int)
}

impl TerrainBuffer {
    /// Create a new TerrainBuffer by sampling a TerrainGenerator on a
    /// regular grid of `floor(extent / sample_spacing)` steps per axis:
    /// `sample_spacing` is the sampling step in world units, `scale` the
    /// world spacing the stored grid reports, and `vert_scale` the factor
    /// heights are scaled by before storing.
    pub fn generate<TMA: TerrainModulatorAlgorithm, DC: DistanceCollector>(
        generator: &TerrainGenerator<TMA, DC>,
        sample_spacing: i64,
        scale: i64,
        vert_scale: i64,
    ) -> (r: TerrainBuffer)
        requires
            generator_ok(*generator),
            FX_ONE <= sample_spacing <= FX_LIM,
            FX_ONE <= scale,
            0 <= vert_scale <= FX_LIM,
            ({
                let w = grid_count(generator.noise.width as int, generator.resolution as int,
                    sample_spacing as int);
                let h = grid_count(generator.noise.height as int, generator.resolution as int,
                    sample_spacing as int);
                &&& 2 <= w <= 0x4000
                &&& 2 <= h <= 0x4000
                &&& w * scale <= FX_LIM
                &&& h * scale <= FX_LIM
                &&& w * sample_spacing <= FX_LIM
                &&& h * sample_spacing <= FX_LIM
                &&& forall|ix: int, iy: int| 0 <= ix < w && 0 <= iy < h
                    ==> #[trigger] sample_req(*generator, sample_spacing as int,
                        vert_scale as int, ix, iy)
            }),
        ensures
            buffer_ok(r),
            r.width == grid_count(generator.noise.width as int, generator.resolution as int,
                sample_spacing as int),
            r.height == grid_count(generator.noise.height as int, generator.resolution as int,
                sample_spacing as int),
            r.resolution == scale,
            r.height_range_low == -vert_scale && r.height_range_high == vert_scale,
            forall|ix: int, iy: int| 0 <= ix < r.width && 0 <= iy < r.height
                ==> #[trigger] r.values@[iy * r.width + ix]
                    == fx_mul(generator_height(*generator, ix * sample_spacing, iy * sample_spacing),
                        vert_scale as int),
    {
        let gw = generator.get_width();
        let gh = generator.get_height();
        proof {
            lemma_extent_fits(generator.noise.width as int, generator.resolution as int,
                sample_spacing as int);
            lemma_extent_fits(generator.noise.height as int, generator.resolution as int,
                sample_spacing as int);
        }
        let wq = fx_div64(gw, sample_spacing);
        let hq = fx_div64(gh, sample_spacing);
        let width = (wq / FX_ONE) as usize;
        let height = (hq / FX_ONE) as usize;
        proof {
            assert(width == grid_count(generator.noise.width as int, generator.resolution as int,
                sample_spacing as int));
            assert(height == grid_count(generator.noise.height as int, generator.resolution as int,
                sample_spacing as int));
            assert(0 < width * height <= 0x1000_0000) by (nonlinear_arith)
                requires 2 <= width <= 0x4000 && 2 <= height <= 0x4000;
        }
        let total = width * height;
        let mut values: Vec<i64> = Vec::new();
        let mut idx: usize = 0;
        while idx < total
            invariant
                idx <= total,
                total == width * height,
                2 <= width <= 0x4000,
                2 <= height <= 0x4000,
                generator_ok(*generator),
                FX_ONE <= sample_spacing <= FX_LIM,
                0 <= vert_scale <= FX_LIM,
                width * sample_spacing <= FX_LIM,
                height * sample_spacing <= FX_LIM,
                forall|ix: int, iy: int| 0 <= ix < width && 0 <= iy < height
                    ==> #[trigger] sample_req(*generator, sample_spacing as int, vert_scale as int, ix, iy),
                values@.len() == idx,
                forall|j: int| 0 <= j < idx ==> #[trigger] values@[j]
                    == fx_mul(generator_height(*generator,
                        (j % (width as int)) * sample_spacing,
                        (j / (width as int)) * sample_spacing), vert_scale as int),
            decreases total - idx,
        {
            let ix = idx % width;
            let iy = idx / width;
            proof {
                lemma_fundamental_div_mod(idx as int, width as int);
                vstd::arithmetic::div_mod::lemma_mod_division_less_than_divisor(idx as int, width as int);
                lemma_div_pos_is_pos(idx as int, width as int);
                assert(iy < height) by {
                    if iy >= height {
                        lemma_mul_inequality(height as int, iy as int, width as int);
                        assert(width * height == (height as int) * width) by (nonlinear_arith);
                        assert((iy as int) * width == width * (iy as int)) by (nonlinear_arith);
                    }
                }
                assert(sample_req(*generator, sample_spacing as int, vert_scale as int, ix as int, iy as int));
                assert(0 <= (ix as int) * sample_spacing <= (width as int) * sample_spacing) by (nonlinear_arith)
                    requires 0 <= ix <= width && sample_spacing > 0;
                assert(0 <= (iy as int) * sample_spacing <= (height as int) * sample_spacing) by (nonlinear_arith)
                    requires 0 <= iy <= height && sample_spacing > 0;
            }
            let x = (ix as i64) * sample_spacing;
            let y = (iy as i64) * sample_spacing;
            let raw = generator.get_height_at(x, y);
            let scaled = fx_mul64(raw, vert_scale);
            values.push(scaled);
            idx += 1;
        }
        proof {
            assert forall|ix: int, iy: int| 0 <= ix < width && 0 <= iy < height implies
                #[trigger] values@[iy * width + ix]
                    == fx_mul(generator_height(*generator, ix * sample_spacing, iy * sample_spacing),
                        vert_scale as int) by {
                lemma_grid_index(width as int, height as int, ix, iy);
                vstd::arithmetic::div_mod::lemma_fundamental_div_mod_converse(
                    iy * (width as int) + ix, width as int, iy, ix);
            }
            assert forall|i: int| 0 <= i < values@.len() implies fx_ok(#[trigger] values@[i] as int) by {
                lemma_fundamental_div_mod(i, width as int);
                vstd::arithmetic::div_mod::lemma_mod_division_less_than_divisor(i, width as int);
                lemma_div_pos_is_pos(i, width as int);
                let iy = i / (width as int);
                if iy >= height {
                    lemma_mul_inequality(height as int, iy, width as int);
                    assert(width * height == (height as int) * width) by (nonlinear_arith);
                    assert(iy * width == width * iy) by (nonlinear_arith);
                }
                assert(sample_req(*generator, sample_spacing as int, vert_scale as int,
                    i % (width as int), i / (width as int)));
            }
        }
        TerrainBuffer {
            resolution: scale,
            width,
            height,
            values,
            height_range_low: -vert_scale,
            height_range_high: vert_scale,
        }
    }
}

/// The grid corner a mesh vertex uses: even triangles wind NE, NW, SW and
/// odd triangles NE, SW, SE.
pub open spec fn mesh_corner(tri_parity: int, vert_in_tri: int) -> (int, int) {
    if tri_parity == 0 {
        if vert_in_tri == 0 { (1, 0) } else if vert_in_tri == 1 { (0, 0) } else { (0, 1) }
    } else {
        if vert_in_tri == 0 { (1, 0) } else if vert_in_tri == 1 { (0, 1) } else { (1, 1) }
    }
}

/// The position of one mesh vertex: its grid cell, corner, and the stored
/// height there, centered on the buffer's extent.
pub open spec fn mesh_vertex(b: TerrainBuffer, vidx: int) -> Vec3 {
    let tri_idx = vidx / 3;
    let vert_in_tri = vidx % 3;
    let quad_idx = tri_idx / 2;
    let quad_width = b.width - 1;
    let quad_x = quad_idx % quad_width;
    let quad_y = quad_idx / quad_width;
    let corner = mesh_corner(tri_idx % 2, vert_in_tri);
    let value_x = quad_x + corner.0;
    let value_y = quad_y + corner.1;
    let center_x = tdiv(b.width * b.resolution, 2);
    let center_y = tdiv(b.height * b.resolution, 2);
    Vec3 {
        x: (value_x * b.resolution - center_x) as i64,
        y: value_at(b, value_x, value_y) as i64,
        z: (value_y * b.resolution - center_y) as i64,
    }
}

/// The normal of one mesh vertex: the buffer's gradient-based surface
/// normal at the vertex's grid position, its vertical component mapped to
/// the mesh's up axis. The two grid corners where a flipped gradient sample
/// would leave the grid on the other axis fall back to the exact vertical.
pub open spec fn mesh_vertex_normal(b: TerrainBuffer, vidx: int) -> Vec3 {
    let tri_idx = vidx / 3;
    let vert_in_tri = vidx % 3;
    let quad_idx = tri_idx / 2;
    let quad_width = b.width - 1;
    let quad_x = quad_idx % quad_width;
    let quad_y = quad_idx / quad_width;
    let corner = mesh_corner(tri_idx % 2, vert_in_tri);
    let px = (quad_x + corner.0) * b.resolution;
    let pz = (quad_y + corner.1) * b.resolution;
    if grad_flip(b, px, pz) && (px < SAMPLE_EPSILON || pz < SAMPLE_EPSILON) {
        Vec3 { x: 0, y: FX_ONE, z: 0 }
    } else {
        let u = unit_of(Vec3 {
            x: gradient_x_of(b, px, pz) as i64,
            y: gradient_y_of(b, px, pz) as i64,
            z: FX_ONE,
        });
        Vec3 { x: u.x, y: u.z, z: u.y }
    }
}

/// The gradient components at one grid vertex stay in the working scalar
/// range, unless the vertex is one of the corner cases where the normal
/// falls back to the exact vertical.
pub open spec fn vertex_gradients_ok(b: TerrainBuffer, ix: int, iy: int) -> bool {
    let px = ix * b.resolution;
    let pz = iy * b.resolution;
    !(grad_flip(b, px, pz) && (px < SAMPLE_EPSILON || pz < SAMPLE_EPSILON))
        ==> fx_ok(gradient_x_of(b, px, pz)) && fx_ok(gradient_y_of(b, px, pz))
}

/// A grid vertex position maps back onto its own grid coordinate, within the
/// sampled extent.
pub proof fn lemma_vertex_query(vx: int, count: int, res: int)
    requires
        0 <= vx <= count - 1,
        FX_ONE <= res,
        1 <= count,
    ensures
        fx_div(vx * res, res) == vx * FX_ONE,
        0 <= vx * FX_ONE <= (count - 1) * FX_ONE,
        0 <= vx * res,
{
    lemma_tdiv_exact(vx * FX_ONE, res);
    assert((vx * res) * FX_ONE == (vx * FX_ONE) * res) by (nonlinear_arith);
    vstd::arithmetic::mul::lemma_mul_inequality(vx, count - 1, FX_ONE as int);
    assert(0 <= vx * FX_ONE) by (nonlinear_arith)
        requires vx >= 0;
    assert(0 <= vx * res) by (nonlinear_arith)
        requires vx >= 0 && res > 0;
}

/// A mesh vertex index addresses a valid grid corner.
pub proof fn lemma_mesh_indices(b: TerrainBuffer, vidx: int)
    requires
        buffer_ok(b),
        0 <= vidx < (b.width - 1) * (b.height - 1) * 2 * 3,
    ensures
        ({
            let quad_idx = (vidx / 3) / 2;
            let quad_width = b.width - 1;
            &&& 0 <= quad_idx < (b.width - 1) * (b.height - 1)
            &&& 0 <= quad_idx % quad_width < b.width - 1
            &&& 0 <= quad_idx / quad_width < b.height - 1
            &&& 0 <= vidx % 3 < 3
            &&& 0 <= (vidx / 3) % 2 < 2
        }),
{
    let qw = b.width - 1 as int;
    let qh = b.height - 1 as int;
    lemma_div_pos_is_pos(vidx, 3);
    vstd::arithmetic::div_mod::lemma_div_is_ordered(vidx, qw * qh * 2 * 3 - 1, 3);
    assert((qw * qh * 2) * 3 == qw * qh * 2 * 3) by (nonlinear_arith);
    lemma_div_exact_bound(vidx, 3, qw * qh * 2);
    let tri = vidx / 3;
    lemma_div_pos_is_pos(tri, 2);
    lemma_div_exact_bound(tri, 2, qw * qh);
    let quad = tri / 2;
    lemma_div_pos_is_pos(quad, qw);
    vstd::arithmetic::div_mod::lemma_mod_division_less_than_divisor(quad, qw);
    assert(quad / qw < qh) by {
        if quad / qw >= qh {
            lemma_fundamental_div_mod(quad, qw);
            lemma_mul_inequality(qh, quad / qw, qw);
            assert(qh * qw == qw * qh) by (nonlinear_arith);
            assert((quad / qw) * qw == qw * (quad / qw)) by (nonlinear_arith);
        }
    }
    vstd::arithmetic::div_mod::lemma_mod_division_less_than_divisor(vidx, 3);
    vstd::arithmetic::div_mod::lemma_mod_division_less_than_divisor(tri, 2);
}

/// A value strictly under `d * bound` divides down to strictly under
/// `bound`.
pub proof fn lemma_div_exact_bound(a: int, d: int, bound: int)
    requires
        0 <= a < d * bound,
        d > 0,
        bound > 0,
    ensures
        0 <= a / d < bound,
{
    lemma_div_pos_is_pos(a, d);
    if a / d >= bound {
        lemma_fundamental_div_mod(a, d);
        lemma_mul_inequality(bound, a / d, d);
        assert(bound * d == d * bound) by (nonlinear_arith);
        assert((a / d) * d == d * (a / d)) by (nonlinear_arith);
    }
}

impl TerrainBuffer {
    /// Triangulate this buffer into a mesh: two triangles per grid cell, in
    /// a fixed NE/NW/SW and NE/SW/SE winding, positions centered on the
    /// buffer's extent, with consecutive triangle indices.
    pub fn to_mesh(&self) -> (r: TerrainMesh)
        requires
            buffer_ok(*self),
            forall|ix: int, iy: int| 0 <= ix < self.width && 0 <= iy < self.height
                ==> #[trigger] vertex_gradients_ok(*self, ix, iy),
        ensures
            r.positions@.len() == (self.width - 1) * (self.height - 1) * 2 * 3,
            r.normals@.len() == r.positions@.len(),
            r.indices@.len() == r.positions@.len(),
            forall|v: int| 0 <= v < r.positions@.len()
                ==> #[trigger] r.positions@[v] == mesh_vertex(*self, v),
            forall|v: int| 0 <= v < r.normals@.len()
                ==> #[trigger] r.normals@[v] == mesh_vertex_normal(*self, v),
            forall|v: int| 0 <= v < r.indices@.len() ==> #[trigger] r.indices@[v] == v,
    {
        let num_tris = self.get_num_tris();
        proof {
            assert((self.width - 1) * (self.height - 1) * 2 * 3
                == ((self.width - 1) * (self.height - 1) * 2) * 3) by (nonlinear_arith);
            assert(0 <= (self.width - 1) * (self.height - 1) * 2 < 0x2000_0000) by (nonlinear_arith)
                requires 2 <= self.width <= 0x4000 && 2 <= self.height <= 0x4000;
        }
        let n3 = num_tris * 3;
        let quad_width = self.width - 1;
        let center_x = self.get_real_width() / 2;
        let center_y = self.get_real_height() / 2;
        let qx_max = ((self.width - 1) as i64) * FX_ONE;
        let qz_max = ((self.height - 1) as i64) * FX_ONE;
        let mut positions: Vec<Vec3> = Vec::new();
        let mut normals: Vec<Vec3> = Vec::new();
        let mut indices: Vec<u32> = Vec::new();
        let mut v: usize = 0;
        while v < n3
            invariant
                v <= n3,
                n3 == (self.width - 1) * (self.height - 1) * 2 * 3,
                n3 < 0x6000_0000,
                buffer_ok(*self),
                quad_width == self.width - 1,
                center_x == tdiv(self.width * self.resolution, 2),
                center_y == tdiv(self.height * self.resolution, 2),
                qx_max == (self.width - 1) * FX_ONE,
                qz_max == (self.height - 1) * FX_ONE,
                forall|ix: int, iy: int| 0 <= ix < self.width && 0 <= iy < self.height
                    ==> #[trigger] vertex_gradients_ok(*self, ix, iy),
                positions@.len() == v,
                normals@.len() == v,
                indices@.len() == v,
                forall|j: int| 0 <= j < v ==> #[trigger] positions@[j] == mesh_vertex(*self, j),
                forall|j: int| 0 <= j < v ==> #[trigger] normals@[j] == mesh_vertex_normal(*self, j),
                forall|j: int| 0 <= j < v ==> #[trigger] indices@[j] == j,
            decreases n3 - v,
        {
            proof {
                lemma_mesh_indices(*self, v as int);
                let quad = ((v as int) / 3) / 2;
                let qx = quad % (quad_width as int);
                let qy = quad / (quad_width as int);
                assert(0 <= qx * self.resolution <= (self.width - 1) * self.resolution) by (nonlinear_arith)
                    requires 0 <= qx <= self.width - 1 && self.resolution > 0;
                assert(0 <= (qx + 1) * self.resolution <= self.width * self.resolution) by (nonlinear_arith)
                    requires 0 <= qx + 1 <= self.width && self.resolution > 0;
                assert(0 <= qy * self.resolution <= (self.height - 1) * self.resolution) by (nonlinear_arith)
                    requires 0 <= qy <= self.height - 1 && self.resolution > 0;
                assert(0 <= (qy + 1) * self.resolution <= self.height * self.resolution) by (nonlinear_arith)
                    requires 0 <= qy + 1 <= self.height && self.resolution > 0;
                assert((self.width - 1) * self.resolution <= self.width * self.resolution) by (nonlinear_arith)
                    requires self.width >= 1 && self.resolution > 0;
                assert((self.height - 1) * self.resolution <= self.height * self.resolution) by (nonlinear_arith)
                    requires self.height >= 1 && self.resolution > 0;
                lemma_tdiv_range(self.width * self.resolution, 2);
                lemma_tdiv_range(self.height * self.resolution, 2);
            }
            let tri_idx = v / 3;
            let vert_in_tri = v % 3;
            let quad_idx = tri_idx / 2;
            let quad_x = quad_idx % quad_width;
            let quad_y = quad_idx / quad_width;
            let corner: crate::math::QuadCorner = if tri_idx % 2 == 0 {
                if vert_in_tri == 0 {
                    crate::math::QuadCorner::NE
                } else if vert_in_tri == 1 {
                    crate::math::QuadCorner::NW
                } else {
                    crate::math::QuadCorner::SW
                }
            } else {
                if vert_in_tri == 0 {
                    crate::math::QuadCorner::NE
                } else if vert_in_tri == 1 {
                    crate::math::QuadCorner::SW
                } else {
                    crate::math::QuadCorner::SE
                }
            };
            let value_x = quad_x + corner.x();
            let value_y = quad_y + corner.y();
            proof {
                lemma_vertex_query(value_x as int, self.width as int, self.resolution as int);
                lemma_vertex_query(value_y as int, self.height as int, self.resolution as int);
                lemma_local_map(value_x as int * self.resolution + SAMPLE_EPSILON,
                    self.resolution as int);
                lemma_local_map(value_y as int * self.resolution + SAMPLE_EPSILON,
                    self.resolution as int);
            }
            let px = (value_x as i64) * self.resolution;
            let pz = (value_y as i64) * self.resolution;
            let vert_x = px - center_x;
            let vert_z = pz - center_y;
            let vert_y = self.get_value_at(value_x, value_y);
            let mxe = fx_div64(px + SAMPLE_EPSILON, self.resolution);
            let mze = fx_div64(pz + SAMPLE_EPSILON, self.resolution);
            let flip = mxe > qx_max || mze > qz_max;
            let nrm = if flip && (px < SAMPLE_EPSILON || pz < SAMPLE_EPSILON) {
                Vec3 { x: 0, y: FX_ONE, z: 0 }
            } else {
                proof {
                    assert(vertex_gradients_ok(*self, value_x as int, value_y as int));
                }
                let u = self.get_normal_at(px, pz);
                Vec3 { x: u.x, y: u.z, z: u.y }
            };
            positions.push(Vec3 { x: vert_x, y: vert_y, z: vert_z });
            normals.push(nrm);
            indices.push(v as u32);
            v += 1;
        }
        TerrainMesh { positions, normals, indices }
    }
}

} // verus!
