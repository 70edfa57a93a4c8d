//! Terrain generator: fractal noise heightmaps modulated into islands.
//!
//! Heights far enough from every center point are pushed underwater. This is
//! done by a heightmap transform which forces height values down when far
//! from any of the island's 'center points'.

use vstd::prelude::*;

verus! {

use crate::{FX_ONE, FX_LIM};
use crate::fx::{
    tdiv, fx_mul, fx_div, fx_ok, isqrt,
    lemma_tdiv_ordered, lemma_tdiv_range, lemma_tdiv_exact,
    lemma_isqrt_vs,
};
use crate::math::{lerp_fx, smootherstep_fx, smoother_alpha, lerp, smootherstep,
    lemma_lerp_monotone, lemma_smoother_alpha_bounds};
use crate::terrain::noise::{FractalNoise, fractal_ok, fractal_influence};
use vstd::arithmetic::mul::lemma_mul_inequality;

/// Which spline blends the noise height toward the islandified height.
#[derive(Clone, Copy, PartialEq, Eq, Structural, Debug)]
pub enum Interpolator {
    /// The quintic smootherstep spline.
    Smootherstep,

    /// Plain linear interpolation.
    Lerp,
}

/// Some of the parameters used when modulating terrain height, without the
/// interpolator.
#[derive(Clone, Copy, PartialEq, Eq, Structural, Debug)]
pub struct BaseModulationParams {
    /// The distance around center points outside of which terrain should be
    /// underwater.
    pub max_shore_distance: i64,

    /// The radius around a center point guaranteed to stay above water.
    pub min_shore_distance: i64,

    /// How strongly to conform terrain to the island form: a blend weight in
    /// `[0, 1]` whole units. Small amounts let in more noise; large amounts
    /// conform more.
    pub islandification: i64,
}

/// The parameters used when modulating terrain height.
#[derive(Clone, Copy, PartialEq, Eq, Structural, Debug)]
pub struct ModulationParams {
    /// The distance around center points outside of which terrain should be
    /// underwater.
    pub max_shore_distance: i64,

    /// The radius around a center point guaranteed to stay above water.
    pub min_shore_distance: i64,

    /// How strongly to conform terrain to the island form: a blend weight in
    /// `[0, 1]` whole units.
    pub islandification: i64,

    /// The spline used to blend the noise height toward the 'islandified'
    /// height.
    pub interpolator: Interpolator,
}

impl BaseModulationParams {
    /// Completes into a [`ModulationParams`] by adding the interpolator.
    pub fn with_interpolator(self, interpolator: Interpolator) -> (r: ModulationParams)
        ensures
            r == (ModulationParams {
                max_shore_distance: self.max_shore_distance,
                min_shore_distance: self.min_shore_distance,
                islandification: self.islandification,
                interpolator,
            }),
    {
        ModulationParams {
            max_shore_distance: self.max_shore_distance,
            min_shore_distance: self.min_shore_distance,
            islandification: self.islandification,
            interpolator,
        }
    }
}

impl Default for ModulationParams {
    /// Reasonable defaults: a shore band from 30 to 80 units, moderate
    /// islandification, smootherstep blending.
    fn default() -> (r: Self)
        ensures
            r == (ModulationParams {
                max_shore_distance: 80_000_000,
                min_shore_distance: 30_000_000,
                islandification: 400_000,
                interpolator: Interpolator::Smootherstep,
            }),
    {
        ModulationParams {
            max_shore_distance: 80_000_000,
            min_shore_distance: 30_000_000,
            islandification: 400_000,
            interpolator: Interpolator::Smootherstep,
        }
    }
}

/// Well-formed modulation parameters: an ordered, in-range shore band and an
/// islandification blend weight within one unit.
pub open spec fn params_ok(p: ModulationParams) -> bool {
    &&& 0 <= p.min_shore_distance <= p.max_shore_distance <= FX_LIM
    &&& 0 <= p.islandification <= FX_ONE
}

/// The width of the shore interpolation band. An empty band counts as one
/// raw step, so the band calculation never divides by zero.
pub open spec fn shore_band(p: ModulationParams) -> int {
    if p.max_shore_distance - p.min_shore_distance >= 1 {
        p.max_shore_distance - p.min_shore_distance
    } else {
        1
    }
}

/// The collected distance scaled into the shore band: zero up to the minimum
/// shore distance, then growing by one unit per band width (past the maximum
/// shore distance it keeps growing beyond one).
pub open spec fn scaled_distance(p: ModulationParams, distance: int) -> int {
    if distance < p.min_shore_distance {
        0
    } else {
        fx_div(distance - p.min_shore_distance, shore_band(p))
    }
}

/// A blend by the configured interpolator.
pub open spec fn interp_of(ip: Interpolator, from: int, to: int, alpha: int) -> int {
    match ip {
        Interpolator::Smootherstep => smootherstep_fx(from, to, alpha),
        Interpolator::Lerp => lerp_fx(from, to, alpha),
    }
}

/// The modulated height: the current height blended toward the 'islandified'
/// height (one unit at the island center, falling off with distance), with
/// the result floored at one unit underwater.
pub open spec fn push_terrain_spec(p: ModulationParams, distance: int, curr_height: int) -> int {
    let islandified = FX_ONE - scaled_distance(p, distance);
    let blended = interp_of(p.interpolator, curr_height, islandified, p.islandification as int);
    if blended < -FX_ONE {
        -(FX_ONE as int)
    } else {
        blended
    }
}

/// Every intermediate of one modulation stays in the working scalar range.
pub open spec fn push_ok(p: ModulationParams, distance: int, curr_height: int) -> bool {
    &&& params_ok(p)
    &&& 0 <= distance <= 4 * FX_LIM
    &&& -FX_LIM <= curr_height <= FX_LIM
    &&& fx_ok(scaled_distance(p, distance))
    &&& fx_ok(FX_ONE - scaled_distance(p, distance))
}

/// A terrain height modulation algorithm: not knowing the actual center
/// points, it is only given the collected distance.
pub trait TerrainModulatorAlgorithm {
    /// The modulated height this algorithm computes.
    spec fn spec_push(&self, params: ModulationParams, distance: int, curr_height: int) -> int;

    /// The inputs a modulation call accepts.
    spec fn push_req(&self, params: ModulationParams, distance: int, curr_height: int) -> bool;

    /// Modulate a height based on the collected distance alone.
    fn push_terrain(&self, params: &ModulationParams, distance: i64, curr_height: i64) -> (r: i64)
        requires
            self.push_req(*params, distance as int, curr_height as int),
        ensures
            r == self.spec_push(*params, distance as int, curr_height as int),
    ;
}

/// The default terrain modulator algorithm: spline-based shore falloff.
#[derive(Clone, Copy, PartialEq, Eq, Structural, Debug)]
pub struct DefaultTerrainModulatorAlgorithm;

impl TerrainModulatorAlgorithm for DefaultTerrainModulatorAlgorithm {
    open spec fn spec_push(&self, params: ModulationParams, distance: int, curr_height: int) -> int {
        push_terrain_spec(params, distance, curr_height)
    }

    open spec fn push_req(&self, params: ModulationParams, distance: int, curr_height: int) -> bool {
        push_ok(params, distance, curr_height)
    }

    /// Use a spline to push terrain up (near a center) or down (far away).
    /// The result never sinks below one unit underwater, and never rises
    /// above the incoming height or one unit, whichever is greater.
    fn push_terrain(&self, params: &ModulationParams, distance: i64, curr_height: i64) -> (r: i64)
        ensures
            r == push_terrain_spec(*params, distance as int, curr_height as int),
            -FX_ONE <= r,
            r <= if curr_height >= FX_ONE { curr_height as int } else { FX_ONE as int },
    {
        proof {
            lemma_push_terrain_bounds(*params, distance as int, curr_height as int);
        }
        let band = if params.max_shore_distance - params.min_shore_distance >= 1 {
            params.max_shore_distance - params.min_shore_distance
        } else {
            1
        };
        let scaled = if distance < params.min_shore_distance {
            0
        } else {
            crate::fx::fx_div64(distance - params.min_shore_distance, band)
        };
        let islandified = FX_ONE - scaled;
        let blended = match params.interpolator {
            Interpolator::Smootherstep => smootherstep(curr_height, islandified, params.islandification),
            Interpolator::Lerp => lerp(curr_height, islandified, params.islandification),
        };
        if blended < -FX_ONE {
            -FX_ONE
        } else {
            blended
        }
    }
}

/// **Modulated height range.** The modulated height never sinks below one
/// unit underwater, and never rises above the incoming noise height or one
/// unit, whichever is greater. The data model aims at heights within one
/// unit either way; since octave sums are deliberately not normalized, the
/// noise term can exceed one unit, and then this bound — not a unit ceiling
/// — is what actually holds.
pub proof fn lemma_push_terrain_bounds(p: ModulationParams, distance: int, curr_height: int)
    requires
        push_ok(p, distance, curr_height),
    ensures
        -FX_ONE <= push_terrain_spec(p, distance, curr_height),
        push_terrain_spec(p, distance, curr_height)
            <= if curr_height >= FX_ONE { curr_height } else { FX_ONE as int },
{
    let islandified = FX_ONE - scaled_distance(p, distance);
    assert(scaled_distance(p, distance) >= 0) by {
        if distance >= p.min_shore_distance {
            crate::fx::lemma_tdiv_range((distance - p.min_shore_distance) * FX_ONE, shore_band(p));
            assert((distance - p.min_shore_distance) * FX_ONE >= 0) by (nonlinear_arith)
                requires distance - p.min_shore_distance >= 0 && FX_ONE > 0;
        }
    }
    match p.interpolator {
        Interpolator::Smootherstep => {
            lemma_smoother_alpha_bounds(p.islandification as int);
            crate::math::lemma_lerp_bounds(curr_height, islandified,
                smoother_alpha(p.islandification as int));
        },
        Interpolator::Lerp => {
            crate::math::lemma_lerp_bounds(curr_height, islandified, p.islandification as int);
        },
    }
}

/// **Shore modulation monotonicity.** For a fixed noise height, as the
/// collected distance from the nearest center grows, the modulated height
/// never grows: terrain interpolates from island-like toward underwater.
pub proof fn lemma_shore_modulation_monotonic(
    p: ModulationParams,
    d1: int,
    d2: int,
    curr_height: int,
)
    requires
        push_ok(p, d1, curr_height),
        push_ok(p, d2, curr_height),
        d1 <= d2,
    ensures
        push_terrain_spec(p, d2, curr_height) <= push_terrain_spec(p, d1, curr_height),
{
    let band = shore_band(p);
    assert(scaled_distance(p, d1) <= scaled_distance(p, d2)) by {
        if d1 < p.min_shore_distance {
            if d2 >= p.min_shore_distance {
                lemma_tdiv_range((d2 - p.min_shore_distance) * FX_ONE, band);
            }
        } else {
            lemma_mul_inequality(d1 - p.min_shore_distance, d2 - p.min_shore_distance, FX_ONE as int);
            lemma_tdiv_ordered((d1 - p.min_shore_distance) * FX_ONE,
                (d2 - p.min_shore_distance) * FX_ONE, band);
        }
    }
    let i1 = FX_ONE - scaled_distance(p, d1);
    let i2 = FX_ONE - scaled_distance(p, d2);
    assert(i2 <= i1);
    match p.interpolator {
        Interpolator::Smootherstep => {
            lemma_smoother_alpha_bounds(p.islandification as int);
            lemma_lerp_monotone(curr_height, i2, i1, smoother_alpha(p.islandification as int));
        },
        Interpolator::Lerp => {
            lemma_lerp_monotone(curr_height, i2, i1, p.islandification as int);
        },
    }
}

/// A center point distance collector: each center point has its own distance
/// to the queried coordinates, and a collector folds them into one.
pub trait DistanceCollector {
    /// The collected distance.
    spec fn spec_collect(&self, distances: Seq<i64>) -> int;

    /// Collects multiple distances into one. The list must not be empty:
    /// there is no distance to nowhere.
    fn collect_distances(&self, distances: &Vec<i64>) -> (r: i64)
        requires
            distances@.len() > 0,
        ensures
            r == self.spec_collect(distances@),
    ;
}

/// The smallest element of a nonempty distance list.
pub open spec fn min_distance_of(distances: Seq<i64>) -> int
    decreases distances.len(),
{
    if distances.len() <= 1 {
        distances[0] as int
    } else {
        let rest = min_distance_of(distances.drop_last());
        if distances.last() < rest {
            distances.last() as int
        } else {
            rest
        }
    }
}

/// A simple distance collector: simply pick the smallest.
#[derive(Clone, Copy, PartialEq, Eq, Structural, Debug)]
pub struct MinDistance;

impl DistanceCollector for MinDistance {
    open spec fn spec_collect(&self, distances: Seq<i64>) -> int {
        min_distance_of(distances)
    }

    /// The hard minimum of the distances.
    fn collect_distances(&self, distances: &Vec<i64>) -> (r: i64)
        ensures
            r == min_distance_of(distances@),
    {
        let mut best = distances[0];
        let n = distances.len();
        let mut i: usize = 1;
        while i < n
            invariant
                1 <= i <= n,
                n == distances@.len(),
                best == min_distance_of(distances@.take(i as int)),
            decreases n - i,
        {
            proof {
                assert(distances@.take(i as int + 1).drop_last() =~= distances@.take(i as int));
                assert(distances@.take(i as int + 1).last() == distances@[i as int]);
            }
            if distances[i] < best {
                best = distances[i];
            }
            i += 1;
        }
        proof {
            assert(distances@.take(n as int) =~= distances@);
        }
        best
    }
}

/// A center point, around which shore distances are measured for terrain
/// height modulation.
#[derive(Clone, Copy, PartialEq, Eq, Structural, Debug)]
pub struct CenterPoint {
    /// The X coordinate of the center point.
    pub pos_x: i64,

    /// The Y coordinate of the center point.
    pub pos_y: i64,

    /// The 'scale' of the center point: distances to it shrink by this
    /// factor, so larger scales make larger islands.
    pub scale: i64,
}

/// A well-formed center point: in-range coordinates and a scale of at least
/// one whole unit.
pub open spec fn center_ok(c: CenterPoint) -> bool {
    &&& fx_ok(c.pos_x as int) && fx_ok(c.pos_y as int)
    &&& FX_ONE <= c.scale <= FX_LIM
}

impl CenterPoint {
    /// Makes a new CenterPoint at the given position and with the given
    /// scale.
    pub fn new(pos_x: i64, pos_y: i64, scale: i64) -> (r: CenterPoint)
        ensures
            r == (CenterPoint { pos_x, pos_y, scale }),
    {
        CenterPoint { pos_x, pos_y, scale }
    }
}

/// The scaled distance from a query point to one center point.
pub open spec fn center_distance(c: CenterPoint, at_x: int, at_y: int) -> int {
    let dx = c.pos_x - at_x;
    let dy = c.pos_y - at_y;
    fx_div(isqrt(dx * dx + dy * dy), c.scale as int)
}

/// The scaled distances from a query point to a list of center points.
pub open spec fn center_distances(cs: Seq<CenterPoint>, at_x: int, at_y: int) -> Seq<i64>
    decreases cs.len(),
{
    if cs.len() == 0 {
        Seq::empty()
    } else {
        center_distances(cs.drop_last(), at_x, at_y).push(center_distance(cs.last(), at_x, at_y) as i64)
    }
}

/// The scaled distance to a center is nonnegative and in range, and the raw
/// distance itself stays within three scalar limits.
pub proof fn lemma_center_distance_range(c: CenterPoint, at_x: int, at_y: int)
    requires
        center_ok(c),
        fx_ok(at_x),
        fx_ok(at_y),
    ensures
        0 <= center_distance(c, at_x, at_y) < 3 * FX_LIM,
        ({
            let dx = c.pos_x - at_x;
            let dy = c.pos_y - at_y;
            0 <= isqrt(dx * dx + dy * dy) < 3 * FX_LIM
        }),
{
    let dx = c.pos_x - at_x;
    let dy = c.pos_y - at_y;
    assert(0 <= dx * dx <= 4 * (FX_LIM * FX_LIM)) by (nonlinear_arith)
        requires -2 * FX_LIM <= dx <= 2 * FX_LIM;
    assert(0 <= dy * dy <= 4 * (FX_LIM * FX_LIM)) by (nonlinear_arith)
        requires -2 * FX_LIM <= dy <= 2 * FX_LIM;
    crate::fx::lemma_isqrt(dx * dx + dy * dy);
    assert(dx * dx + dy * dy < (3 * FX_LIM) * (3 * FX_LIM)) by (nonlinear_arith)
        requires 0 <= dx * dx + dy * dy <= 8 * (FX_LIM * FX_LIM);
    lemma_isqrt_vs(dx * dx + dy * dy, 3 * FX_LIM as int);
    let len = isqrt(dx * dx + dy * dy);
    assert(0 <= len * FX_ONE) by (nonlinear_arith)
        requires len >= 0 && FX_ONE > 0;
    lemma_tdiv_range(len * FX_ONE, c.scale as int);
    vstd::arithmetic::div_mod::lemma_div_is_ordered_by_denominator(
        len * FX_ONE, FX_ONE as int, c.scale as int);
    lemma_tdiv_exact(len, FX_ONE as int);
}

/// A terrain modulator: any algorithm for modulating the terrain, paired
/// with any algorithm for collecting the distances to the center points into
/// a single distance.
#[derive(Clone, Copy, Debug)]
pub struct TerrainModulator<TMA, DC> where TMA: TerrainModulatorAlgorithm, DC: DistanceCollector {
    /// The modulation algorithm.
    pub algorithm: TMA,

    /// The distance collector.
    pub distance_collector: DC,
}

impl<TMA: TerrainModulatorAlgorithm, DC: DistanceCollector> TerrainModulator<TMA, DC> {
    /// Modulate terrain using the passed parameters, center points, input
    /// coordinates, and the current height.
    pub fn push_terrain(
        &self,
        params: &ModulationParams,
        center_points: &Vec<CenterPoint>,
        at_x: i64,
        at_y: i64,
        curr_height: i64,
    ) -> (r: i64)
        requires
            center_points@.len() > 0,
            forall|i: int| 0 <= i < center_points@.len() ==> center_ok(#[trigger] center_points@[i]),
            fx_ok(at_x as int),
            fx_ok(at_y as int),
            self.algorithm.push_req(*params,
                self.distance_collector.spec_collect(
                    center_distances(center_points@, at_x as int, at_y as int)),
                curr_height as int),
        ensures
            r == self.algorithm.spec_push(*params,
                self.distance_collector.spec_collect(
                    center_distances(center_points@, at_x as int, at_y as int)),
                curr_height as int),
    {
        let n = center_points.len();
        let mut distances: Vec<i64> = Vec::new();
        let mut i: usize = 0;
        while i < n
            invariant
                i <= n,
                n == center_points@.len(),
                fx_ok(at_x as int),
                fx_ok(at_y as int),
                forall|j: int| 0 <= j < n ==> center_ok(#[trigger] center_points@[j]),
                distances@ =~= center_distances(center_points@.take(i as int), at_x as int, at_y as int),
            decreases n - i,
        {
            let c = center_points[i];
            proof {
                lemma_center_distance_range(c, at_x as int, at_y as int);
                crate::vec3::lemma_sq_bound2((c.pos_x - at_x) as int);
                crate::vec3::lemma_sq_bound2((c.pos_y - at_y) as int);
                assert(center_points@.take(i as int + 1).drop_last() =~= center_points@.take(i as int));
                assert(center_points@.take(i as int + 1).last() == center_points@[i as int]);
            }
            let dx = c.pos_x - at_x;
            let dy = c.pos_y - at_y;
            let n2 = (dx as i128) * (dx as i128) + (dy as i128) * (dy as i128);
            let len = crate::fx::isqrt_u128(n2 as u128) as i64;
            let d = crate::fx::fx_div64(len, c.scale);
            distances.push(d);
            i += 1;
        }
        proof {
            assert(center_points@.take(n as int) =~= center_points@);
        }
        let distance = self.distance_collector.collect_distances(&distances);
        self.algorithm.push_terrain(params, distance, curr_height)
    }
}

/// Gets a 'reasonable defaults' terrain modulator.
pub fn default_modulator() -> (r: TerrainModulator<DefaultTerrainModulatorAlgorithm, MinDistance>)
    ensures
        r.algorithm == DefaultTerrainModulatorAlgorithm,
        r.distance_collector == MinDistance,
{
    TerrainModulator {
        algorithm: DefaultTerrainModulatorAlgorithm,
        distance_collector: MinDistance,
    }
}

/// The terrain generator: fractal noise modulated by distance to center
/// points, so that terrain far from every center is underwater.
#[derive(Clone, Debug)]
pub struct TerrainGenerator<TMA, DC> where TMA: TerrainModulatorAlgorithm, DC: DistanceCollector {
    /// The fractal noise generator to use.
    pub noise: FractalNoise,

    /// The terrain modulator to use.
    pub modulator: TerrainModulator<TMA, DC>,

    /// The 'center points' around which to modulate terrain.
    pub center_points: Vec<CenterPoint>,

    /// The terrain modulation parameters.
    pub modulation_params: ModulationParams,

    /// The size of each noise 'tile' (at octave zero), in world units.
    pub resolution: i64,
}

/// A well-formed generator: consistent noise, at least one in-range center
/// point, and a positive whole-tile resolution.
pub open spec fn generator_ok<TMA: TerrainModulatorAlgorithm, DC: DistanceCollector>(
    g: TerrainGenerator<TMA, DC>,
) -> bool {
    &&& fractal_ok(g.noise)
    &&& g.center_points@.len() > 0
    &&& (forall|i: int| 0 <= i < g.center_points@.len() ==> center_ok(#[trigger] g.center_points@[i]))
    &&& FX_ONE <= g.resolution <= FX_LIM
}

/// The height the generator produces at a coordinate: the fractal noise
/// (sampled in tile coordinates), modulated by the distance to the centers.
pub open spec fn generator_height<TMA: TerrainModulatorAlgorithm, DC: DistanceCollector>(
    g: TerrainGenerator<TMA, DC>,
    at_x: int,
    at_y: int,
) -> int {
    let noise = fractal_influence(g.noise.octaves@, fx_div(at_x, g.resolution as int),
        fx_div(at_y, g.resolution as int));
    g.modulator.algorithm.spec_push(g.modulation_params,
        g.modulator.distance_collector.spec_collect(
            center_distances(g.center_points@, at_x, at_y)), noise)
}

impl<TMA: TerrainModulatorAlgorithm, DC: DistanceCollector> TerrainGenerator<TMA, DC> {
    /// Assemble a terrain generator from its parts.
    pub fn new(
        noise: FractalNoise,
        modulator: TerrainModulator<TMA, DC>,
        center_points: Vec<CenterPoint>,
        modulation_params: ModulationParams,
        resolution: i64,
    ) -> (r: TerrainGenerator<TMA, DC>)
        ensures
            r.noise == noise,
            r.modulator == modulator,
            r.center_points == center_points,
            r.modulation_params == modulation_params,
            r.resolution == resolution,
    {
        TerrainGenerator { noise, modulator, center_points, modulation_params, resolution }
    }

    /// Get the height of terrain generated at these coordinates.
    ///
    /// With the default modulation algorithm the result stays at or above
    /// one unit underwater, and at or below the sampled noise height or one
    /// unit, whichever is greater ([`lemma_push_terrain_bounds`]); the noise
    /// sum itself is bounded by two units per octave layer.
    pub fn get_height_at(&self, at_x: i64, at_y: i64) -> (r: i64)
        requires
            generator_ok(*self),
            fx_ok(at_x as int),
            fx_ok(at_y as int),
            0 <= fx_div(at_x as int, self.resolution as int) < self.noise.width,
            0 <= fx_div(at_y as int, self.resolution as int) < self.noise.height,
            self.modulator.algorithm.push_req(self.modulation_params,
                self.modulator.distance_collector.spec_collect(
                    center_distances(self.center_points@, at_x as int, at_y as int)),
                fractal_influence(self.noise.octaves@, fx_div(at_x as int, self.resolution as int),
                    fx_div(at_y as int, self.resolution as int))),
        ensures
            r == generator_height(*self, at_x as int, at_y as int),
    {
        proof {
            crate::fx::lemma_tdiv_range(at_x as int * FX_ONE, self.resolution as int);
            crate::fx::lemma_tdiv_range(at_y as int * FX_ONE, self.resolution as int);
        }
        let nx = crate::fx::fx_div64(at_x, self.resolution);
        let ny = crate::fx::fx_div64(at_y, self.resolution);
        let height = self.noise.get_influence_at(nx, ny);
        proof {
            assert(-(64int * 2 * FX_ONE) <= height <= 64 * 2 * FX_ONE);
        }
        self.modulator.push_terrain(&self.modulation_params, &self.center_points, at_x, at_y, height)
    }

    /// Get the bounding width of this terrain generator, in world units.
    pub fn get_width(&self) -> (r: i64)
        requires
            generator_ok(*self),
        ensures
            r == fx_mul(self.noise.width as int, self.resolution as int),
    {
        proof {
            crate::fx::lemma_fx_mul_bound(self.noise.width as int, self.resolution as int,
                1000 * FX_ONE as int, FX_LIM as int);
            lemma_div_cap();
        }
        crate::fx::fx_mul64(self.noise.width, self.resolution)
    }

    /// Get the bounding height of this terrain generator, in world units.
    pub fn get_height(&self) -> (r: i64)
        requires
            generator_ok(*self),
        ensures
            r == fx_mul(self.noise.height as int, self.resolution as int),
    {
        proof {
            crate::fx::lemma_fx_mul_bound(self.noise.height as int, self.resolution as int,
                1000 * FX_ONE as int, FX_LIM as int);
            lemma_div_cap();
        }
        crate::fx::fx_mul64(self.noise.height, self.resolution)
    }
}

/// The largest generator extent stays within a 64-bit scalar.
proof fn lemma_div_cap()
    ensures
        tdiv(1000 * FX_ONE as int * FX_LIM, FX_ONE as int) == 1000 * FX_LIM,
{
    lemma_tdiv_exact(1000 * FX_LIM as int, FX_ONE as int);
    assert(1000 * FX_LIM as int * FX_ONE == 1000 * FX_ONE as int * FX_LIM) by (nonlinear_arith);
}

/// The default, reasonable-behavior terrain generator type.
pub type DefaultTerrainGenerator = TerrainGenerator<DefaultTerrainModulatorAlgorithm, MinDistance>;

} // verus!
