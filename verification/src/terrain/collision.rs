//! Terrain collision: volume-carrying points tested against a terrain
//! heightmap buffer placed in the world by a translation.

use vstd::prelude::*;

verus! {

use crate::{FX_ONE, FX_LIM};
use crate::fx::{tdiv, fx_mul, fx_div, fx_ok, lemma_tdiv_range, lemma_tdiv_ordered, lemma_tdiv_exact, lemma_fx_mul_bound};
use crate::vec3::{Vec3, v_ok, unit_of};
use crate::physics::base::{PhysPoint, PointNetwork, network_ok, point_ok};
use crate::physics::volume::{AABB, Span, CollisionInfo, PhysicsVolume, VolumeCollection, collection_ok};
use crate::terrain::buffer::{
    TerrainBuffer, buffer_ok, can_query, buffer_height_at, gradient_axis, grad_flip,
    gradient_x_of, gradient_y_of, lemma_local_map, SAMPLE_EPSILON,
};

/// Event emitted when a volume-carrying point collides with a terrain.
#[derive(Clone, Copy, PartialEq, Eq, Structural, Debug)]
pub struct TerrainVolumeCollisionDetectionEvent {
    /// The handle of the volumed object on the collision check.
    pub entity_ref: usize,

    /// The handle of the terrain on the collision check.
    pub entity_terrain: usize,

    /// The volume whose point collided (a copy).
    pub volume: PhysicsVolume,

    /// Collision info: the world position of the colliding point and the
    /// terrain's surface normal there.
    pub info: CollisionInfo,

    /// Collision depth: how far below the terrain surface the point sits.
    pub depth: i64,
}

/// The world-space bounding box of a placed terrain: its sampled extent and
/// held height range, translated to its placement.
pub fn terrain_aabb(buffer: &TerrainBuffer, translation: Vec3) -> (r: AABB)
    requires
        buffer_ok(*buffer),
        v_ok(translation),
        fx_ok(buffer.height_range_low as int),
        fx_ok(buffer.height_range_high as int),
    ensures
        r.spans[0] == (Span {
            start: translation.x,
            end: (translation.x + buffer.width * buffer.resolution) as i64,
        }),
        r.spans[1] == (Span {
            start: (translation.y + buffer.height_range_low) as i64,
            end: (translation.y + buffer.height_range_high) as i64,
        }),
        r.spans[2] == (Span {
            start: translation.z,
            end: (translation.z + buffer.height * buffer.resolution) as i64,
        }),
{
    AABB::new(
        Span { start: translation.x, end: translation.x + buffer.get_real_width() },
        Span {
            start: translation.y + buffer.height_range_low,
            end: translation.y + buffer.height_range_high,
        },
        Span { start: translation.z, end: translation.z + buffer.get_real_height() },
    )
}

/// A point at terrain-local coordinates collides: it maps into the sample
/// grid, sits inside the held height range, and lies at or below the
/// interpolated terrain height. The height convention is that lower is
/// deeper underground.
pub open spec fn terrain_hit(b: TerrainBuffer, lx: int, ly: int, lz: int) -> bool {
    &&& 0 <= lx && 0 <= lz
    &&& can_query(b, lx, lz)
    &&& b.height_range_low <= ly <= b.height_range_high
    &&& ly <= buffer_height_at(b, lx, lz)
}

/// A buffer-frame surface normal expressed in world axes: the buffer's two
/// horizontal gradient axes map to world X and Z, and its unit vertical to
/// world Y.
pub open spec fn world_normal(n: Vec3) -> Vec3 {
    Vec3 { x: n.x, y: n.z, z: n.y }
}

/// The effect of testing one volume's point against the terrain. A hit takes
/// the velocity correction `normal * depth` and yields its event; a point
/// above ground, outside the sampled extent, or over ground too steep for
/// the gradient step to measure changes nothing. The last case also covers a
/// point within one gradient step of the near boundary while the far
/// boundary forces the flipped sample direction.
pub open spec fn terrain_step(
    points: Seq<PhysPoint>,
    vol: PhysicsVolume,
    b: TerrainBuffer,
    translation: Vec3,
    entity_ref: usize,
    entity_terrain: usize,
) -> (Seq<PhysPoint>, Option<TerrainVolumeCollisionDetectionEvent>) {
    let p = points[vol.point_idx as int];
    let lx = p.pos.x - translation.x;
    let ly = p.pos.y - translation.y;
    let lz = p.pos.z - translation.z;
    let base = buffer_height_at(b, lx, lz);
    let flip = grad_flip(b, lx, lz);
    let sample_x = if flip {
        buffer_height_at(b, lx - SAMPLE_EPSILON, lz)
    } else {
        buffer_height_at(b, lx + SAMPLE_EPSILON, lz)
    };
    let sample_z = if flip {
        buffer_height_at(b, lx, lz - SAMPLE_EPSILON)
    } else {
        buffer_height_at(b, lx, lz + SAMPLE_EPSILON)
    };
    if terrain_hit(b, lx, ly, lz)
        && (flip ==> (SAMPLE_EPSILON <= lx && SAMPLE_EPSILON <= lz))
        && -10_000_000_000 <= sample_x - base <= 10_000_000_000
        && -10_000_000_000 <= sample_z - base <= 10_000_000_000 {
        let depth = base - ly;
        let nrm = world_normal(unit_of(Vec3 {
            x: gradient_x_of(b, lx, lz) as i64,
            y: gradient_y_of(b, lx, lz) as i64,
            z: FX_ONE,
        }));
        (
            points.update(vol.point_idx as int, PhysPoint {
                vel: Vec3 {
                    x: (p.vel.x + fx_mul(nrm.x as int, depth)) as i64,
                    y: (p.vel.y + fx_mul(nrm.y as int, depth)) as i64,
                    z: (p.vel.z + fx_mul(nrm.z as int, depth)) as i64,
                },
                ..p
            }),
            Some(TerrainVolumeCollisionDetectionEvent {
                entity_ref,
                entity_terrain,
                volume: vol,
                info: CollisionInfo { pos: p.pos, normal: nrm },
                depth: depth as i64,
            }),
        )
    } else {
        (points, None)
    }
}

/// The effect of the whole terrain pass: every volume tested against the
/// terrain, in collection order, corrections accumulating.
pub open spec fn terrain_fold(
    points: Seq<PhysPoint>,
    vols: Seq<PhysicsVolume>,
    b: TerrainBuffer,
    translation: Vec3,
    entity_ref: usize,
    entity_terrain: usize,
) -> (Seq<PhysPoint>, Seq<TerrainVolumeCollisionDetectionEvent>)
    decreases vols.len(),
{
    if vols.len() == 0 {
        (points, Seq::empty())
    } else {
        let stepped = terrain_step(points, vols[0], b, translation, entity_ref, entity_terrain);
        let rest = terrain_fold(stepped.0, vols.skip(1), b, translation, entity_ref, entity_terrain);
        (
            rest.0,
            match stepped.1 {
                Some(ev) => seq![ev] + rest.1,
                None => rest.1,
            },
        )
    }
}

/// Terrain-object collision via physics volumes, for one object against one
/// placed terrain (the host loop runs this over every such pair).
///
/// Each volume's point is mapped into terrain-local space; a point at or
/// below the interpolated terrain height takes a velocity correction of
/// `normal * depth` and emits exactly one event, while points above ground,
/// outside the sampled extent, or over unmeasurably steep ground change
/// nothing. The result is exactly [`terrain_fold`] of the incoming state:
/// positions and masses never change.
pub fn terrain_volume_collision_system(
    entity_ref: usize,
    entity_terrain: usize,
    points: &mut PointNetwork,
    volumes: &VolumeCollection,
    buffer: &TerrainBuffer,
    translation: Vec3,
) -> (events: Vec<TerrainVolumeCollisionDetectionEvent>)
    requires
        network_ok(*old(points)),
        collection_ok(*volumes, old(points).points@.len() as int),
        buffer_ok(*buffer),
        v_ok(translation),
        fx_ok(buffer.height_range_low as int),
        fx_ok(buffer.height_range_high as int),
        volumes.volumes@.len() <= 50,
    ensures
        final(points).points@ == terrain_fold(old(points).points@, volumes.volumes@,
            *buffer, translation, entity_ref, entity_terrain).0,
        events@ == terrain_fold(old(points).points@, volumes.volumes@,
            *buffer, translation, entity_ref, entity_terrain).1,
        forall|i: int| 0 <= i < old(points).points@.len()
            ==> (#[trigger] final(points).points@[i]).pos == old(points).points@[i].pos
                && final(points).points@[i].mass == old(points).points@[i].mass,
{
    let mut events: Vec<TerrainVolumeCollisionDetectionEvent> = Vec::new();
    let n = volumes.volumes.len();
    let qx_max = ((buffer.width - 1) as i64) * FX_ONE;
    let qz_max = ((buffer.height - 1) as i64) * FX_ONE;
    let ghost all = volumes.volumes@;
    let ghost total = terrain_fold(old(points).points@, all, *buffer, translation,
        entity_ref, entity_terrain);
    proof {
        assert(all.skip(0) =~= all);
        assert(Seq::<TerrainVolumeCollisionDetectionEvent>::empty() + total.1 =~= total.1);
    }
    let ghost mut k: int = 0;
    let mut i: usize = 0;
    while i < n
        invariant
            i <= n,
            n == volumes.volumes@.len() <= 50,
            buffer_ok(*buffer),
            v_ok(translation),
            fx_ok(buffer.height_range_low as int),
            fx_ok(buffer.height_range_high as int),
            qx_max == (buffer.width - 1) * FX_ONE,
            qz_max == (buffer.height - 1) * FX_ONE,
            all == volumes.volumes@,
            total == terrain_fold(old(points).points@, all, *buffer, translation,
                entity_ref, entity_terrain),
            collection_ok(*volumes, points.points@.len() as int),
            points.points@.len() == old(points).points@.len(),
            0 <= k <= i,
            forall|q: int| 0 <= q < points.points@.len()
                ==> (#[trigger] points.points@[q]).pos == old(points).points@[q].pos
                    && points.points@[q].mass == old(points).points@[q].mass
                    && 0 < points.points@[q].mass
                    && v_ok(points.points@[q].pos)
                    && -((1 + k) * (3 * FX_LIM)) <= points.points@[q].vel.x <= (1 + k) * (3 * FX_LIM)
                    && -((1 + k) * (3 * FX_LIM)) <= points.points@[q].vel.y <= (1 + k) * (3 * FX_LIM)
                    && -((1 + k) * (3 * FX_LIM)) <= points.points@[q].vel.z <= (1 + k) * (3 * FX_LIM),
            ({
                let rest = terrain_fold(points.points@, all.skip(i as int), *buffer, translation,
                    entity_ref, entity_terrain);
                &&& rest.0 == total.0
                &&& total.1 == events@ + rest.1
            }),
        decreases n - i,
    {
        proof {
            assert(all.skip(i as int)[0] == all[i as int]);
            assert(all.skip(i as int).skip(1) =~= all.skip(i as int + 1));
        }
        let ghost pre = points.points@;
        let ghost pre_events = events@;
        let vol = volumes.volumes[i];
        let p = points.points[vol.point_idx];
        let lx = p.pos.x - translation.x;
        let ly = p.pos.y - translation.y;
        let lz = p.pos.z - translation.z;
        let mut handled = false;
        if lx >= 0 && lz >= 0
            && buffer.height_range_low <= ly && ly <= buffer.height_range_high {
            proof {
                lemma_local_map(lx as int, buffer.resolution as int);
                lemma_local_map(lz as int, buffer.resolution as int);
                lemma_local_map(lx + SAMPLE_EPSILON, buffer.resolution as int);
                lemma_local_map(lz + SAMPLE_EPSILON, buffer.resolution as int);
            }
            let mx = crate::fx::fx_div64(lx, buffer.resolution);
            let mz = crate::fx::fx_div64(lz, buffer.resolution);
            let mxe = crate::fx::fx_div64(lx + SAMPLE_EPSILON, buffer.resolution);
            let mze = crate::fx::fx_div64(lz + SAMPLE_EPSILON, buffer.resolution);
            let flip = mxe > qx_max || mze > qz_max;
            if mx <= qx_max && mz <= qz_max
                && (!flip || (lx >= SAMPLE_EPSILON && lz >= SAMPLE_EPSILON)) {
                let terra_height = buffer.get_height_at(lx, lz);
                if ly <= terra_height {
                    proof {
                        if flip {
                            lemma_tdiv_ordered((lx - SAMPLE_EPSILON) * FX_ONE, lx as int * FX_ONE,
                                buffer.resolution as int);
                            lemma_tdiv_ordered((lz - SAMPLE_EPSILON) * FX_ONE, lz as int * FX_ONE,
                                buffer.resolution as int);
                            lemma_tdiv_range((lx - SAMPLE_EPSILON) * FX_ONE, buffer.resolution as int);
                            lemma_tdiv_range((lz - SAMPLE_EPSILON) * FX_ONE, buffer.resolution as int);
                        }
                    }
                    let sample_x = if flip {
                        buffer.get_height_at(lx - SAMPLE_EPSILON, lz)
                    } else {
                        buffer.get_height_at(lx + SAMPLE_EPSILON, lz)
                    };
                    let sample_z = if flip {
                        buffer.get_height_at(lx, lz - SAMPLE_EPSILON)
                    } else {
                        buffer.get_height_at(lx, lz + SAMPLE_EPSILON)
                    };
                    let dx = sample_x - terra_height;
                    let dz = sample_z - terra_height;
                    if -10_000_000_000 <= dx && dx <= 10_000_000_000
                        && -10_000_000_000 <= dz && dz <= 10_000_000_000 {
                        proof {
                            lemma_gradient_fits(dx as int);
                            lemma_gradient_fits(dz as int);
                        }
                        let buffer_normal = buffer.get_normal_at(lx, lz);
                        let normal = Vec3 { x: buffer_normal.x, y: buffer_normal.z, z: buffer_normal.y };
                        let depth = terra_height - ly;
                        proof {
                            lemma_fx_mul_bound(normal.x as int, depth as int, FX_ONE as int, 3 * FX_LIM as int);
                            lemma_fx_mul_bound(normal.y as int, depth as int, FX_ONE as int, 3 * FX_LIM as int);
                            lemma_fx_mul_bound(normal.z as int, depth as int, FX_ONE as int, 3 * FX_LIM as int);
                            lemma_tdiv_exact(3 * FX_LIM as int, FX_ONE as int);
                            assert(3 * FX_LIM as int * FX_ONE == FX_ONE as int * (3 * FX_LIM)) by (nonlinear_arith);
                        }
                        let push = Vec3 {
                            x: crate::fx::fx_mul64(normal.x, depth),
                            y: crate::fx::fx_mul64(normal.y, depth),
                            z: crate::fx::fx_mul64(normal.z, depth),
                        };
                        let updated = PhysPoint {
                            vel: Vec3 {
                                x: p.vel.x + push.x,
                                y: p.vel.y + push.y,
                                z: p.vel.z + push.z,
                            },
                            ..p
                        };
                        points.points.set(vol.point_idx, updated);
                        let ev = TerrainVolumeCollisionDetectionEvent {
                            entity_ref,
                            entity_terrain,
                            volume: vol,
                            info: CollisionInfo { pos: p.pos, normal },
                            depth,
                        };
                        events.push(ev);
                        handled = true;
                        proof {
                            let stepped = terrain_step(pre, all[i as int], *buffer, translation,
                                entity_ref, entity_terrain);
                            assert(points.points@ =~= stepped.0);
                            assert(stepped.1 == Some(ev));
                            assert(events@ =~= pre_events + seq![ev]);
                            lemma_terrain_chain(pre_events, seq![ev],
                                terrain_fold(points.points@, all.skip(i as int + 1), *buffer,
                                    translation, entity_ref, entity_terrain).1);
                        }
                    }
                }
            }
        }
        proof {
            if !handled {
                let stepped = terrain_step(pre, all[i as int], *buffer, translation,
                    entity_ref, entity_terrain);
                assert(stepped.0 =~= pre);
            }
            k = k + 1;
        }
        i += 1;
    }
    proof {
        assert(all.skip(n as int).len() == 0);
        assert(events@ + Seq::<TerrainVolumeCollisionDetectionEvent>::empty() =~= events@);
    }
    events
}

/// Concatenating event lists is associative, whichever way the pass groups
/// them.
proof fn lemma_terrain_chain(
    a: Seq<TerrainVolumeCollisionDetectionEvent>,
    b: Seq<TerrainVolumeCollisionDetectionEvent>,
    c: Seq<TerrainVolumeCollisionDetectionEvent>,
)
    ensures
        a + (b + c) =~= (a + b) + c,
{
}

/// A height difference bounded by the steepness guard gives an in-range
/// gradient component.
pub proof fn lemma_gradient_fits(diff: int)
    requires
        -10_000_000_000 <= diff <= 10_000_000_000,
    ensures
        fx_ok(gradient_axis(0, diff)),
        -FX_LIM <= fx_div(diff, SAMPLE_EPSILON as int) <= FX_LIM,
{
    lemma_tdiv_ordered(diff * FX_ONE, 10_000_000_000 * FX_ONE, SAMPLE_EPSILON as int);
    lemma_tdiv_ordered((-10_000_000_000) * FX_ONE, diff * FX_ONE, SAMPLE_EPSILON as int);
    lemma_tdiv_exact(100_000_000_000_000, SAMPLE_EPSILON as int);
    assert(10_000_000_000 * FX_ONE == 100_000_000_000_000int * SAMPLE_EPSILON) by (nonlinear_arith);
    assert((-10_000_000_000) * FX_ONE == -(10_000_000_000 * FX_ONE)) by (nonlinear_arith);
    crate::fx::lemma_tdiv_neg(10_000_000_000 * FX_ONE, SAMPLE_EPSILON as int);
}

} // verus!
