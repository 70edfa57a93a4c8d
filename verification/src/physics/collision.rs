//! Collision systems: floor-plane collision for physics points, and
//! object-object collision via physics volumes, with collision events.

use vstd::prelude::*;

verus! {

use crate::{FX_ONE, FX_LIM};
use crate::fx::{tdiv, fx_mul, fx_div, fx_ok, lemma_tdiv_range, lemma_fx_mul_bound};
use crate::vec3::{Vec3, v_ok, norm2, norm_of, unit_of};
use crate::physics::base::{PhysPoint, PointNetwork, network_ok, point_ok};
use crate::physics::volume::{
    AABB, CollisionInfo, PhysicsVolume, VolumeCollection, VolumeType,
    collection_ok, collection_aabb, collision_average, local_to, volume_sdf, volume_type_ok,
    offset_ok, span_overlap,
};

/// Floor plane collision parameters.
///
/// Attach to an object for which every physics point should stay above a
/// certain Y value.
#[derive(Clone, Copy, PartialEq, Eq, Structural, Debug)]
pub struct FloorPlaneCollision {
    /// The Y value below which every physics point is forced back up.
    pub intercept_y: i64,

    /// How much of a physics point's downward velocity is reflected upward
    /// when it is pushed up from under the intercept. A blend weight in
    /// `[0, 1]` whole units.
    pub restitution: i64,

    /// How much of a physics point's horizontal velocity dissipates on a
    /// frame that finds the point under the intercept plane.
    pub friction: i64,
}

/// Well-formed floor parameters: an in-range intercept, a restitution blend
/// weight within one unit, and a nonnegative in-range friction.
pub open spec fn floor_params_ok(c: FloorPlaneCollision) -> bool {
    &&& fx_ok(c.intercept_y as int)
    &&& 0 <= c.restitution <= FX_ONE
    &&& 0 <= c.friction <= FX_LIM
}

/// One axis of the floor friction shift: `vel * -friction / mass`.
pub open spec fn friction_shift(v: int, friction: int, mass: int) -> int {
    fx_div(fx_mul(v, -friction), mass)
}

/// The effect of the floor plane on one point. A point above the intercept
/// is untouched. A point below is clamped to the intercept; its vertical
/// velocity reflects scaled by the restitution; and friction shrinks its
/// horizontal velocity, zeroing it outright rather than overshooting when
/// the shift would exceed the current speed.
pub open spec fn floor_point(p: PhysPoint, c: FloorPlaneCollision) -> PhysPoint {
    if p.pos.y >= c.intercept_y {
        p
    } else {
        let vy = fx_mul(p.vel.y as int, -(c.restitution as int));
        let m = p.mass as int;
        let sx = friction_shift(p.vel.x as int, c.friction as int, m);
        let sy = friction_shift(vy, c.friction as int, m);
        let sz = friction_shift(p.vel.z as int, c.friction as int, m);
        let shift_sq = sx * sx + sy * sy + sz * sz;
        let vel_sq = p.vel.x * p.vel.x + vy * vy + p.vel.z * p.vel.z;
        PhysPoint {
            pos: Vec3 { y: c.intercept_y, ..p.pos },
            vel: if shift_sq > vel_sq {
                Vec3 { x: 0, y: vy as i64, z: 0 }
            } else {
                Vec3 {
                    x: (p.vel.x + sx) as i64,
                    y: vy as i64,
                    z: (p.vel.z + sz) as i64,
                }
            },
            ..p
        }
    }
}

/// Every intermediate of a floor response on one point stays in the working
/// scalar range.
pub open spec fn floor_step_ok(p: PhysPoint, c: FloorPlaneCollision) -> bool {
    let vy = fx_mul(p.vel.y as int, -(c.restitution as int));
    let m = p.mass as int;
    &&& fx_ok(fx_mul(p.vel.x as int, -(c.friction as int)))
    &&& fx_ok(fx_mul(vy, -(c.friction as int)))
    &&& fx_ok(fx_mul(p.vel.z as int, -(c.friction as int)))
    &&& fx_ok(friction_shift(p.vel.x as int, c.friction as int, m))
    &&& fx_ok(friction_shift(vy, c.friction as int, m))
    &&& fx_ok(friction_shift(p.vel.z as int, c.friction as int, m))
    &&& fx_ok(p.vel.x + friction_shift(p.vel.x as int, c.friction as int, m))
    &&& fx_ok(p.vel.z + friction_shift(p.vel.z as int, c.friction as int, m))
}

/// **Floor-plane response, pointwise.** A point below the intercept is
/// clamped to it, and its vertical velocity reflects scaled by the
/// restitution: exactly [`floor_point`].
pub fn floor_plane_point(p: &PhysPoint, collision: &FloorPlaneCollision) -> (r: PhysPoint)
    requires
        point_ok(*p),
        floor_params_ok(*collision),
        floor_step_ok(*p, *collision),
    ensures
        r == floor_point(*p, *collision),
{
    if p.pos.y >= collision.intercept_y {
        *p
    } else {
        proof {
            lemma_fx_mul_bound(p.vel.y as int, -(collision.restitution as int),
                FX_LIM as int, FX_ONE as int);
            crate::fx::lemma_tdiv_exact(FX_LIM as int, FX_ONE as int);
        }
        let vy = crate::fx::fx_mul64(p.vel.y, -collision.restitution);
        proof {
            lemma_fx_mul_bound(vy as int, -(collision.friction as int), FX_LIM as int, FX_LIM as int);
        }
        let sx = crate::fx::fx_div64(crate::fx::fx_mul64(p.vel.x, -collision.friction), p.mass);
        let sy = crate::fx::fx_div64(crate::fx::fx_mul64(vy, -collision.friction), p.mass);
        let sz = crate::fx::fx_div64(crate::fx::fx_mul64(p.vel.z, -collision.friction), p.mass);
        proof {
            crate::vec3::lemma_sq_bound(sx as int);
            crate::vec3::lemma_sq_bound(sy as int);
            crate::vec3::lemma_sq_bound(sz as int);
            crate::vec3::lemma_sq_bound(p.vel.x as int);
            crate::vec3::lemma_sq_bound(vy as int);
            crate::vec3::lemma_sq_bound(p.vel.z as int);
        }
        let shift_sq = (sx as i128) * (sx as i128) + (sy as i128) * (sy as i128)
            + (sz as i128) * (sz as i128);
        let vel_sq = (p.vel.x as i128) * (p.vel.x as i128) + (vy as i128) * (vy as i128)
            + (p.vel.z as i128) * (p.vel.z as i128);
        let vel = if shift_sq > vel_sq {
            Vec3 { x: 0, y: vy, z: 0 }
        } else {
            Vec3 { x: p.vel.x + sx, y: vy, z: p.vel.z + sz }
        };
        PhysPoint { pos: Vec3 { y: collision.intercept_y, ..p.pos }, vel, ..*p }
    }
}

impl PointNetwork {
    /// Floor plane collision for physics points: forces every physics point
    /// of the network above the configured Y intercept, reflecting and
    /// dampening velocity as [`floor_point`] states.
    pub fn floor_plane_collision_system(&mut self, collision: &FloorPlaneCollision)
        requires
            network_ok(*old(self)),
            floor_params_ok(*collision),
            forall|i: int| 0 <= i < old(self).points@.len()
                ==> floor_step_ok(#[trigger] old(self).points@[i], *collision),
        ensures
            final(self).points@.len() == old(self).points@.len(),
            forall|i: int| 0 <= i < final(self).points@.len()
                ==> #[trigger] final(self).points@[i] == floor_point(old(self).points@[i], *collision),
    {
        let n = self.points.len();
        let mut i: usize = 0;
        while i < n
            invariant
                i <= n,
                n == self.points@.len(),
                n == old(self).points@.len(),
                floor_params_ok(*collision),
                forall|j: int| 0 <= j < n ==> point_ok(#[trigger] old(self).points@[j]),
                forall|j: int| 0 <= j < n
                    ==> floor_step_ok(#[trigger] old(self).points@[j], *collision),
                forall|j: int| i <= j < n ==> #[trigger] self.points@[j] == old(self).points@[j],
                forall|j: int| 0 <= j < i
                    ==> #[trigger] self.points@[j] == floor_point(old(self).points@[j], *collision),
            decreases n - i,
        {
            let updated = floor_plane_point(&self.points[i], collision);
            self.points.set(i, updated);
            i += 1;
        }
    }
}

/// Event emitted when two volumed objects collide.
#[derive(Clone, Copy, PartialEq, Eq, Structural, Debug)]
pub struct VolumeVolumeCollisionDetectionEvent {
    /// The handle of the first object on the collision check. Parameters
    /// like `info` are from the perspective of this object.
    pub entity_ref: usize,

    /// The handle of the second object on the collision check.
    pub entity_other: usize,

    /// The volume on the first object for which collision was detected (a
    /// copy; the original stays with its owner).
    pub volume_1: PhysicsVolume,

    /// The volume on the second object for which collision was detected (a
    /// copy).
    pub volume_2: PhysicsVolume,

    /// Collision info, relative to the first object.
    pub info: CollisionInfo,

    /// Collision depth: the average of the penetration computed from each
    /// side's signed distance field at the collision point.
    pub depth: i64,
}

/// The penetration depth of a detected collision: the average of the two
/// (negated) signed distances at the collision point.
pub open spec fn collision_depth(v1: VolumeType, v2: VolumeType, offset: Vec3) -> int {
    let avg = collision_average(v1, v2, offset);
    tdiv(-volume_sdf(v1, avg) - volume_sdf(v2, local_to(avg, offset)), 2)
}

/// The effect of testing one volume pair: on a hit, the two carrying points
/// take the impulse-like push-apart of `normal * depth` on their velocities
/// and the event carrying both volumes comes out; otherwise nothing changes.
pub open spec fn vv_step(
    points1: Seq<PhysPoint>,
    points2: Seq<PhysPoint>,
    vol1: PhysicsVolume,
    vol2: PhysicsVolume,
    entity_ref: usize,
    entity_other: usize,
) -> (Seq<PhysPoint>, Seq<PhysPoint>, Option<VolumeVolumeCollisionDetectionEvent>) {
    let p1 = points1[vol1.point_idx as int];
    let p2 = points2[vol2.point_idx as int];
    let offset = local_to(p2.pos, p1.pos);
    let avg = collision_average(vol1.volume_type, vol2.volume_type, offset);
    if volume_sdf(vol1.volume_type, avg) < 0
        && volume_sdf(vol2.volume_type, local_to(avg, offset)) < 0 {
        let depth = collision_depth(vol1.volume_type, vol2.volume_type, offset);
        let nrm = unit_of(avg);
        let push_x = fx_mul(nrm.x as int, depth);
        let push_y = fx_mul(nrm.y as int, depth);
        let push_z = fx_mul(nrm.z as int, depth);
        (
            points1.update(vol1.point_idx as int, PhysPoint {
                vel: Vec3 {
                    x: (p1.vel.x - push_x) as i64,
                    y: (p1.vel.y - push_y) as i64,
                    z: (p1.vel.z - push_z) as i64,
                },
                ..p1
            }),
            points2.update(vol2.point_idx as int, PhysPoint {
                vel: Vec3 {
                    x: (p2.vel.x + push_x) as i64,
                    y: (p2.vel.y + push_y) as i64,
                    z: (p2.vel.z + push_z) as i64,
                },
                ..p2
            }),
            Some(VolumeVolumeCollisionDetectionEvent {
                entity_ref,
                entity_other,
                volume_1: vol1,
                volume_2: vol2,
                info: CollisionInfo { pos: avg, normal: nrm },
                depth: depth as i64,
            }),
        )
    } else {
        (points1, points2, None)
    }
}

/// The effect of testing one volume of the first object against every volume
/// of the second, in collection order.
pub open spec fn vv_inner(
    points1: Seq<PhysPoint>,
    points2: Seq<PhysPoint>,
    vol1: PhysicsVolume,
    vols2: Seq<PhysicsVolume>,
    entity_ref: usize,
    entity_other: usize,
) -> (Seq<PhysPoint>, Seq<PhysPoint>, Seq<VolumeVolumeCollisionDetectionEvent>)
    decreases vols2.len(),
{
    if vols2.len() == 0 {
        (points1, points2, Seq::empty())
    } else {
        let stepped = vv_step(points1, points2, vol1, vols2[0], entity_ref, entity_other);
        let rest = vv_inner(stepped.0, stepped.1, vol1, vols2.skip(1), entity_ref, entity_other);
        (
            rest.0,
            rest.1,
            match stepped.2 {
                Some(ev) => seq![ev] + rest.2,
                None => rest.2,
            },
        )
    }
}

/// The effect of testing every volume pair of the two objects, in collection
/// order, corrections accumulating from pair to pair.
pub open spec fn vv_outer(
    points1: Seq<PhysPoint>,
    vols1: Seq<PhysicsVolume>,
    points2: Seq<PhysPoint>,
    vols2: Seq<PhysicsVolume>,
    entity_ref: usize,
    entity_other: usize,
) -> (Seq<PhysPoint>, Seq<PhysPoint>, Seq<VolumeVolumeCollisionDetectionEvent>)
    decreases vols1.len(),
{
    if vols1.len() == 0 {
        (points1, points2, Seq::empty())
    } else {
        let inner = vv_inner(points1, points2, vols1[0], vols2, entity_ref, entity_other);
        let rest = vv_outer(inner.0, vols1.skip(1), inner.1, vols2, entity_ref, entity_other);
        (rest.0, rest.1, inner.2 + rest.2)
    }
}

/// The whole pairwise collision pass: nothing at all when the two
/// collections' bounding boxes miss each other, otherwise every volume pair
/// tested in order.
pub open spec fn vv_system(
    points1: Seq<PhysPoint>,
    vols1: Seq<PhysicsVolume>,
    points2: Seq<PhysPoint>,
    vols2: Seq<PhysicsVolume>,
    entity_ref: usize,
    entity_other: usize,
) -> (Seq<PhysPoint>, Seq<PhysPoint>, Seq<VolumeVolumeCollisionDetectionEvent>) {
    let box1 = collection_aabb(vols1, points1);
    let box2 = collection_aabb(vols2, points2);
    if span_overlap(box1.spans[0], box2.spans[0])
        && span_overlap(box1.spans[1], box2.spans[1])
        && span_overlap(box1.spans[2], box2.spans[2]) {
        vv_outer(points1, vols1, points2, vols2, entity_ref, entity_other)
    } else {
        (points1, points2, Seq::empty())
    }
}

/// Object-object collision via physics volumes, for one unordered pair of
/// objects (the host loop runs this over every pair of a scene).
///
/// After a cheap AABB rejection, every volume of the first object is tested
/// against every volume of the second, in collection order. Each hit applies
/// an impulse-like push-apart of `normal * depth` to the two carrying
/// points' velocities (corrections accumulate across hits) and emits exactly
/// one event; a missed pair changes nothing. The result is exactly
/// [`vv_system`] of the incoming state: positions and masses never change,
/// and an event comes out if and only if its pair collides.
pub fn volume_volume_collision_system(
    entity_ref: usize,
    entity_other: usize,
    points1: &mut PointNetwork,
    volumes1: &VolumeCollection,
    points2: &mut PointNetwork,
    volumes2: &VolumeCollection,
) -> (events: Vec<VolumeVolumeCollisionDetectionEvent>)
    requires
        network_ok(*old(points1)),
        network_ok(*old(points2)),
        collection_ok(*volumes1, old(points1).points@.len() as int),
        collection_ok(*volumes2, old(points2).points@.len() as int),
        volumes1.volumes@.len() <= 50,
        volumes2.volumes@.len() <= 50,
        volumes1.volumes@.len() > 0,
        volumes2.volumes@.len() > 0,
    ensures
        final(points1).points@ == vv_system(old(points1).points@, volumes1.volumes@,
            old(points2).points@, volumes2.volumes@, entity_ref, entity_other).0,
        final(points2).points@ == vv_system(old(points1).points@, volumes1.volumes@,
            old(points2).points@, volumes2.volumes@, entity_ref, entity_other).1,
        events@ == vv_system(old(points1).points@, volumes1.volumes@,
            old(points2).points@, volumes2.volumes@, entity_ref, entity_other).2,
        forall|i: int| 0 <= i < old(points1).points@.len()
            ==> (#[trigger] final(points1).points@[i]).pos == old(points1).points@[i].pos
                && final(points1).points@[i].mass == old(points1).points@[i].mass,
        forall|i: int| 0 <= i < old(points2).points@.len()
            ==> (#[trigger] final(points2).points@[i]).pos == old(points2).points@[i].pos
                && final(points2).points@[i].mass == old(points2).points@[i].mass,
{
    let mut events: Vec<VolumeVolumeCollisionDetectionEvent> = Vec::new();
    let box1 = volumes1.aabb(points1);
    let box2 = volumes2.aabb(points2);
    if !box1.check(&box2) {
        return events;
    }
    let ghost all1 = volumes1.volumes@;
    let ghost all2 = volumes2.volumes@;
    let ghost total = vv_outer(old(points1).points@, all1, old(points2).points@, all2,
        entity_ref, entity_other);
    proof {
        assert(all1.skip(0) =~= all1);
        assert(Seq::<VolumeVolumeCollisionDetectionEvent>::empty() + total.2 =~= total.2);
    }
    let n1 = volumes1.volumes.len();
    let n2 = volumes2.volumes.len();
    let ghost mut k: int = 0;
    let mut i: usize = 0;
    while i < n1
        invariant
            i <= n1,
            n1 == volumes1.volumes@.len(),
            n2 == volumes2.volumes@.len(),
            0 < n1 <= 50 && 0 < n2 <= 50,
            all1 == volumes1.volumes@,
            all2 == volumes2.volumes@,
            total == vv_outer(old(points1).points@, all1, old(points2).points@, all2,
                entity_ref, entity_other),
            collection_ok(*volumes1, points1.points@.len() as int),
            collection_ok(*volumes2, points2.points@.len() as int),
            points1.points@.len() == old(points1).points@.len(),
            points2.points@.len() == old(points2).points@.len(),
            0 <= k <= i * 50,
            forall|q: int| 0 <= q < points1.points@.len()
                ==> (#[trigger] points1.points@[q]).pos == old(points1).points@[q].pos
                    && points1.points@[q].mass == old(points1).points@[q].mass
                    && 0 < points1.points@[q].mass
                    && v_ok(points1.points@[q].pos)
                    && -((1 + k) * FX_LIM) <= points1.points@[q].vel.x <= (1 + k) * FX_LIM
                    && -((1 + k) * FX_LIM) <= points1.points@[q].vel.y <= (1 + k) * FX_LIM
                    && -((1 + k) * FX_LIM) <= points1.points@[q].vel.z <= (1 + k) * FX_LIM,
            forall|q: int| 0 <= q < points2.points@.len()
                ==> (#[trigger] points2.points@[q]).pos == old(points2).points@[q].pos
                    && points2.points@[q].mass == old(points2).points@[q].mass
                    && 0 < points2.points@[q].mass
                    && v_ok(points2.points@[q].pos)
                    && -((1 + k) * FX_LIM) <= points2.points@[q].vel.x <= (1 + k) * FX_LIM
                    && -((1 + k) * FX_LIM) <= points2.points@[q].vel.y <= (1 + k) * FX_LIM
                    && -((1 + k) * FX_LIM) <= points2.points@[q].vel.z <= (1 + k) * FX_LIM,
            ({
                let rest = vv_outer(points1.points@, all1.skip(i as int), points2.points@, all2,
                    entity_ref, entity_other);
                &&& rest.0 == total.0
                &&& rest.1 == total.1
                &&& total.2 == events@ + rest.2
            }),
        decreases n1 - i,
    {
        let vol1 = volumes1.volumes[i];
        proof {
            assert(all1.skip(i as int)[0] == all1[i as int]);
            assert(all1.skip(i as int).skip(1) =~= all1.skip(i as int + 1));
            assert(all2.skip(0) =~= all2);
        }
        let mut j: usize = 0;
        while j < n2
            invariant
                i < n1,
                j <= n2,
                n1 == volumes1.volumes@.len(),
                n2 == volumes2.volumes@.len(),
                0 < n1 <= 50 && 0 < n2 <= 50,
                vol1 == all1[i as int],
                all1 == volumes1.volumes@,
                all2 == volumes2.volumes@,
                total == vv_outer(old(points1).points@, all1, old(points2).points@, all2,
                    entity_ref, entity_other),
                collection_ok(*volumes1, points1.points@.len() as int),
                collection_ok(*volumes2, points2.points@.len() as int),
                points1.points@.len() == old(points1).points@.len(),
                points2.points@.len() == old(points2).points@.len(),
                0 <= k <= i * 50 + j,
                forall|q: int| 0 <= q < points1.points@.len()
                    ==> (#[trigger] points1.points@[q]).pos == old(points1).points@[q].pos
                        && points1.points@[q].mass == old(points1).points@[q].mass
                        && 0 < points1.points@[q].mass
                        && v_ok(points1.points@[q].pos)
                        && -((1 + k) * FX_LIM) <= points1.points@[q].vel.x <= (1 + k) * FX_LIM
                        && -((1 + k) * FX_LIM) <= points1.points@[q].vel.y <= (1 + k) * FX_LIM
                        && -((1 + k) * FX_LIM) <= points1.points@[q].vel.z <= (1 + k) * FX_LIM,
                forall|q: int| 0 <= q < points2.points@.len()
                    ==> (#[trigger] points2.points@[q]).pos == old(points2).points@[q].pos
                        && points2.points@[q].mass == old(points2).points@[q].mass
                        && 0 < points2.points@[q].mass
                        && v_ok(points2.points@[q].pos)
                        && -((1 + k) * FX_LIM) <= points2.points@[q].vel.x <= (1 + k) * FX_LIM
                        && -((1 + k) * FX_LIM) <= points2.points@[q].vel.y <= (1 + k) * FX_LIM
                        && -((1 + k) * FX_LIM) <= points2.points@[q].vel.z <= (1 + k) * FX_LIM,
                ({
                    let inner = vv_inner(points1.points@, points2.points@, vol1,
                        all2.skip(j as int), entity_ref, entity_other);
                    let rest = vv_outer(inner.0, all1.skip(i as int + 1), inner.1, all2,
                        entity_ref, entity_other);
                    &&& rest.0 == total.0
                    &&& rest.1 == total.1
                    &&& total.2 == events@ + inner.2 + rest.2
                }),
            decreases n2 - j,
        {
            proof {
                assert(all2.skip(j as int)[0] == all2[j as int]);
                assert(all2.skip(j as int).skip(1) =~= all2.skip(j as int + 1));
            }
            let ghost pre1 = points1.points@;
            let ghost pre2 = points2.points@;
            let ghost pre_events = events@;
            let vol2 = volumes2.volumes[j];
            let pos1 = points1.points[vol1.point_idx].pos;
            let pos2 = points2.points[vol2.point_idx].pos;
            let offs_1_to_2 = Vec3 {
                x: pos2.x - pos1.x,
                y: pos2.y - pos1.y,
                z: pos2.z - pos1.z,
            };
            let found = vol1.volume_type.collision(&vol2.volume_type, offs_1_to_2);
            if let Some(collision) = found {
                proof {
                    crate::vec3::lemma_norm_bounds(collision.pos);
                    crate::vec3::lemma_norm_bounds(
                        crate::physics::volume::local_to(collision.pos, offs_1_to_2));
                    crate::vec3::lemma_unit_bounds(collision.pos);
                }
                let sdf1 = vol1.volume_type.sdf(collision.pos);
                let local2 = Vec3 {
                    x: collision.pos.x - offs_1_to_2.x,
                    y: collision.pos.y - offs_1_to_2.y,
                    z: collision.pos.z - offs_1_to_2.z,
                };
                let sdf2 = vol2.volume_type.sdf(local2);
                let depth = (-sdf1 - sdf2) / 2;
                proof {
                    lemma_fx_mul_bound(collision.normal.x as int, depth as int,
                        FX_ONE as int, FX_LIM as int);
                    lemma_fx_mul_bound(collision.normal.y as int, depth as int,
                        FX_ONE as int, FX_LIM as int);
                    lemma_fx_mul_bound(collision.normal.z as int, depth as int,
                        FX_ONE as int, FX_LIM as int);
                    crate::fx::lemma_tdiv_exact(FX_LIM as int, FX_ONE as int);
                }
                let push = Vec3 {
                    x: crate::fx::fx_mul64(collision.normal.x, depth),
                    y: crate::fx::fx_mul64(collision.normal.y, depth),
                    z: crate::fx::fx_mul64(collision.normal.z, depth),
                };
                let p1 = points1.points[vol1.point_idx];
                let p1b = PhysPoint {
                    vel: Vec3 {
                        x: p1.vel.x - push.x,
                        y: p1.vel.y - push.y,
                        z: p1.vel.z - push.z,
                    },
                    ..p1
                };
                points1.points.set(vol1.point_idx, p1b);
                let p2 = points2.points[vol2.point_idx];
                let p2b = PhysPoint {
                    vel: Vec3 {
                        x: p2.vel.x + push.x,
                        y: p2.vel.y + push.y,
                        z: p2.vel.z + push.z,
                    },
                    ..p2
                };
                points2.points.set(vol2.point_idx, p2b);
                let ev = VolumeVolumeCollisionDetectionEvent {
                    entity_ref,
                    entity_other,
                    volume_1: vol1,
                    volume_2: vol2,
                    info: collision,
                    depth,
                };
                events.push(ev);
                proof {
                    let stepped = vv_step(pre1, pre2, vol1, all2[j as int],
                        entity_ref, entity_other);
                    assert(points1.points@ =~= stepped.0);
                    assert(points2.points@ =~= stepped.1);
                    assert(stepped.2 == Some(ev));
                    assert(events@ =~= pre_events + seq![ev]);
                    lemma_vv_chain(pre_events, seq![ev],
                        vv_inner(points1.points@, points2.points@, vol1,
                            all2.skip(j as int + 1), entity_ref, entity_other).2,
                        vv_outer(vv_inner(points1.points@, points2.points@, vol1,
                                all2.skip(j as int + 1), entity_ref, entity_other).0,
                            all1.skip(i as int + 1),
                            vv_inner(points1.points@, points2.points@, vol1,
                                all2.skip(j as int + 1), entity_ref, entity_other).1,
                            all2, entity_ref, entity_other).2);
                }
            } else {
                proof {
                    let stepped = vv_step(pre1, pre2, vol1, all2[j as int],
                        entity_ref, entity_other);
                    assert(stepped.0 =~= pre1);
                    assert(stepped.1 =~= pre2);
                }
            }
            proof {
                k = k + 1;
                assert(k <= i * 50 + j + 1);
            }
            j += 1;
        }
        proof {
            assert(i * 50 + n2 <= (i + 1) * 50) by (nonlinear_arith)
                requires n2 <= 50;
            assert(all2.skip(n2 as int).len() == 0);
        }
        i += 1;
    }
    proof {
        assert(all1.skip(n1 as int).len() == 0);
        assert(events@ + Seq::<VolumeVolumeCollisionDetectionEvent>::empty() =~= events@);
    }
    events
}

/// Concatenating event lists is associative, whichever way the pass groups
/// them.
proof fn lemma_vv_chain(
    a: Seq<VolumeVolumeCollisionDetectionEvent>,
    b: Seq<VolumeVolumeCollisionDetectionEvent>,
    c: Seq<VolumeVolumeCollisionDetectionEvent>,
    d: Seq<VolumeVolumeCollisionDetectionEvent>,
)
    ensures
        a + (b + c) + d =~= (a + b) + c + d,
        a + (b + c + d) =~= (a + b) + (c + d),
{
}

} // verus!
