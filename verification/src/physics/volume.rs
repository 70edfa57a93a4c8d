//! Physics volumes: convex collision shapes attached to physics points,
//! axis-aligned bounding boxes, and the averaged-closest-point collision
//! test.

use vstd::prelude::*;

verus! {

use crate::{FX_ONE, FX_LIM};
use crate::fx::{
    tdiv, fx_mul, fx_div, fx_ok, isqrt, is_isqrt,
    lemma_isqrt_vs, lemma_tdiv_ordered, lemma_tdiv_exact, lemma_tdiv_neg,
};
use crate::vec3::{Vec3, v_ok, vd_ok, unit_of, norm2, norm_of, lemma_norm_bounds, lemma_sq_bound};

/// An offset between two in-range positions: within twice the scalar limit.
pub open spec fn offset_ok(v: Vec3) -> bool {
    &&& -2 * crate::FX_LIM <= v.x <= 2 * crate::FX_LIM
    &&& -2 * crate::FX_LIM <= v.y <= 2 * crate::FX_LIM
    &&& -2 * crate::FX_LIM <= v.z <= 2 * crate::FX_LIM
}
use crate::physics::base::{PhysPoint, PointNetwork, network_ok, point_ok};
use vstd::arithmetic::mul::lemma_mul_inequality;

/// A closed interval on one axis.
#[derive(Clone, Copy, PartialEq, Eq, Structural, Debug)]
pub struct Span {
    pub start: i64,
    pub end: i64,
}

/// Two closed intervals share at least one point.
pub open spec fn span_overlap(a: Span, b: Span) -> bool {
    a.start <= b.end && b.start <= a.end
}

/// Axis-aligned bounding box: a closed box, one [`Span`] per axis.
///
/// Used for quick preliminary intersection checks.
#[derive(Clone, Copy, Debug)]
pub struct AABB {
    /// Spans on the X, Y and Z axes, respectively.
    pub spans: [Span; 3],
}

/// A well-formed box: every span runs forward.
pub open spec fn aabb_wf(b: AABB) -> bool {
    &&& b.spans[0].start <= b.spans[0].end
    &&& b.spans[1].start <= b.spans[1].end
    &&& b.spans[2].start <= b.spans[2].end
}

/// The box that covers two boxes: per axis, the earliest start and the
/// latest end.
pub open spec fn aabb_union(a: AABB, b: AABB) -> AABB {
    AABB { spans: [
        Span {
            start: if a.spans[0].start <= b.spans[0].start { a.spans[0].start } else { b.spans[0].start },
            end: if a.spans[0].end >= b.spans[0].end { a.spans[0].end } else { b.spans[0].end },
        },
        Span {
            start: if a.spans[1].start <= b.spans[1].start { a.spans[1].start } else { b.spans[1].start },
            end: if a.spans[1].end >= b.spans[1].end { a.spans[1].end } else { b.spans[1].end },
        },
        Span {
            start: if a.spans[2].start <= b.spans[2].start { a.spans[2].start } else { b.spans[2].start },
            end: if a.spans[2].end >= b.spans[2].end { a.spans[2].end } else { b.spans[2].end },
        },
    ] }
}

/// A point lies inside a box (inclusive of its faces).
pub open spec fn aabb_contains(b: AABB, p: Vec3) -> bool {
    &&& b.spans[0].start <= p.x <= b.spans[0].end
    &&& b.spans[1].start <= p.y <= b.spans[1].end
    &&& b.spans[2].start <= p.z <= b.spans[2].end
}

impl AABB {
    /// Initialize an AABB with three spans, one for each axis: X, Y and Z.
    pub fn new(range_x: Span, range_y: Span, range_z: Span) -> (r: AABB)
        ensures
            r.spans[0] == range_x && r.spans[1] == range_y && r.spans[2] == range_z,
    {
        AABB { spans: [range_x, range_y, range_z] }
    }

    /// Check whether two AABBs intersect: they do exactly when their spans
    /// overlap on every axis.
    pub fn check(&self, other: &AABB) -> (r: bool)
        ensures
            r == (span_overlap(self.spans[0], other.spans[0])
                && span_overlap(self.spans[1], other.spans[1])
                && span_overlap(self.spans[2], other.spans[2])),
    {
        self.spans[0].start <= other.spans[0].end && other.spans[0].start <= self.spans[0].end
            && self.spans[1].start <= other.spans[1].end && other.spans[1].start <= self.spans[1].end
            && self.spans[2].start <= other.spans[2].end && other.spans[2].start <= self.spans[2].end
    }

    /// Check whether a point lies within this AABB.
    pub fn check_point(&self, p: Vec3) -> (r: bool)
        ensures
            r == aabb_contains(*self, p),
    {
        self.spans[0].start <= p.x && p.x <= self.spans[0].end
            && self.spans[1].start <= p.y && p.y <= self.spans[1].end
            && self.spans[2].start <= p.z && p.z <= self.spans[2].end
    }

    /// Returns a new AABB which contains both input AABBs: per axis, the
    /// earliest start and the latest end.
    pub fn union(self, other: AABB) -> (r: AABB)
        ensures
            r == aabb_union(self, other),
    {
        let s0 = Span {
            start: if self.spans[0].start <= other.spans[0].start { self.spans[0].start } else { other.spans[0].start },
            end: if self.spans[0].end >= other.spans[0].end { self.spans[0].end } else { other.spans[0].end },
        };
        let s1 = Span {
            start: if self.spans[1].start <= other.spans[1].start { self.spans[1].start } else { other.spans[1].start },
            end: if self.spans[1].end >= other.spans[1].end { self.spans[1].end } else { other.spans[1].end },
        };
        let s2 = Span {
            start: if self.spans[2].start <= other.spans[2].start { self.spans[2].start } else { other.spans[2].start },
            end: if self.spans[2].end >= other.spans[2].end { self.spans[2].end } else { other.spans[2].end },
        };
        let r = AABB { spans: [s0, s1, s2] };
        proof {
            assert(r.spans =~= aabb_union(self, other).spans);
        }
        r
    }

    /// Return a copy of this AABB, fully translated along a 3D vector.
    pub fn translate(self, translation: Vec3) -> (r: AABB)
        requires
            forall|i: int| 0 <= i < 3 ==> i64::MIN <= (#[trigger] self.spans[i]).start
                + crate::physics::base::axis_of(translation, i) <= i64::MAX
                && i64::MIN <= self.spans[i].end + crate::physics::base::axis_of(translation, i) <= i64::MAX,
        ensures
            forall|i: int| 0 <= i < 3 ==> (#[trigger] r.spans[i]).start
                == self.spans[i].start + crate::physics::base::axis_of(translation, i)
                && r.spans[i].end == self.spans[i].end + crate::physics::base::axis_of(translation, i),
    {
        AABB { spans: [
            Span { start: self.spans[0].start + translation.x, end: self.spans[0].end + translation.x },
            Span { start: self.spans[1].start + translation.y, end: self.spans[1].end + translation.y },
            Span { start: self.spans[2].start + translation.z, end: self.spans[2].end + translation.z },
        ] }
    }
}

/// **Union containment.** The union of two boxes contains every point of
/// either box.
pub proof fn lemma_aabb_union_contains(a: AABB, b: AABB, p: Vec3)
    requires
        aabb_contains(a, p) || aabb_contains(b, p),
    ensures
        aabb_contains(aabb_union(a, b), p),
{
}

/// **Overlap is sharing a point.** Two boxes pass the axis-span check
/// exactly when some point lies in both.
pub proof fn lemma_aabb_check_exact(a: AABB, b: AABB)
    requires
        aabb_wf(a),
        aabb_wf(b),
    ensures
        (span_overlap(a.spans[0], b.spans[0])
            && span_overlap(a.spans[1], b.spans[1])
            && span_overlap(a.spans[2], b.spans[2]))
        <==> exists|p: Vec3| aabb_contains(a, p) && aabb_contains(b, p),
{
    if span_overlap(a.spans[0], b.spans[0])
        && span_overlap(a.spans[1], b.spans[1])
        && span_overlap(a.spans[2], b.spans[2]) {
        let w = Vec3 {
            x: if a.spans[0].start >= b.spans[0].start { a.spans[0].start } else { b.spans[0].start },
            y: if a.spans[1].start >= b.spans[1].start { a.spans[1].start } else { b.spans[1].start },
            z: if a.spans[2].start >= b.spans[2].start { a.spans[2].start } else { b.spans[2].start },
        };
        assert(aabb_contains(a, w) && aabb_contains(b, w));
    }
}

/// Basic information on a detected collision.
#[derive(Clone, Copy, PartialEq, Eq, Structural, Debug)]
pub struct CollisionInfo {
    /// The collision point: the average of both volumes' closest points, so
    /// it may lie below either surface depending on penetration depth.
    pub pos: Vec3,

    /// The normal of the collision, evaluated at the collision point on the
    /// first volume.
    pub normal: Vec3,
}

/// A sphere-shaped volume, centered at its local origin.
#[derive(Clone, Copy, PartialEq, Eq, Structural, Debug)]
pub struct SphereDef {
    /// The radius of this sphere, centered at its origin.
    pub radius: i64,
}

/// A well-formed sphere: positive radius within the working range.
pub open spec fn sphere_ok(s: SphereDef) -> bool {
    0 < s.radius <= FX_LIM
}

/// The signed distance from a sphere's surface: negative inside, positive
/// outside, zero (within the fixed-point grid) on the boundary.
pub open spec fn sphere_sdf(radius: int, pos: Vec3) -> int {
    norm_of(pos) - radius
}

/// The closest point of a sphere to a reference point: the reference itself
/// when inside, otherwise the reference pulled back onto the surface.
pub open spec fn sphere_closest(radius: int, reference: Vec3) -> Vec3 {
    if norm2(reference) <= radius * radius {
        reference
    } else {
        let len = norm_of(reference);
        Vec3 {
            x: tdiv(reference.x * radius, len) as i64,
            y: tdiv(reference.y * radius, len) as i64,
            z: tdiv(reference.z * radius, len) as i64,
        }
    }
}

/// A component scaled back to a radius stays within the radius: dividing
/// `c * radius` by the vector's length lands in `[-radius, radius]`.
pub proof fn lemma_scaled_component(c: int, n2: int, len: int, radius: int)
    requires
        c * c <= n2,
        is_isqrt(n2, len),
        len > 0,
        radius >= 0,
    ensures
        -radius <= tdiv(c * radius, len) <= radius,
{
    crate::vec3::lemma_unit_component(c, n2, len);
    assert(c * radius <= len * radius) by (nonlinear_arith)
        requires c <= len && radius >= 0;
    assert(-(len * radius) <= c * radius) by (nonlinear_arith)
        requires -len <= c && radius >= 0;
    lemma_tdiv_ordered(c * radius, len * radius, len);
    lemma_tdiv_ordered(-(len * radius), c * radius, len);
    lemma_tdiv_exact(radius, len);
    assert(radius * len == len * radius) by (nonlinear_arith);
    lemma_tdiv_neg(len * radius, len);
}

impl SphereDef {
    /// Return a new SphereDef, with a specified radius.
    ///
    /// The origin is assumed to be the local origin.
    pub fn new(radius: i64) -> (r: SphereDef)
        ensures
            r.radius == radius,
    {
        SphereDef { radius }
    }

    /// The closest point to the reference point within this sphere.
    pub fn closest_point_to(&self, reference: Vec3) -> (r: Vec3)
        requires
            vd_ok(reference),
            sphere_ok(*self),
        ensures
            r == sphere_closest(self.radius as int, reference),
            vd_ok(r),
            offset_ok(reference) ==> offset_ok(r),
    {
        proof {
            lemma_norm_bounds(reference);
            lemma_sq_bound(self.radius as int);
        }
        let n2 = reference.length_squared();
        let r2 = (self.radius as i128) * (self.radius as i128);
        if n2 <= r2 {
            reference
        } else {
            let len = reference.length();
            proof {
                lemma_isqrt_vs(norm2(reference), self.radius as int);
                lemma_scaled_component(reference.x as int, norm2(reference), len as int, self.radius as int);
                lemma_scaled_component(reference.y as int, norm2(reference), len as int, self.radius as int);
                lemma_scaled_component(reference.z as int, norm2(reference), len as int, self.radius as int);
                assert(-(8 * FX_LIM * FX_LIM) <= (reference.x as int) * (self.radius as int) <= 8 * FX_LIM * FX_LIM) by (nonlinear_arith)
                    requires -8 * FX_LIM <= reference.x <= 8 * FX_LIM && 0 <= self.radius <= FX_LIM;
                assert(-(8 * FX_LIM * FX_LIM) <= (reference.y as int) * (self.radius as int) <= 8 * FX_LIM * FX_LIM) by (nonlinear_arith)
                    requires -8 * FX_LIM <= reference.y <= 8 * FX_LIM && 0 <= self.radius <= FX_LIM;
                assert(-(8 * FX_LIM * FX_LIM) <= (reference.z as int) * (self.radius as int) <= 8 * FX_LIM * FX_LIM) by (nonlinear_arith)
                    requires -8 * FX_LIM <= reference.z <= 8 * FX_LIM && 0 <= self.radius <= FX_LIM;
            }
            let cx = (((reference.x as i128) * (self.radius as i128)) / (len as i128)) as i64;
            let cy = (((reference.y as i128) * (self.radius as i128)) / (len as i128)) as i64;
            let cz = (((reference.z as i128) * (self.radius as i128)) / (len as i128)) as i64;
            Vec3 { x: cx, y: cy, z: cz }
        }
    }

    /// The signed distance field of this sphere at `pos`: positive outside,
    /// negative inside.
    pub fn sdf(&self, pos: Vec3) -> (r: i64)
        requires
            vd_ok(pos),
            sphere_ok(*self),
        ensures
            r == sphere_sdf(self.radius as int, pos),
    {
        let len = pos.length();
        len - self.radius
    }

    /// The outward normal at `pos`: the direction from the center, or a
    /// fixed upward fallback at the exact center.
    pub fn normal(&self, pos: Vec3) -> (r: Vec3)
        requires
            vd_ok(pos),
        ensures
            r == unit_of(pos),
            -FX_ONE <= r.x <= FX_ONE && -FX_ONE <= r.y <= FX_ONE && -FX_ONE <= r.z <= FX_ONE,
    {
        pos.normalize()
    }

    /// An AABB that wraps around this sphere.
    pub fn aabb(&self) -> (r: AABB)
        requires
            sphere_ok(*self),
        ensures
            forall|i: int| 0 <= i < 3 ==> (#[trigger] r.spans[i]).start == -self.radius
                && r.spans[i].end == self.radius,
    {
        let s = Span { start: -self.radius, end: self.radius };
        AABB { spans: [s, s, s] }
    }

    /// Whether a point is inside this sphere: the signed distance is
    /// negative, which happens exactly when the squared distance from the
    /// center is below the squared radius.
    pub fn point_is_within(&self, point: Vec3) -> (r: bool)
        requires
            vd_ok(point),
            sphere_ok(*self),
        ensures
            r == (sphere_sdf(self.radius as int, point) < 0),
            r == (norm2(point) < self.radius * self.radius),
    {
        proof {
            lemma_norm_bounds(point);
            lemma_isqrt_vs(norm2(point), self.radius as int);
            lemma_sq_bound(self.radius as int);
        }
        let n2 = point.length_squared();
        n2 < (self.radius as i128) * (self.radius as i128)
    }
}

/// **Sign convention of the sphere's signed distance field.** For a sphere
/// of radius R centered at the origin, the field is negative exactly on the
/// points nearer than R, zero exactly on the fixed-point boundary shell, and
/// positive exactly beyond it.
pub proof fn lemma_sphere_sdf_sign(radius: int, p: Vec3)
    requires
        vd_ok(p),
        0 < radius <= FX_LIM,
    ensures
        (sphere_sdf(radius, p) < 0) <==> (norm2(p) < radius * radius),
        (sphere_sdf(radius, p) == 0) <==> (radius * radius <= norm2(p) < (radius + 1) * (radius + 1)),
        (sphere_sdf(radius, p) > 0) <==> ((radius + 1) * (radius + 1) <= norm2(p)),
{
    lemma_norm_bounds(p);
    lemma_isqrt_vs(norm2(p), radius);
    lemma_isqrt_vs(norm2(p), radius + 1);
}

/// A volume definition: a tagged variant over the convex shape primitives.
///
/// All volume definitions are presumed to sit at the local origin.
#[derive(Clone, Copy, PartialEq, Eq, Structural, Debug)]
pub enum VolumeType {
    Sphere(SphereDef),
}

/// A well-formed volume: its shape parameters are in range.
pub open spec fn volume_type_ok(v: VolumeType) -> bool {
    match v {
        VolumeType::Sphere(s) => sphere_ok(s),
    }
}

/// The signed distance field of a volume, by shape.
pub open spec fn volume_sdf(v: VolumeType, pos: Vec3) -> int {
    match v {
        VolumeType::Sphere(s) => sphere_sdf(s.radius as int, pos),
    }
}

/// The closest point of a volume to a reference point, by shape.
pub open spec fn volume_closest(v: VolumeType, reference: Vec3) -> Vec3 {
    match v {
        VolumeType::Sphere(s) => sphere_closest(s.radius as int, reference),
    }
}

impl Default for VolumeType {
    /// The default volume: a sphere of half a unit radius.
    fn default() -> (r: Self)
        ensures
            r == VolumeType::Sphere(SphereDef { radius: 500_000 }),
    {
        VolumeType::Sphere(SphereDef::new(500_000))
    }
}

impl VolumeType {
    /// The closest point to the reference point within this volume.
    pub fn closest_point_to(&self, reference: Vec3) -> (r: Vec3)
        requires
            vd_ok(reference),
            volume_type_ok(*self),
        ensures
            r == volume_closest(*self, reference),
            vd_ok(r),
            offset_ok(reference) ==> offset_ok(r),
    {
        match self {
            VolumeType::Sphere(s) => s.closest_point_to(reference),
        }
    }

    /// The signed distance field of this volume at `pos`.
    pub fn sdf(&self, pos: Vec3) -> (r: i64)
        requires
            vd_ok(pos),
            volume_type_ok(*self),
        ensures
            r == volume_sdf(*self, pos),
    {
        match self {
            VolumeType::Sphere(s) => s.sdf(pos),
        }
    }

    /// The outward normal of this volume at `pos`.
    pub fn normal(&self, pos: Vec3) -> (r: Vec3)
        requires
            vd_ok(pos),
            volume_type_ok(*self),
        ensures
            r == unit_of(pos),
            -FX_ONE <= r.x <= FX_ONE && -FX_ONE <= r.y <= FX_ONE && -FX_ONE <= r.z <= FX_ONE,
    {
        match self {
            VolumeType::Sphere(s) => s.normal(pos),
        }
    }

    /// An AABB that wraps around this volume, in its local frame.
    pub fn aabb(&self) -> (r: AABB)
        requires
            volume_type_ok(*self),
        ensures
            forall|i: int| 0 <= i < 3 ==> (#[trigger] r.spans[i]).start == -volume_radius(*self)
                && r.spans[i].end == volume_radius(*self),
    {
        match self {
            VolumeType::Sphere(s) => s.aabb(),
        }
    }

    /// Whether a point is inside this volume.
    pub fn point_is_within(&self, point: Vec3) -> (r: bool)
        requires
            vd_ok(point),
            volume_type_ok(*self),
        ensures
            r == (volume_sdf(*self, point) < 0),
    {
        match self {
            VolumeType::Sphere(s) => s.point_is_within(point),
        }
    }

    /// The averaged-closest-point collision test, exact for convex volumes:
    /// the average of this volume's closest point to the other volume's
    /// origin and the other volume's closest point back (taken in world
    /// space) witnesses a collision exactly when it lies inside both
    /// volumes, each tested in its own local frame.
    ///
    /// For non-convex geometries, approximate them with multiple volumes:
    /// that is the point of the [`VolumeCollection`] API.
    pub fn collision(&self, volume: &VolumeType, offset: Vec3) -> (r: Option<CollisionInfo>)
        requires
            offset_ok(offset),
            volume_type_ok(*self),
            volume_type_ok(*volume),
        ensures
            r is Some <==> {
                let avg = collision_average(*self, *volume, offset);
                volume_sdf(*self, avg) < 0
                    && volume_sdf(*volume, local_to(avg, offset)) < 0
            },
            r is Some ==> r == Some(CollisionInfo {
                pos: collision_average(*self, *volume, offset),
                normal: unit_of(collision_average(*self, *volume, offset)),
            }),
            r is Some ==> vd_ok(collision_average(*self, *volume, offset))
                && vd_ok(local_to(collision_average(*self, *volume, offset), offset)),
    {
        let near_self = self.closest_point_to(offset);
        proof {
            lemma_vd_neg(offset);
        }
        let near_other = volume.closest_point_to(offset.neg());
        proof {
            crate::fx::lemma_tdiv_range(near_self.x + offset.x + near_other.x, 2);
            crate::fx::lemma_tdiv_range(near_self.y + offset.y + near_other.y, 2);
            crate::fx::lemma_tdiv_range(near_self.z + offset.z + near_other.z, 2);
        }
        let avg = Vec3 {
            x: (near_self.x + offset.x + near_other.x) / 2,
            y: (near_self.y + offset.y + near_other.y) / 2,
            z: (near_self.z + offset.z + near_other.z) / 2,
        };
        let local_other = Vec3 {
            x: avg.x - offset.x,
            y: avg.y - offset.y,
            z: avg.z - offset.z,
        };
        proof {
            assert(offset_ok(near_self));
            assert(offset_ok(near_other));
            assert(vd_ok(avg));
            assert(vd_ok(local_other));
        }
        if self.point_is_within(avg) && volume.point_is_within(local_other) {
            Some(CollisionInfo { pos: avg, normal: self.normal(avg) })
        } else {
            None
        }
    }
}

/// The radius of a volume's bounding sphere, by shape.
pub open spec fn volume_radius(v: VolumeType) -> int {
    match v {
        VolumeType::Sphere(s) => s.radius as int,
    }
}

/// The averaged closest point of a collision test: the midpoint of this
/// volume's closest point to the other's origin and the other volume's
/// closest point back, both in the first volume's frame.
pub open spec fn collision_average(a: VolumeType, b: VolumeType, offset: Vec3) -> Vec3 {
    let na = volume_closest(a, offset);
    let nb = volume_closest(b, neg_v(offset));
    Vec3 {
        x: tdiv(na.x + offset.x + nb.x, 2) as i64,
        y: tdiv(na.y + offset.y + nb.y, 2) as i64,
        z: tdiv(na.z + offset.z + nb.z, 2) as i64,
    }
}

/// A point of the first volume's frame expressed in the frame of the volume
/// sitting at `offset`.
pub open spec fn local_to(p: Vec3, offset: Vec3) -> Vec3 {
    Vec3 {
        x: (p.x - offset.x) as i64,
        y: (p.y - offset.y) as i64,
        z: (p.z - offset.z) as i64,
    }
}

/// The negation of a vector, in spec.
pub open spec fn neg_v(v: Vec3) -> Vec3 {
    Vec3 { x: (-v.x) as i64, y: (-v.y) as i64, z: (-v.z) as i64 }
}

/// Negating an offset keeps it an offset.
pub proof fn lemma_vd_neg(v: Vec3)
    requires
        offset_ok(v),
    ensures
        offset_ok(neg_v(v)),
        vd_ok(neg_v(v)),
{
}

/// A physics volume, attached to a physics point by index: its effective
/// world position is always that point's position.
#[derive(Clone, Copy, PartialEq, Eq, Structural, Debug)]
pub struct PhysicsVolume {
    /// The physics point this volume is attached to.
    pub point_idx: usize,

    /// The shape of this volume.
    pub volume_type: VolumeType,
}

/// The ordered set of physics volumes attached to one point network.
#[derive(Clone, Debug)]
pub struct VolumeCollection {
    /// The physics volumes in this collection, each linked to a physics
    /// point by its `point_idx` member.
    pub volumes: Vec<PhysicsVolume>,
}

/// A well-formed collection over a network of `len` points: indices in
/// bounds and shapes well-formed.
pub open spec fn collection_ok(c: VolumeCollection, len: int) -> bool {
    forall|k: int| 0 <= k < c.volumes@.len()
        ==> (#[trigger] c.volumes@[k]).point_idx < len
            && volume_type_ok(c.volumes@[k].volume_type)
}

/// The bounding box of a prefix of a collection, placed at its network's
/// point positions: the union of each volume's box translated to its point.
pub open spec fn collection_aabb(vols: Seq<PhysicsVolume>, points: Seq<PhysPoint>) -> AABB
    decreases vols.len(),
{
    if vols.len() == 0 {
        AABB { spans: [Span { start: 0, end: 0 }, Span { start: 0, end: 0 }, Span { start: 0, end: 0 }] }
    } else {
        let v = vols.last();
        let p = points[v.point_idx as int].pos;
        let r = volume_radius(v.volume_type);
        let b = AABB { spans: [
            Span { start: (p.x - r) as i64, end: (p.x + r) as i64 },
            Span { start: (p.y - r) as i64, end: (p.y + r) as i64 },
            Span { start: (p.z - r) as i64, end: (p.z + r) as i64 },
        ] };
        if vols.len() == 1 {
            b
        } else {
            aabb_union(collection_aabb(vols.drop_last(), points), b)
        }
    }
}

/// The volumes picked out of a point list by a selection: one volume of the
/// given type for each index below `upto` whose pick is set, in index order.
pub open spec fn picked_volumes(points: Seq<PhysPoint>, picks: Seq<bool>, vt: VolumeType, upto: int) -> Seq<PhysicsVolume>
    decreases upto,
{
    if upto <= 0 {
        Seq::empty()
    } else {
        let rest = picked_volumes(points, picks, vt, upto - 1);
        if picks[upto - 1] {
            rest.push(PhysicsVolume { point_idx: (upto - 1) as usize, volume_type: vt })
        } else {
            rest
        }
    }
}

/// The picked volumes depend only on the picks below the cutoff.
pub proof fn lemma_picked_prefix(points: Seq<PhysPoint>, p1: Seq<bool>, p2: Seq<bool>, vt: VolumeType, upto: int)
    requires
        forall|j: int| 0 <= j < upto ==> p1[j] == p2[j],
    ensures
        picked_volumes(points, p1, vt, upto) == picked_volumes(points, p2, vt, upto),
    decreases upto,
{
    if upto > 0 {
        lemma_picked_prefix(points, p1, p2, vt, upto - 1);
    }
}

impl VolumeCollection {
    /// Creates a [`VolumeCollection`] with a clone of the same volume at
    /// every point of the network.
    pub fn at_every_point(point_net: &PointNetwork, volume_type: VolumeType) -> (r: VolumeCollection)
        ensures
            r.volumes@.len() == point_net.points@.len(),
            forall|k: int| 0 <= k < r.volumes@.len() ==> #[trigger] r.volumes@[k]
                == (PhysicsVolume { point_idx: k as usize, volume_type }),
    {
        let mut volumes: Vec<PhysicsVolume> = Vec::new();
        let n = point_net.points.len();
        let mut i: usize = 0;
        while i < n
            invariant
                i <= n,
                volumes@.len() == i,
                forall|k: int| 0 <= k < i ==> #[trigger] volumes@[k]
                    == (PhysicsVolume { point_idx: k as usize, volume_type }),
            decreases n - i,
        {
            volumes.push(PhysicsVolume { point_idx: i, volume_type });
            i += 1;
        }
        VolumeCollection { volumes }
    }

    /// Creates a [`VolumeCollection`] with a clone of the same volume at the
    /// selected point indices, in the order given.
    pub fn at_some_points_indexed(point_net: &PointNetwork, volume_type: VolumeType, indices: &Vec<usize>) -> (r: VolumeCollection)
        ensures
            r.volumes@.len() == indices@.len(),
            forall|k: int| 0 <= k < r.volumes@.len() ==> #[trigger] r.volumes@[k]
                == (PhysicsVolume { point_idx: indices@[k], volume_type }),
    {
        let mut volumes: Vec<PhysicsVolume> = Vec::new();
        let n = indices.len();
        let mut i: usize = 0;
        while i < n
            invariant
                i <= n,
                n == indices@.len(),
                volumes@.len() == i,
                forall|k: int| 0 <= k < i ==> #[trigger] volumes@[k]
                    == (PhysicsVolume { point_idx: indices@[k], volume_type }),
            decreases n - i,
        {
            volumes.push(PhysicsVolume { point_idx: indices[i], volume_type });
            i += 1;
        }
        VolumeCollection { volumes }
    }

    /// Creates a [`VolumeCollection`] with a clone of the same volume at
    /// every point that satisfies a predicate: exactly the accepted indices,
    /// in the network's point order.
    pub fn at_points_when<Pred: Fn(PhysPoint, usize) -> bool>(
        point_net: &PointNetwork,
        volume_type: VolumeType,
        predicate: Pred,
    ) -> (r: VolumeCollection)
        requires
            forall|p: PhysPoint, i: usize| #[trigger] predicate.requires((p, i)),
        ensures
            exists|picks: Seq<bool>|
                #![trigger picked_volumes(point_net.points@, picks, volume_type,
                    point_net.points@.len() as int)]
            {
                &&& picks.len() == point_net.points@.len()
                &&& (forall|i: int| 0 <= i < picks.len()
                    ==> predicate.ensures((point_net.points@[i], i as usize), #[trigger] picks[i]))
                &&& r.volumes@ == picked_volumes(point_net.points@, picks, volume_type,
                    point_net.points@.len() as int)
            },
    {
        let mut volumes: Vec<PhysicsVolume> = Vec::new();
        let ghost mut picks: Seq<bool> = Seq::empty();
        let n = point_net.points.len();
        let mut i: usize = 0;
        while i < n
            invariant
                i <= n,
                n == point_net.points@.len(),
                forall|p: PhysPoint, j: usize| #[trigger] predicate.requires((p, j)),
                picks.len() == i,
                forall|j: int| 0 <= j < i
                    ==> predicate.ensures((point_net.points@[j], j as usize), #[trigger] picks[j]),
                volumes@ == picked_volumes(point_net.points@, picks, volume_type, i as int),
            decreases n - i,
        {
            let ghost pre_picks = picks;
            let keep = predicate(point_net.points[i], i);
            proof {
                picks = picks.push(keep);
                lemma_picked_prefix(point_net.points@, pre_picks, picks, volume_type, i as int);
            }
            if keep {
                volumes.push(PhysicsVolume { point_idx: i, volume_type });
            }
            i += 1;
        }
        proof {
            assert(volumes@ == picked_volumes(point_net.points@, picks, volume_type,
                point_net.points@.len() as int));
        }
        VolumeCollection { volumes }
    }

    /// The full axis-aligned bounding box of every volume in this
    /// collection, placed at its point's position. The collection must not
    /// be empty: an empty collection bounds nothing.
    pub fn aabb(&self, point_net: &PointNetwork) -> (r: AABB)
        requires
            self.volumes@.len() > 0,
            collection_ok(*self, point_net.points@.len() as int),
            network_ok(*point_net),
        ensures
            r == collection_aabb(self.volumes@, point_net.points@),
    {
        let n = self.volumes.len();
        let v0 = &self.volumes[0];
        let p0 = point_net.points[v0.point_idx];
        let mut acc = match v0.volume_type {
            VolumeType::Sphere(s) => AABB { spans: [
                Span { start: p0.pos.x - s.radius, end: p0.pos.x + s.radius },
                Span { start: p0.pos.y - s.radius, end: p0.pos.y + s.radius },
                Span { start: p0.pos.z - s.radius, end: p0.pos.z + s.radius },
            ] },
        };
        proof {
            assert(self.volumes@.take(1).drop_last() =~= self.volumes@.take(1).drop_last());
            assert(self.volumes@.take(1).last() == self.volumes@[0]);
            assert(acc == collection_aabb(self.volumes@.take(1), point_net.points@));
        }
        let mut i: usize = 1;
        while i < n
            invariant
                1 <= i <= n,
                n == self.volumes@.len(),
                collection_ok(*self, point_net.points@.len() as int),
                network_ok(*point_net),
                acc == collection_aabb(self.volumes@.take(i as int), point_net.points@),
            decreases n - i,
        {
            let v = &self.volumes[i];
            let p = point_net.points[v.point_idx];
            let b = match v.volume_type {
                VolumeType::Sphere(s) => AABB { spans: [
                    Span { start: p.pos.x - s.radius, end: p.pos.x + s.radius },
                    Span { start: p.pos.y - s.radius, end: p.pos.y + s.radius },
                    Span { start: p.pos.z - s.radius, end: p.pos.z + s.radius },
                ] },
            };
            proof {
                let pre = self.volumes@.take(i as int);
                let post = self.volumes@.take(i as int + 1);
                assert(post.drop_last() =~= pre);
                assert(post.last() == self.volumes@[i as int]);
            }
            acc = acc.union(b);
            proof {
                assert(acc == collection_aabb(self.volumes@.take(i as int + 1), point_net.points@));
            }
            i += 1;
        }
        proof {
            assert(self.volumes@.take(n as int) =~= self.volumes@);
        }
        acc
    }
}

/// The total surface area of a sphere volume: `4 pi r^2`.
pub open spec fn sphere_area(radius: int) -> int {
    tdiv(4 * (crate::physics::elementary::PI_FX as int) * radius * radius,
        (FX_ONE as int) * (FX_ONE as int))
}

/// The height of the submerged cap of a sphere whose center sits `depth`
/// below the water surface (negative `depth` meaning above): the cap spans
/// from nothing to the whole diameter.
pub open spec fn cap_height(radius: int, depth: int) -> int {
    let h = depth + radius;
    if h < 0 { 0 } else if h > 2 * radius { 2 * radius } else { h }
}

/// The volume of a sphere's submerged cap: `pi h^2 (3 r - h) / 3`.
pub open spec fn sphere_cap_volume(radius: int, depth: int) -> int {
    let h = cap_height(radius, depth);
    tdiv((crate::physics::elementary::PI_FX as int) * h * h * (3 * radius - h),
        3 * (FX_ONE as int) * (FX_ONE as int) * (FX_ONE as int))
}

/// The lateral surface area of a sphere's submerged cap: `2 pi r h`.
pub open spec fn sphere_cap_area(radius: int, depth: int) -> int {
    let h = cap_height(radius, depth);
    tdiv(2 * (crate::physics::elementary::PI_FX as int) * radius * h,
        (FX_ONE as int) * (FX_ONE as int))
}

/// A volume small enough for the bulk (area and submerged volume) formulas.
pub open spec fn volume_bulk_ok(v: VolumeType) -> bool {
    match v {
        VolumeType::Sphere(s) => 0 < s.radius <= crate::physics::elementary::SHAPE_LIM,
    }
}

impl VolumeType {
    /// The total surface area of this volume.
    pub fn surface_area(&self) -> (r: i64)
        requires
            volume_bulk_ok(*self),
        ensures
            r == match *self { VolumeType::Sphere(s) => sphere_area(s.radius as int) },
            0 <= r <= 4 * FX_LIM,
    {
        match self {
            VolumeType::Sphere(s) => {
                let rr = s.radius as i128;
                let n1 = 4 * (crate::physics::elementary::PI_FX as i128) * rr;
                proof {
                    assert(0 <= n1 * rr <= 4_000_000_000_000_000_000_000_000int) by (nonlinear_arith)
                        requires 0 <= n1 <= 7_000_000_000_000_000 && 0 < rr <= 500_000_000;
                    let rv = s.radius as int;
                    assert(n1 * rr == 4 * (crate::physics::elementary::PI_FX as int) * rv * rv) by (nonlinear_arith)
                        requires n1 == 4 * (crate::physics::elementary::PI_FX as int) * rv && rr == rv;
                    assert((FX_ONE as int) * (FX_ONE as int) == 1_000_000_000_000int) by (nonlinear_arith)
                        requires FX_ONE == 1_000_000;
                    assert(n1 * rr <= 1_000_000_000_000int * (4 * FX_LIM)) by (nonlinear_arith)
                        requires 0 <= n1 * rr <= 4_000_000_000_000_000_000_000_000 && FX_LIM == 1_000_000_000_000_000;
                    lemma_scaled_in_range(n1 * rr, 1_000_000_000_000int, 4 * FX_LIM as int);
                }
                let n2 = n1 * rr;
                (n2 / 1_000_000_000_000i128) as i64
            },
        }
    }

    /// The submerged volume of this volume when its center sits `depth`
    /// below the water surface: zero when fully above, the whole bulk when
    /// fully below.
    pub fn volume_below(&self, depth: i64) -> (r: i64)
        requires
            volume_bulk_ok(*self),
            -2 * FX_LIM <= depth <= 2 * FX_LIM,
        ensures
            r == match *self { VolumeType::Sphere(s) => sphere_cap_volume(s.radius as int, depth as int) },
            0 <= r <= 4 * FX_LIM,
    {
        match self {
            VolumeType::Sphere(s) => {
                let hraw = depth + s.radius;
                let h = if hraw < 0 { 0 } else if hraw > 2 * s.radius { 2 * s.radius } else { hraw };
                let hh = h as i128;
                let n1 = (crate::physics::elementary::PI_FX as i128) * hh;
                proof {
                    assert(0 <= n1 * hh <= 3_200_000_000_000_000_000_000_000int) by (nonlinear_arith)
                        requires 0 <= n1 <= 3_200_000_000_000_000 && 0 <= hh <= 1_000_000_000;
                }
                let n2 = n1 * hh;
                proof {
                    assert(0 <= n2 * ((3 * (s.radius as i128)) - hh)
                        <= 4_800_000_000_000_000_000_000_000_000_000_000int) by (nonlinear_arith)
                        requires 0 <= n2 <= 3_200_000_000_000_000_000_000_000
                            && 0 <= (3 * (s.radius as i128)) - hh <= 1_500_000_000;
                    let rv = s.radius as int;
                    let hv = h as int;
                    assert(n2 * ((3 * (s.radius as i128)) - hh)
                        == (crate::physics::elementary::PI_FX as int) * hv * hv * (3 * rv - hv)) by (nonlinear_arith)
                        requires
                            n1 == (crate::physics::elementary::PI_FX as int) * hv,
                            n2 == n1 * hv,
                            hh == hv,
                            rv == s.radius,
                    ;
                    assert(3 * (FX_ONE as int) * (FX_ONE as int) * (FX_ONE as int)
                        == 3_000_000_000_000_000_000int) by (nonlinear_arith)
                        requires FX_ONE == 1_000_000;
                    assert(n2 * ((3 * (s.radius as i128)) - hh)
                        <= 3_000_000_000_000_000_000int * (4 * FX_LIM)) by (nonlinear_arith)
                        requires 0 <= n2 * ((3 * (s.radius as i128)) - hh)
                            <= 4_800_000_000_000_000_000_000_000_000_000_000
                            && FX_LIM == 1_000_000_000_000_000;
                    lemma_scaled_in_range(n2 * ((3 * (s.radius as i128)) - hh),
                        3_000_000_000_000_000_000int, 4 * FX_LIM as int);
                }
                let n3 = n2 * ((3 * (s.radius as i128)) - hh);
                (n3 / 3_000_000_000_000_000_000i128) as i64
            },
        }
    }

    /// The submerged (lateral) surface area of this volume when its center
    /// sits `depth` below the water surface.
    pub fn surface_area_below(&self, depth: i64) -> (r: i64)
        requires
            volume_bulk_ok(*self),
            -2 * FX_LIM <= depth <= 2 * FX_LIM,
        ensures
            r == match *self { VolumeType::Sphere(s) => sphere_cap_area(s.radius as int, depth as int) },
            0 <= r <= 4 * FX_LIM,
    {
        match self {
            VolumeType::Sphere(s) => {
                let hraw = depth + s.radius;
                let h = if hraw < 0 { 0 } else if hraw > 2 * s.radius { 2 * s.radius } else { hraw };
                let n1 = 2 * (crate::physics::elementary::PI_FX as i128) * (s.radius as i128);
                proof {
                    assert(0 <= n1 * (h as i128) <= 3_200_000_000_000_000_000_000_000int) by (nonlinear_arith)
                        requires 0 <= n1 <= 3_200_000_000_000_000 && 0 <= h <= 1_000_000_000;
                    let rv = s.radius as int;
                    let hv = h as int;
                    assert(n1 * (h as i128)
                        == 2 * (crate::physics::elementary::PI_FX as int) * rv * hv) by (nonlinear_arith)
                        requires
                            n1 == 2 * (crate::physics::elementary::PI_FX as int) * rv,
                            hv == h,
                    ;
                    assert((FX_ONE as int) * (FX_ONE as int) == 1_000_000_000_000int) by (nonlinear_arith)
                        requires FX_ONE == 1_000_000;
                    assert(n1 * (h as i128) <= 1_000_000_000_000int * (4 * FX_LIM)) by (nonlinear_arith)
                        requires 0 <= n1 * (h as i128) <= 3_200_000_000_000_000_000_000_000
                            && FX_LIM == 1_000_000_000_000_000;
                    lemma_scaled_in_range(n1 * (h as i128), 1_000_000_000_000int, 4 * FX_LIM as int);
                }
                let n2 = n1 * (h as i128);
                (n2 / 1_000_000_000_000i128) as i64
            },
        }
    }
}

/// A nonnegative value at most `den * cap` divides down to at most `cap`.
pub proof fn lemma_scaled_in_range(w: int, den: int, cap: int)
    requires
        den > 0,
        cap > 0,
        0 <= w <= den * cap,
    ensures
        0 <= tdiv(w, den) <= cap,
{
    crate::fx::lemma_tdiv_range(w, den);
    lemma_tdiv_ordered(w, den * cap, den);
    lemma_tdiv_exact(cap, den);
    assert(cap * den == den * cap) by (nonlinear_arith);
}

} // verus!
