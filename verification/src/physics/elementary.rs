//! Elementary physics definitions: volume primitives (spheres and
//! cylinders), their bulk properties, and pairwise collision detection
//! between primitives by closest-point tests.
//!
//! Cylinders are radial in the X/Y plane; their flat caps sit at `z = -h`
//! and `z = +h`, so `height` is the half-height.

use vstd::prelude::*;

verus! {

use crate::{FX_ONE, FX_LIM};
use crate::fx::{
    tdiv, fx_mul, fx_div, fx_ok, isqrt, is_isqrt,
    lemma_isqrt_vs, lemma_tdiv_ordered, lemma_tdiv_exact, lemma_tdiv_neg, lemma_tdiv_range,
    lemma_isqrt,
};
use crate::vec3::{Vec3, v_ok, vd_ok, unit_of, norm2, norm_of, lemma_norm_bounds, lemma_sq_bound, lemma_sq_bound2};
use crate::physics::volume::{offset_ok, lemma_scaled_component, neg_v};

/// The circle constant, as a fixed-point scalar.
pub const PI_FX: i64 = 3_141_593;

/// The largest shape parameter (radius or half-height) the bulk formulas
/// accept: cubed-and-scaled products must stay within raw 128-bit range.
pub const SHAPE_LIM: i64 = 500_000_000;

/// A spherical volume primitive.
#[derive(Clone, Copy, PartialEq, Eq, Structural, Debug)]
pub struct Sphere {
    pub radius: i64,
}

/// A cylinder volume primitive, radial in X/Y, with caps at `z = -height`
/// and `z = +height`.
#[derive(Clone, Copy, PartialEq, Eq, Structural, Debug)]
pub struct Cylinder {
    pub height: i64,
    pub radius: i64,
}

/// A well-formed sphere primitive.
pub open spec fn esphere_ok(s: Sphere) -> bool {
    0 < s.radius <= FX_LIM
}

/// A well-formed cylinder primitive.
pub open spec fn ecyl_ok(c: Cylinder) -> bool {
    0 < c.radius <= FX_LIM && 0 < c.height <= FX_LIM
}

/// The squared radial (X/Y) length of a vector.
pub open spec fn norm2_xy(v: Vec3) -> int {
    v.x * v.x + v.y * v.y
}

/// A scalar clamped into a closed interval.
pub open spec fn clamp_fx(x: int, lo: int, hi: int) -> int {
    if x < lo { lo } else if x > hi { hi } else { x }
}

/// Clamp a scalar into a closed interval.
pub fn clamp64(x: i64, lo: i64, hi: i64) -> (r: i64)
    requires
        lo <= hi,
    ensures
        r == clamp_fx(x as int, lo as int, hi as int),
{
    if x < lo { lo } else if x > hi { hi } else { x }
}

/// The closest point of a cylinder (at the origin) to a reference point:
/// the radial part is pulled back onto the radius, the axial part is clamped
/// between the caps.
pub open spec fn cyl_closest(c: Cylinder, reference: Vec3) -> Vec3 {
    let r = c.radius as int;
    let zc = clamp_fx(reference.z as int, -c.height as int, c.height as int);
    if norm2_xy(reference) <= r * r {
        Vec3 { x: reference.x, y: reference.y, z: zc as i64 }
    } else {
        let len = isqrt(norm2_xy(reference));
        Vec3 {
            x: tdiv(reference.x * r, len) as i64,
            y: tdiv(reference.y * r, len) as i64,
            z: zc as i64,
        }
    }
}

/// Basic information on a detected collision between primitives.
#[derive(Clone, Copy, PartialEq, Eq, Structural, Debug)]
pub struct CollisionInfo {
    /// The offset from the detecting shape to the other shape, as passed to
    /// the detection call.
    pub shape_offset: Vec3,

    /// The collision location, relative to the detecting shape.
    pub location: Vec3,

    /// The collision normal, relative to the detecting shape.
    pub normal: Vec3,
}

impl CollisionInfo {
    /// Express a detection result from the other shape's perspective.
    pub fn invert(self) -> (r: CollisionInfo)
        requires
            vd_ok(self.shape_offset),
            vd_ok(self.location),
            self.normal.x > i64::MIN && self.normal.y > i64::MIN && self.normal.z > i64::MIN,
        ensures
            r == invert_info(self),
    {
        CollisionInfo {
            shape_offset: Vec3 {
                x: -self.shape_offset.x,
                y: -self.shape_offset.y,
                z: -self.shape_offset.z,
            },
            location: Vec3 {
                x: self.location.x - self.shape_offset.x,
                y: self.location.y - self.shape_offset.y,
                z: self.location.z - self.shape_offset.z,
            },
            normal: Vec3 { x: -self.normal.x, y: -self.normal.y, z: -self.normal.z },
        }
    }
}

/// A detection result seen from the other shape: the offset and normal flip,
/// and the location moves into the other shape's frame.
pub open spec fn invert_info(i: CollisionInfo) -> CollisionInfo {
    CollisionInfo {
        shape_offset: Vec3 {
            x: (-i.shape_offset.x) as i64,
            y: (-i.shape_offset.y) as i64,
            z: (-i.shape_offset.z) as i64,
        },
        location: Vec3 {
            x: (i.location.x - i.shape_offset.x) as i64,
            y: (i.location.y - i.shape_offset.y) as i64,
            z: (i.location.z - i.shape_offset.z) as i64,
        },
        normal: Vec3 {
            x: (-i.normal.x) as i64,
            y: (-i.normal.y) as i64,
            z: (-i.normal.z) as i64,
        },
    }
}

/// A dimensionless point shape, for point-in-shape collision tests.
pub struct PointCollision;

/// Implemented by shapes that can be tested for collision against `Other`.
pub trait Collision<Other> {
    /// The shapes and offsets a detection call accepts: well-formed shape
    /// parameters and an in-range offset.
    spec fn detect_req(&self, other: &Other, offset: Vec3) -> bool;

    /// Performs the collision test algorithm and returns its results, or
    /// `None` when the shapes do not touch. `offset` is the other shape's
    /// origin relative to this shape's origin.
    fn detect(&self, other: &Other, offset: Vec3) -> Option<CollisionInfo>
        requires
            self.detect_req(other, offset),
    ;
}

impl Collision<PointCollision> for PointCollision {
    open spec fn detect_req(&self, other: &PointCollision, offset: Vec3) -> bool {
        true
    }

    /// Two dimensionless points never collide.
    fn detect(&self, _other: &PointCollision, _offset: Vec3) -> (r: Option<CollisionInfo>)
        ensures
            r is None,
    {
        None
    }
}

impl Collision<PointCollision> for Sphere {
    open spec fn detect_req(&self, other: &PointCollision, offset: Vec3) -> bool {
        vd_ok(offset) && esphere_ok(*self)
    }

    /// A point collides with a sphere exactly when it is no farther from the
    /// center than the radius.
    fn detect(&self, _other: &PointCollision, offset: Vec3) -> (r: Option<CollisionInfo>)
        ensures
            r is Some <==> norm2(offset) <= self.radius * self.radius,
            r is Some ==> r == Some(CollisionInfo {
                shape_offset: offset,
                location: offset,
                normal: unit_of(offset),
            }),
    {
        proof {
            lemma_norm_bounds(offset);
            lemma_sq_bound(self.radius as int);
        }
        let n2 = offset.length_squared();
        if n2 > (self.radius as i128) * (self.radius as i128) {
            None
        } else {
            Some(CollisionInfo {
                shape_offset: offset,
                location: offset,
                normal: offset.normalize(),
            })
        }
    }
}

impl Collision<PointCollision> for Cylinder {
    open spec fn detect_req(&self, other: &PointCollision, offset: Vec3) -> bool {
        vd_ok(offset) && ecyl_ok(*self)
    }

    /// A point collides with a cylinder exactly when it is radially within
    /// the radius and axially between the caps.
    fn detect(&self, _other: &PointCollision, offset: Vec3) -> (r: Option<CollisionInfo>)
        ensures
            r is Some <==> (norm2_xy(offset) <= self.radius * self.radius
                && -self.height <= offset.z <= self.height),
            r is Some ==> r == Some(CollisionInfo {
                shape_offset: offset,
                location: offset,
                normal: unit_of(offset),
            }),
    {
        proof {
            lemma_sq_bound2(offset.x as int);
            lemma_sq_bound2(offset.y as int);
            lemma_sq_bound(self.radius as int);
        }
        let nxy = (offset.x as i128) * (offset.x as i128) + (offset.y as i128) * (offset.y as i128);
        let inside_radial = nxy <= (self.radius as i128) * (self.radius as i128);
        let inside_axial = -self.height <= offset.z && offset.z <= self.height;
        if inside_radial && inside_axial {
            Some(CollisionInfo {
                shape_offset: offset,
                location: offset,
                normal: offset.normalize(),
            })
        } else {
            None
        }
    }
}

impl Collision<Sphere> for Sphere {
    open spec fn detect_req(&self, other: &Sphere, offset: Vec3) -> bool {
        offset_ok(offset) && esphere_ok(*self) && esphere_ok(*other)
    }

    /// Two spheres collide exactly when their center distance does not
    /// exceed the sum of their radii. The collision location sits on this
    /// sphere's surface toward the other center, and the normal points from
    /// this sphere to the other.
    fn detect(&self, other: &Sphere, offset: Vec3) -> (r: Option<CollisionInfo>)
        ensures
            r is Some <==> norm2(offset)
                <= (self.radius + other.radius) * (self.radius + other.radius),
            r is Some ==> r == Some(CollisionInfo {
                shape_offset: offset,
                location: sphere_surface_toward(self.radius as int, offset),
                normal: unit_of(offset),
            }),
    {
        proof {
            lemma_norm_bounds(offset);
            lemma_sq_bound2((self.radius + other.radius) as int);
        }
        let n2 = offset.length_squared();
        let rsum = self.radius + other.radius;
        if n2 > (rsum as i128) * (rsum as i128) {
            None
        } else {
            let len = offset.length();
            if len == 0 {
                Some(CollisionInfo {
                    shape_offset: offset,
                    location: offset,
                    normal: Vec3 { x: 0, y: FX_ONE, z: 0 },
                })
            } else {
                proof {
                    lemma_scaled_component(offset.x as int, norm2(offset), len as int, self.radius as int);
                    lemma_scaled_component(offset.y as int, norm2(offset), len as int, self.radius as int);
                    lemma_scaled_component(offset.z as int, norm2(offset), len as int, self.radius as int);
                    lemma_prod_range(offset.x as int, self.radius as int);
                    lemma_prod_range(offset.y as int, self.radius as int);
                    lemma_prod_range(offset.z as int, self.radius as int);
                }
                let lx = (((offset.x as i128) * (self.radius as i128)) / (len as i128)) as i64;
                let ly = (((offset.y as i128) * (self.radius as i128)) / (len as i128)) as i64;
                let lz = (((offset.z as i128) * (self.radius as i128)) / (len as i128)) as i64;
                Some(CollisionInfo {
                    shape_offset: offset,
                    location: Vec3 { x: lx, y: ly, z: lz },
                    normal: offset.normalize(),
                })
            }
        }
    }
}

/// The point of a sphere's surface toward an offset: the offset scaled back
/// to the radius, or the center itself when the offset is zero.
pub open spec fn sphere_surface_toward(radius: int, offset: Vec3) -> Vec3 {
    let len = norm_of(offset);
    if len == 0 {
        offset
    } else {
        Vec3 {
            x: tdiv(offset.x * radius, len) as i64,
            y: tdiv(offset.y * radius, len) as i64,
            z: tdiv(offset.z * radius, len) as i64,
        }
    }
}

/// A product of a geometry-range scalar and a working-range scalar stays
/// within eight scale squares.
pub proof fn lemma_prod_range(a: int, b: int)
    requires
        -8 * FX_LIM <= a <= 8 * FX_LIM,
        0 <= b <= FX_LIM,
    ensures
        -(8 * (FX_LIM * FX_LIM)) <= a * b <= 8 * (FX_LIM * FX_LIM),
{
    assert(-(8 * (FX_LIM * FX_LIM)) <= a * b <= 8 * (FX_LIM * FX_LIM)) by (nonlinear_arith)
        requires -8 * FX_LIM <= a <= 8 * FX_LIM && 0 <= b <= FX_LIM;
}

impl Cylinder {
    /// The closest point of this cylinder (at the origin) to a reference
    /// point.
    pub fn closest_point_to(&self, reference: Vec3) -> (r: Vec3)
        requires
            offset_ok(reference),
            ecyl_ok(*self),
        ensures
            r == cyl_closest(*self, reference),
            offset_ok(r),
    {
        proof {
            lemma_sq_bound2(reference.x as int);
            lemma_sq_bound2(reference.y as int);
            lemma_sq_bound(self.radius as int);
        }
        let nxy = (reference.x as i128) * (reference.x as i128)
            + (reference.y as i128) * (reference.y as i128);
        let zc = clamp64(reference.z, -self.height, self.height);
        if nxy <= (self.radius as i128) * (self.radius as i128) {
            Vec3 { x: reference.x, y: reference.y, z: zc }
        } else {
            let len = crate::fx::isqrt_u128(nxy as u128) as i64;
            proof {
                lemma_isqrt_vs(norm2_xy(reference), 16 * FX_LIM as int);
                assert(norm2_xy(reference) < (16 * FX_LIM) * (16 * FX_LIM)) by (nonlinear_arith)
                    requires norm2_xy(reference) <= 128 * (FX_LIM * FX_LIM);
                lemma_isqrt(norm2_xy(reference));
                lemma_isqrt_vs(norm2_xy(reference), self.radius as int);
                lemma_scaled_component(reference.x as int, norm2_xy(reference), len as int, self.radius as int);
                lemma_scaled_component(reference.y as int, norm2_xy(reference), len as int, self.radius as int);
                lemma_prod_range(reference.x as int, self.radius as int);
                lemma_prod_range(reference.y as int, self.radius as int);
            }
            let cx = (((reference.x as i128) * (self.radius as i128)) / (len as i128)) as i64;
            let cy = (((reference.y as i128) * (self.radius as i128)) / (len as i128)) as i64;
            Vec3 { x: cx, y: cy, z: zc }
        }
    }
}

impl Collision<Cylinder> for Cylinder {
    open spec fn detect_req(&self, other: &Cylinder, offset: Vec3) -> bool {
        offset_ok(offset) && ecyl_ok(*self) && ecyl_ok(*other)
    }

    /// Two cylinders collide exactly when this cylinder's closest point to
    /// the other's axis lies inside the other cylinder. The result is
    /// reported from this cylinder's perspective.
    fn detect(&self, other: &Cylinder, offset: Vec3) -> (r: Option<CollisionInfo>)
        ensures
            ({
                let probe = local_probe(cyl_closest(*self, offset), offset);
                &&& (r is Some <==> (norm2_xy(probe) <= other.radius * other.radius
                    && -other.height <= probe.z <= other.height))
                &&& r is Some ==> r == Some(invert_info(CollisionInfo {
                    shape_offset: probe,
                    location: probe,
                    normal: unit_of(probe),
                }))
            }),
    {
        let closest = self.closest_point_to(offset);
        let probe = Vec3 {
            x: closest.x - offset.x,
            y: closest.y - offset.y,
            z: closest.z - offset.z,
        };
        let hit = other.detect(&PointCollision, probe);
        match hit {
            None => None,
            Some(info) => {
                proof { crate::vec3::lemma_unit_bounds(probe); }
                Some(info.invert())
            },
        }
    }
}

impl Collision<Sphere> for Cylinder {
    open spec fn detect_req(&self, other: &Sphere, offset: Vec3) -> bool {
        offset_ok(offset) && ecyl_ok(*self) && esphere_ok(*other)
    }

    /// A cylinder collides with a sphere exactly when the cylinder's closest
    /// point to the sphere's center is within the sphere's radius. The
    /// result is reported from the cylinder's perspective.
    fn detect(&self, other: &Sphere, offset: Vec3) -> (r: Option<CollisionInfo>)
        ensures
            ({
                let probe = local_probe(cyl_closest(*self, offset), offset);
                &&& (r is Some <==> norm2(probe) <= other.radius * other.radius)
                &&& r is Some ==> r == Some(invert_info(CollisionInfo {
                    shape_offset: probe,
                    location: probe,
                    normal: unit_of(probe),
                }))
            }),
    {
        let closest = self.closest_point_to(offset);
        let probe = Vec3 {
            x: closest.x - offset.x,
            y: closest.y - offset.y,
            z: closest.z - offset.z,
        };
        let hit = other.detect(&PointCollision, probe);
        match hit {
            None => None,
            Some(info) => {
                proof { crate::vec3::lemma_unit_bounds(probe); }
                Some(info.invert())
            },
        }
    }
}

/// The probe point of a closest-point test, in the other shape's frame.
pub open spec fn local_probe(closest: Vec3, offset: Vec3) -> Vec3 {
    Vec3 {
        x: (closest.x - offset.x) as i64,
        y: (closest.y - offset.y) as i64,
        z: (closest.z - offset.z) as i64,
    }
}

/// The closest point of a cylinder to an in-range reference stays in range.
pub proof fn lemma_cyl_closest_bounds(c: Cylinder, reference: Vec3)
    requires
        offset_ok(reference),
        ecyl_ok(c),
    ensures
        -2 * FX_LIM <= cyl_closest(c, reference).x <= 2 * FX_LIM,
        -2 * FX_LIM <= cyl_closest(c, reference).y <= 2 * FX_LIM,
        -2 * FX_LIM <= cyl_closest(c, reference).z <= 2 * FX_LIM,
{
    let r = c.radius as int;
    if norm2_xy(reference) <= r * r {
    } else {
        lemma_sq_bound2(reference.x as int);
        lemma_sq_bound2(reference.y as int);
        crate::fx::lemma_isqrt(norm2_xy(reference));
        let len = isqrt(norm2_xy(reference));
        lemma_isqrt_vs(norm2_xy(reference), r);
        lemma_scaled_component(reference.x as int, norm2_xy(reference), len, r);
        lemma_scaled_component(reference.y as int, norm2_xy(reference), len, r);
    }
}

impl Collision<Cylinder> for Sphere {
    open spec fn detect_req(&self, other: &Cylinder, offset: Vec3) -> bool {
        offset_ok(offset) && esphere_ok(*self) && ecyl_ok(*other)
    }

    /// A sphere collides with a cylinder exactly when the cylinder's closest
    /// point to the sphere's center (seen from the cylinder at the reversed
    /// offset) is within the sphere's radius: the reversed cylinder-sphere
    /// test, its result turned back into this sphere's perspective.
    fn detect(&self, other: &Cylinder, offset: Vec3) -> (r: Option<CollisionInfo>)
        ensures
            ({
                let noff = neg_v(offset);
                let probe = local_probe(cyl_closest(*other, noff), noff);
                &&& (r is Some <==> norm2(probe) <= self.radius * self.radius)
                &&& r is Some ==> r == Some(invert_info(invert_info(CollisionInfo {
                    shape_offset: probe,
                    location: probe,
                    normal: unit_of(probe),
                })))
            }),
    {
        proof {
            crate::physics::volume::lemma_vd_neg(offset);
        }
        let noff = offset.neg();
        let hit = other.detect(self, noff);
        match hit {
            None => None,
            Some(info) => {
                proof {
                    lemma_cyl_closest_bounds(*other, neg_v(offset));
                    crate::vec3::lemma_unit_bounds(
                        local_probe(cyl_closest(*other, neg_v(offset)), neg_v(offset)));
                }
                Some(info.invert())
            },
        }
    }
}

/// A volume primitive, as used for bulk properties (volume and surface
/// area).
#[derive(Clone, Copy, PartialEq, Eq, Structural, Debug)]
pub enum Volume {
    Sphere(Sphere),
    Cylinder(Cylinder),
}

/// A volume primitive bound to a physics point by index.
#[derive(Clone, Copy, PartialEq, Eq, Structural, Debug)]
pub struct VolumePrimitive {
    pub volume: Volume,
    pub on_point: usize,
}

/// Shape parameters small enough for the cubic bulk formulas.
pub open spec fn bulk_ok(v: Volume) -> bool {
    match v {
        Volume::Sphere(s) => 0 < s.radius <= SHAPE_LIM,
        Volume::Cylinder(c) => 0 < c.radius <= SHAPE_LIM && 0 < c.height <= SHAPE_LIM,
    }
}

/// The volume of a primitive, by shape.
pub open spec fn volume_of(v: Volume) -> int {
    let s = FX_ONE as int;
    match v {
        Volume::Sphere(sp) => tdiv(4 * (PI_FX as int) * sp.radius * sp.radius * sp.radius,
            3 * s * s * s),
        Volume::Cylinder(c) => tdiv((PI_FX as int) * c.radius * c.radius * (2 * c.height),
            s * s * s),
    }
}

/// The surface area of a primitive, by shape.
pub open spec fn surface_area_of(v: Volume) -> int {
    let s = FX_ONE as int;
    match v {
        Volume::Sphere(sp) => tdiv(4 * (PI_FX as int) * sp.radius * sp.radius, s * s),
        Volume::Cylinder(c) => tdiv(2 * (PI_FX as int) * c.radius * (c.radius + 2 * c.height),
            s * s),
    }
}

impl Volume {
    /// Tests whether a point is inside this primitive placed at `center`.
    pub fn point_in_primitive(&self, center: Vec3, point: Vec3) -> (r: bool)
        requires
            v_ok(center),
            v_ok(point),
            match *self {
                Volume::Sphere(s) => esphere_ok(s),
                Volume::Cylinder(c) => ecyl_ok(c),
            },
        ensures
            r == match *self {
                Volume::Sphere(s) => norm2(local_probe(point, center)) < s.radius * s.radius,
                Volume::Cylinder(c) => norm2_xy(local_probe(point, center)) < c.radius * c.radius
                    && -c.height < point.z - center.z < c.height,
            },
    {
        let off = Vec3 { x: point.x - center.x, y: point.y - center.y, z: point.z - center.z };
        proof {
            lemma_sq_bound2(off.x as int);
            lemma_sq_bound2(off.y as int);
            lemma_sq_bound2(off.z as int);
        }
        match self {
            Volume::Sphere(s) => {
                proof { lemma_sq_bound(s.radius as int); }
                let n2 = (off.x as i128) * (off.x as i128)
                    + (off.y as i128) * (off.y as i128)
                    + (off.z as i128) * (off.z as i128);
                n2 < (s.radius as i128) * (s.radius as i128)
            },
            Volume::Cylinder(c) => {
                proof { lemma_sq_bound(c.radius as int); }
                let nxy = (off.x as i128) * (off.x as i128) + (off.y as i128) * (off.y as i128);
                nxy < (c.radius as i128) * (c.radius as i128)
                    && -c.height < off.z && off.z < c.height
            },
        }
    }

    /// Calculates the volume of this primitive.
    pub fn volume(&self) -> (r: i64)
        requires
            bulk_ok(*self),
        ensures
            r == volume_of(*self),
    {
        match self {
            Volume::Sphere(sp) => {
                let rr = sp.radius as i128;
                let n1 = 4 * (PI_FX as i128) * rr;
                proof {
                    assert(0 <= n1 * rr <= 3_200_000_000_000_000_000_000_000int) by (nonlinear_arith)
                        requires 0 <= n1 <= 6_400_000_000_000_000 && 0 < rr <= 500_000_000;
                }
                let n2 = n1 * rr;
                proof {
                    assert(0 <= n2 * rr <= 1_600_000_000_000_000_000_000_000_000_000_000int) by (nonlinear_arith)
                        requires 0 <= n2 <= 3_200_000_000_000_000_000_000_000 && 0 < rr <= 500_000_000;
                }
                let n3 = n2 * rr;
                proof {
                    let rv = sp.radius as int;
                    assert(n3 == 4 * (PI_FX as int) * rv * rv * rv) by (nonlinear_arith)
                        requires
                            n1 == 4 * (PI_FX as int) * rv,
                            n2 == n1 * rv,
                            n3 == n2 * rv,
                    ;
                    assert(3 * (FX_ONE as int) * (FX_ONE as int) * (FX_ONE as int)
                        == 3_000_000_000_000_000_000int) by (nonlinear_arith)
                        requires FX_ONE == 1_000_000;
                    assert(n3 <= 3_000_000_000_000_000_000int * FX_LIM) by (nonlinear_arith)
                        requires 0 <= n3 <= 1_600_000_000_000_000_000_000_000_000_000_000 && FX_LIM == 1_000_000_000_000_000;
                    crate::physics::base::lemma_wavg_in_range(n3 as int, 3_000_000_000_000_000_000int);
                }
                (n3 / 3_000_000_000_000_000_000i128) as i64
            },
            Volume::Cylinder(c) => {
                let rr = c.radius as i128;
                let hh = c.height as i128;
                let n1 = (PI_FX as i128) * rr;
                proof {
                    assert(0 <= n1 * rr <= 800_000_000_000_000_000_000_000int) by (nonlinear_arith)
                        requires 0 <= n1 <= 1_600_000_000_000_000 && 0 < rr <= 500_000_000;
                }
                let n2 = n1 * rr;
                proof {
                    assert(0 <= n2 * (2 * hh) <= 800_000_000_000_000_000_000_000_000_000_000int) by (nonlinear_arith)
                        requires 0 <= n2 <= 800_000_000_000_000_000_000_000 && 0 < hh <= 500_000_000;
                }
                let n3 = n2 * (2 * hh);
                proof {
                    let rv = c.radius as int;
                    let hv = c.height as int;
                    assert(n3 == (PI_FX as int) * rv * rv * (2 * hv)) by (nonlinear_arith)
                        requires
                            n1 == (PI_FX as int) * rv,
                            n2 == n1 * rv,
                            n3 == n2 * (2 * hv),
                    ;
                    assert((FX_ONE as int) * (FX_ONE as int) * (FX_ONE as int)
                        == 1_000_000_000_000_000_000int) by (nonlinear_arith)
                        requires FX_ONE == 1_000_000;
                    assert(n3 <= 1_000_000_000_000_000_000int * FX_LIM) by (nonlinear_arith)
                        requires 0 <= n3 <= 800_000_000_000_000_000_000_000_000_000_000 && FX_LIM == 1_000_000_000_000_000;
                    crate::physics::base::lemma_wavg_in_range(n3 as int, 1_000_000_000_000_000_000int);
                }
                (n3 / 1_000_000_000_000_000_000i128) as i64
            },
        }
    }

    /// Calculates the total surface area of this primitive.
    pub fn surface_area(&self) -> (r: i64)
        requires
            bulk_ok(*self),
        ensures
            r == surface_area_of(*self),
    {
        match self {
            Volume::Sphere(sp) => {
                let rr = sp.radius as i128;
                let n1 = 4 * (PI_FX as i128) * rr;
                proof {
                    assert(0 <= n1 * rr <= 4_000_000_000_000_000_000_000_000int) by (nonlinear_arith)
                        requires 0 <= n1 <= 7_000_000_000_000_000 && 0 < rr <= 500_000_000;
                }
                let n2 = n1 * rr;
                proof {
                    let rv = sp.radius as int;
                    assert(n2 == 4 * (PI_FX as int) * rv * rv) by (nonlinear_arith)
                        requires
                            n1 == 4 * (PI_FX as int) * rv,
                            n2 == n1 * rv,
                    ;
                    assert((FX_ONE as int) * (FX_ONE as int) == 1_000_000_000_000int) by (nonlinear_arith)
                        requires FX_ONE == 1_000_000;
                    assert(n2 <= 1_000_000_000_000int * FX_LIM) by (nonlinear_arith)
                        requires 0 <= n2 <= 4_000_000_000_000_000_000_000_000 && FX_LIM == 1_000_000_000_000_000;
                    crate::physics::base::lemma_wavg_in_range(n2 as int, 1_000_000_000_000int);
                }
                (n2 / 1_000_000_000_000i128) as i64
            },
            Volume::Cylinder(c) => {
                let rr = c.radius as i128;
                let w = rr + 2 * (c.height as i128);
                proof {
                    assert(0 <= 2 * (PI_FX as int) * (rr as int) <= 3_200_000_000_000_000int) by (nonlinear_arith)
                        requires PI_FX == 3_141_593 && 0 < rr <= 500_000_000;
                }
                let n1 = 2 * (PI_FX as i128) * rr;
                proof {
                    assert(0 <= n1 * w <= 5_000_000_000_000_000_000_000_000int) by (nonlinear_arith)
                        requires 0 <= n1 <= 3_200_000_000_000_000 && 0 < w <= 1_500_000_000;
                }
                let n2 = n1 * w;
                proof {
                    let rv = c.radius as int;
                    let hv = c.height as int;
                    assert(n2 == 2 * (PI_FX as int) * rv * (rv + 2 * hv)) by (nonlinear_arith)
                        requires
                            n1 == 2 * (PI_FX as int) * rv,
                            n2 == n1 * (rv + 2 * hv),
                    ;
                    assert((FX_ONE as int) * (FX_ONE as int) == 1_000_000_000_000int) by (nonlinear_arith)
                        requires FX_ONE == 1_000_000;
                    assert(n2 <= 1_000_000_000_000int * FX_LIM) by (nonlinear_arith)
                        requires 0 <= n2 <= 5_000_000_000_000_000_000_000_000 && FX_LIM == 1_000_000_000_000_000;
                    crate::physics::base::lemma_wavg_in_range(n2 as int, 1_000_000_000_000int);
                }
                (n2 / 1_000_000_000_000i128) as i64
            },
        }
    }
}

/// A convex primitive shape: the tagged union the collision dispatch works
/// over.
#[derive(Clone, Copy, PartialEq, Eq, Structural, Debug)]
pub enum PrimitiveShape {
    Cylinder(Cylinder),
    Sphere(Sphere),
}

/// Well-formed primitive shape parameters.
pub open spec fn primitive_ok(p: PrimitiveShape) -> bool {
    match p {
        PrimitiveShape::Cylinder(c) => ecyl_ok(c),
        PrimitiveShape::Sphere(s) => esphere_ok(s),
    }
}

/// The collision test between two primitive shapes, by case: what each
/// shape-pair detection returns.
pub open spec fn primitive_detect(a: PrimitiveShape, b: PrimitiveShape, offset: Vec3) -> Option<CollisionInfo> {
    match (a, b) {
        (PrimitiveShape::Sphere(s1), PrimitiveShape::Sphere(s2)) => {
            if norm2(offset) <= (s1.radius + s2.radius) * (s1.radius + s2.radius) {
                Some(CollisionInfo {
                    shape_offset: offset,
                    location: sphere_surface_toward(s1.radius as int, offset),
                    normal: unit_of(offset),
                })
            } else {
                None
            }
        },
        (PrimitiveShape::Cylinder(c1), PrimitiveShape::Cylinder(c2)) => {
            let probe = local_probe(cyl_closest(c1, offset), offset);
            if norm2_xy(probe) <= c2.radius * c2.radius && -c2.height <= probe.z <= c2.height {
                Some(invert_info(CollisionInfo {
                    shape_offset: probe,
                    location: probe,
                    normal: unit_of(probe),
                }))
            } else {
                None
            }
        },
        (PrimitiveShape::Cylinder(c1), PrimitiveShape::Sphere(s2)) => {
            let probe = local_probe(cyl_closest(c1, offset), offset);
            if norm2(probe) <= s2.radius * s2.radius {
                Some(invert_info(CollisionInfo {
                    shape_offset: probe,
                    location: probe,
                    normal: unit_of(probe),
                }))
            } else {
                None
            }
        },
        (PrimitiveShape::Sphere(s1), PrimitiveShape::Cylinder(c2)) => {
            let noff = neg_v(offset);
            let probe = local_probe(cyl_closest(c2, noff), noff);
            if norm2(probe) <= s1.radius * s1.radius {
                Some(invert_info(invert_info(CollisionInfo {
                    shape_offset: probe,
                    location: probe,
                    normal: unit_of(probe),
                })))
            } else {
                None
            }
        },
    }
}

impl Collision<PrimitiveShape> for PrimitiveShape {
    open spec fn detect_req(&self, other: &PrimitiveShape, offset: Vec3) -> bool {
        offset_ok(offset) && primitive_ok(*self) && primitive_ok(*other)
    }

    /// Dispatch the collision test over the shape cases.
    fn detect(&self, other: &PrimitiveShape, offset: Vec3) -> (r: Option<CollisionInfo>)
        ensures
            r == primitive_detect(*self, *other, offset),
    {
        match (self, other) {
            (PrimitiveShape::Sphere(s1), PrimitiveShape::Sphere(s2)) => s1.detect(s2, offset),
            (PrimitiveShape::Cylinder(c1), PrimitiveShape::Cylinder(c2)) => c1.detect(c2, offset),
            (PrimitiveShape::Cylinder(c1), PrimitiveShape::Sphere(s2)) => c1.detect(s2, offset),
            (PrimitiveShape::Sphere(s1), PrimitiveShape::Cylinder(c2)) => s1.detect(c2, offset),
        }
    }
}

/// A primitive shape placed at a local offset within its assembly.
#[derive(Clone, Copy, PartialEq, Eq, Structural, Debug)]
pub struct PrimitiveCollider {
    /// The shape's offset within its assembly.
    pub offset: Vec3,

    /// The shape itself.
    pub shape: PrimitiveShape,
}

impl Collision<PrimitiveCollider> for PrimitiveCollider {
    open spec fn detect_req(&self, other: &PrimitiveCollider, offset: Vec3) -> bool {
        &&& primitive_ok(self.shape) && primitive_ok(other.shape)
        &&& i64::MIN <= offset.x + other.offset.x <= i64::MAX
        &&& i64::MIN <= offset.y + other.offset.y <= i64::MAX
        &&& i64::MIN <= offset.z + other.offset.z <= i64::MAX
        &&& offset_ok(Vec3 {
            x: (offset.x + other.offset.x) as i64,
            y: (offset.y + other.offset.y) as i64,
            z: (offset.z + other.offset.z) as i64,
        })
    }

    /// Test two placed shapes: the other shape's placement offset shifts the
    /// test offset.
    fn detect(&self, other: &PrimitiveCollider, offset: Vec3) -> (r: Option<CollisionInfo>)
        ensures
            r == primitive_detect(self.shape, other.shape, Vec3 {
                x: (offset.x + other.offset.x) as i64,
                y: (offset.y + other.offset.y) as i64,
                z: (offset.z + other.offset.z) as i64,
            }),
    {
        let shifted = offset.plus(other.offset);
        self.shape.detect(&other.shape, shifted)
    }
}

/// An assembly of placed convex primitives, approximating a non-convex
/// shape.
#[derive(Clone, Debug)]
pub struct CompositeCollider {
    /// The placed primitives of the assembly.
    pub colliders: Vec<PrimitiveCollider>,
}

/// The physics simulation context marker.
pub struct PhysicsContext {}

/// A free physics object: a position and a velocity.
pub struct PhysicsObject {
    pub pos: Vec3,
    pub vel: Vec3,
}

} // verus!
