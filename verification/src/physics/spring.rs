//! Spring physics.
//!
//! Springs connect pairs of physics points within one [`PointNetwork`] and
//! pull (or push) them toward a rest distance, either as a rigid geometric
//! snap or as a Hookean restoring force.

use vstd::prelude::*;

verus! {

use crate::{FX_ONE, FX_LIM};
use crate::fx::{tdiv, fx_mul, fx_div, fx_ok, isqrt, lemma_tdiv_neg};
use crate::vec3::{Vec3, norm2};
use crate::physics::base::{
    PhysPoint, PointNetwork, network_ok, point_ok, dv_of, dp_of, force_step_ok,
};

/// The parameters for a normal-mode spring.
#[derive(Clone, Copy, PartialEq, Eq, Structural, Debug)]
pub struct NormalSpring {
    /// The stiffness of the spring: a linear scale on the restoring force.
    pub stiffness: i64,
}

/// The spring mode: how a spring connects two points.
#[derive(Clone, Copy, PartialEq, Eq, Structural, Debug)]
pub enum SpringMode {
    /// Instant mode - points snap to the exact target distance.
    Instant,

    /// Normal mode - pushes the points toward rest according to stiffness.
    Normal(NormalSpring),
}

/// A spring connecting two points.
#[derive(Clone, Copy, Debug)]
pub struct Spring {
    /// The indices of points A and B into the PointNetwork.
    pub points: (usize, usize),

    /// The target/rest distance.
    pub rest_dist: i64,

    /// The spring mode.
    pub mode: SpringMode,
}

/// A spring network: the set of springs over one point network's index space.
#[derive(Clone, Debug)]
pub struct SpringNetwork {
    /// The list of springs in this network.
    pub springs: Vec<Spring>,
}

/// A spring's indices name two distinct points of a network of `len` points.
pub open spec fn spring_valid(s: Spring, len: int) -> bool {
    s.points.0 < len && s.points.1 < len && s.points.0 != s.points.1
}

/// One axis of the vector from point A to point B of a spring.
pub open spec fn rel_axis(pa: PhysPoint, pb: PhysPoint, axis: int) -> int {
    crate::physics::base::axis_of(pb.pos, axis) - crate::physics::base::axis_of(pa.pos, axis)
}

/// The distance between a spring's two endpoints.
pub open spec fn spring_dist(pa: PhysPoint, pb: PhysPoint) -> int {
    isqrt(
        rel_axis(pa, pb, 0) * rel_axis(pa, pb, 0)
        + rel_axis(pa, pb, 1) * rel_axis(pa, pb, 1)
        + rel_axis(pa, pb, 2) * rel_axis(pa, pb, 2))
}

/// One axis of the half-magnitude correction a spring applies: half of
/// `unit_inward * (dist - rest)`, where `unit_inward` points from A to B.
pub open spec fn spring_half(pa: PhysPoint, pb: PhysPoint, rest: int, axis: int) -> int {
    let dist = spring_dist(pa, pb);
    let unit = fx_div(rel_axis(pa, pb, axis), dist);
    tdiv(fx_mul(unit, dist - rest), 2)
}

/// One axis of the half-force a normal-mode spring applies to point A:
/// half of `unit_inward * (dist - rest) * stiffness`.
pub open spec fn spring_half_force(pa: PhysPoint, pb: PhysPoint, rest: int, k: int, axis: int) -> int {
    let dist = spring_dist(pa, pb);
    let unit = fx_div(rel_axis(pa, pb, axis), dist);
    tdiv(fx_mul(fx_mul(unit, dist - rest), k), 2)
}

/// A point displaced by a half-offset on every axis (positions only).
pub open spec fn point_displaced(p: PhysPoint, hx: int, hy: int, hz: int) -> PhysPoint {
    PhysPoint {
        pos: Vec3 {
            x: (p.pos.x + hx) as i64,
            y: (p.pos.y + hy) as i64,
            z: (p.pos.z + hz) as i64,
        },
        ..p
    }
}

/// A point with a half-force applied over a tick on every axis.
pub open spec fn point_forced(p: PhysPoint, hx: int, hy: int, hz: int, dt: int) -> PhysPoint {
    let m = p.mass as int;
    PhysPoint {
        vel: Vec3 {
            x: (p.vel.x + dv_of(hx, m, dt)) as i64,
            y: (p.vel.y + dv_of(hy, m, dt)) as i64,
            z: (p.vel.z + dv_of(hz, m, dt)) as i64,
        },
        pos: Vec3 {
            x: (p.pos.x + dp_of(hx, m, dt)) as i64,
            y: (p.pos.y + dp_of(hy, m, dt)) as i64,
            z: (p.pos.z + dp_of(hz, m, dt)) as i64,
        },
        ..p
    }
}

/// The effect of evaluating one spring on a point sequence: corrections are
/// distributed half to each endpoint with opposite signs, as a position snap
/// in Instant mode, or as an over-time force in Normal mode. A spring whose
/// endpoints coincide exactly has no defined direction and changes nothing.
pub open spec fn spring_apply(points: Seq<PhysPoint>, s: Spring, dt: int) -> Seq<PhysPoint> {
    if !spring_valid(s, points.len() as int) {
        points
    } else {
        let a = s.points.0 as int;
        let b = s.points.1 as int;
        let pa = points[a];
        let pb = points[b];
        if spring_dist(pa, pb) == 0 {
            points
        } else {
            let rest = s.rest_dist as int;
            match s.mode {
                SpringMode::Instant => {
                    let hx = spring_half(pa, pb, rest, 0);
                    let hy = spring_half(pa, pb, rest, 1);
                    let hz = spring_half(pa, pb, rest, 2);
                    points
                        .update(a, point_displaced(pa, hx, hy, hz))
                        .update(b, point_displaced(pb, -hx, -hy, -hz))
                },
                SpringMode::Normal(ns) => {
                    let k = ns.stiffness as int;
                    let hx = spring_half_force(pa, pb, rest, k, 0);
                    let hy = spring_half_force(pa, pb, rest, k, 1);
                    let hz = spring_half_force(pa, pb, rest, k, 2);
                    points
                        .update(a, point_forced(pa, hx, hy, hz, dt))
                        .update(b, point_forced(pb, -hx, -hy, -hz, dt))
                },
            }
        }
    }
}

/// Every intermediate of one spring evaluation stays in the working scalar
/// range, for one axis of the correction.
pub open spec fn spring_axis_ok(pa: PhysPoint, pb: PhysPoint, s: Spring, dt: int, axis: int) -> bool {
    let dist = spring_dist(pa, pb);
    let rest = s.rest_dist as int;
    let unit = fx_div(rel_axis(pa, pb, axis), dist);
    &&& fx_ok(fx_mul(unit, dist - rest))
    &&& match s.mode {
        SpringMode::Instant => {
            let h = spring_half(pa, pb, rest, axis);
            fx_ok(crate::physics::base::axis_of(pa.pos, axis) + h)
                && fx_ok(crate::physics::base::axis_of(pb.pos, axis) - h)
        },
        SpringMode::Normal(ns) => {
            let k = ns.stiffness as int;
            let h = spring_half_force(pa, pb, rest, k, axis);
            &&& fx_ok(fx_mul(fx_mul(unit, dist - rest), k))
            &&& force_step_ok(h, pa.mass as int,
                crate::physics::base::axis_of(pa.vel, axis),
                crate::physics::base::axis_of(pa.pos, axis), dt)
            &&& force_step_ok(-h, pb.mass as int,
                crate::physics::base::axis_of(pb.vel, axis),
                crate::physics::base::axis_of(pb.pos, axis), dt)
        },
    }
}

/// Every intermediate of one spring evaluation stays in the working scalar
/// range.
pub open spec fn spring_step_ok(points: Seq<PhysPoint>, s: Spring, dt: int) -> bool {
    &&& spring_valid(s, points.len() as int)
    &&& fx_ok(s.rest_dist as int)
    &&& s.rest_dist >= 0
    &&& {
        let pa = points[s.points.0 as int];
        let pb = points[s.points.1 as int];
        spring_dist(pa, pb) != 0 ==> {
            &&& spring_axis_ok(pa, pb, s, dt, 0)
            &&& spring_axis_ok(pa, pb, s, dt, 1)
            &&& spring_axis_ok(pa, pb, s, dt, 2)
        }
    }
}

/// Every intermediate of a whole spring pass, evaluated left to right, stays
/// in the working scalar range.
pub open spec fn springs_ok(points: Seq<PhysPoint>, springs: Seq<Spring>, dt: int) -> bool
    decreases springs.len(),
{
    springs.len() == 0 || {
        &&& spring_step_ok(points, springs[0], dt)
        &&& springs_ok(spring_apply(points, springs[0], dt), springs.skip(1), dt)
    }
}

/// The effect of evaluating a whole spring list, left to right, on a point
/// sequence.
pub open spec fn springs_fold(points: Seq<PhysPoint>, springs: Seq<Spring>, dt: int) -> Seq<PhysPoint>
    decreases springs.len(),
{
    if springs.len() == 0 {
        points
    } else {
        springs_fold(spring_apply(points, springs[0], dt), springs.skip(1), dt)
    }
}

/// One spring evaluation keeps the point count, every mass, and every point
/// well-formed, and touches only the spring's two endpoints.
pub proof fn lemma_spring_apply_wf(points: Seq<PhysPoint>, s: Spring, dt: int)
    requires
        forall|i: int| 0 <= i < points.len() ==> point_ok(#[trigger] points[i]),
        spring_step_ok(points, s, dt),
    ensures
        spring_apply(points, s, dt).len() == points.len(),
        forall|i: int| 0 <= i < points.len()
            ==> point_ok(#[trigger] spring_apply(points, s, dt)[i]),
        forall|i: int| 0 <= i < points.len()
            ==> (#[trigger] spring_apply(points, s, dt)[i]).mass == points[i].mass,
        forall|i: int| 0 <= i < points.len() && i != s.points.0 && i != s.points.1
            ==> #[trigger] spring_apply(points, s, dt)[i] == points[i],
{
}

/// **Spring symmetry.** For a single normal-mode spring, the two applied
/// half-forces are exact negations of each other; the velocity and position
/// corrections of the two endpoints are therefore exactly opposite whenever
/// the endpoint masses are equal, so the pair's combined momentum and center
/// of mass are conserved by one tick of spring force.
pub proof fn lemma_spring_symmetry(points: Seq<PhysPoint>, s: Spring, dt: int)
    requires
        forall|i: int| 0 <= i < points.len() ==> point_ok(#[trigger] points[i]),
        spring_step_ok(points, s, dt),
        s.mode is Normal,
        points[s.points.0 as int].mass == points[s.points.1 as int].mass,
    ensures
        ({
            let a = s.points.0 as int;
            let b = s.points.1 as int;
            let after = spring_apply(points, s, dt);
            &&& after[a].vel.x - points[a].vel.x == -(after[b].vel.x - points[b].vel.x)
            &&& after[a].vel.y - points[a].vel.y == -(after[b].vel.y - points[b].vel.y)
            &&& after[a].vel.z - points[a].vel.z == -(after[b].vel.z - points[b].vel.z)
            &&& after[a].pos.x - points[a].pos.x == -(after[b].pos.x - points[b].pos.x)
            &&& after[a].pos.y - points[a].pos.y == -(after[b].pos.y - points[b].pos.y)
            &&& after[a].pos.z - points[a].pos.z == -(after[b].pos.z - points[b].pos.z)
            &&& points[a].mass * (after[a].vel.x - points[a].vel.x)
                + points[b].mass * (after[b].vel.x - points[b].vel.x) == 0
            &&& points[a].mass * (after[a].vel.y - points[a].vel.y)
                + points[b].mass * (after[b].vel.y - points[b].vel.y) == 0
            &&& points[a].mass * (after[a].vel.z - points[a].vel.z)
                + points[b].mass * (after[b].vel.z - points[b].vel.z) == 0
        }),
{
    let a = s.points.0 as int;
    let b = s.points.1 as int;
    let pa = points[a];
    let pb = points[b];
    if spring_dist(pa, pb) != 0 {
        let k = s.mode->Normal_0.stiffness as int;
        let rest = s.rest_dist as int;
        let m = pa.mass as int;
        lemma_dv_dp_neg(spring_half_force(pa, pb, rest, k, 0), m, dt);
        lemma_dv_dp_neg(spring_half_force(pa, pb, rest, k, 1), m, dt);
        lemma_dv_dp_neg(spring_half_force(pa, pb, rest, k, 2), m, dt);
        let after = spring_apply(points, s, dt);
        assert(after[a] == point_forced(pa,
            spring_half_force(pa, pb, rest, k, 0),
            spring_half_force(pa, pb, rest, k, 1),
            spring_half_force(pa, pb, rest, k, 2), dt));
        assert(after[b] == point_forced(pb,
            -spring_half_force(pa, pb, rest, k, 0),
            -spring_half_force(pa, pb, rest, k, 1),
            -spring_half_force(pa, pb, rest, k, 2), dt));
        lemma_momentum(points[a].mass as int, after[a].vel.x - points[a].vel.x, after[b].vel.x - points[b].vel.x);
        lemma_momentum(points[a].mass as int, after[a].vel.y - points[a].vel.y, after[b].vel.y - points[b].vel.y);
        lemma_momentum(points[a].mass as int, after[a].vel.z - points[a].vel.z, after[b].vel.z - points[b].vel.z);
    } else {
        lemma_momentum(points[a].mass as int, 0, 0);
    }
}

/// Opposite momenta of equal masses cancel.
proof fn lemma_momentum(m: int, dva: int, dvb: int)
    requires
        dva == -dvb,
    ensures
        m * dva + m * dvb == 0,
{
    assert(m * dva + m * dvb == 0) by (nonlinear_arith)
        requires dva == -dvb;
}

/// The velocity and position deltas of a force application flip sign exactly
/// with the force.
pub proof fn lemma_dv_dp_neg(f: int, m: int, dt: int)
    requires
        m > 0,
    ensures
        dv_of(-f, m, dt) == -dv_of(f, m, dt),
        dp_of(-f, m, dt) == -dp_of(f, m, dt),
{
    let s = FX_ONE as int;
    assert((-f) * s == -(f * s));
    lemma_tdiv_neg(f * s, m);
    let acc = fx_div(f, m);
    assert((-acc) * dt == -(acc * dt)) by (nonlinear_arith);
    lemma_tdiv_neg(acc * dt, s);
    let dv = dv_of(f, m, dt);
    assert((-dv) * dt == -(dv * dt)) by (nonlinear_arith);
    lemma_tdiv_neg(dv * dt, s);
    lemma_tdiv_neg(fx_mul(dv, dt), 2);
}

/// **Instant-mode center conservation.** A rigid (instant-mode) spring snap
/// displaces its two endpoints by exactly opposite offsets, so the pair's
/// combined position (and with equal masses, the center of mass) is
/// conserved.
pub proof fn lemma_spring_instant_center(points: Seq<PhysPoint>, s: Spring, dt: int)
    requires
        forall|i: int| 0 <= i < points.len() ==> point_ok(#[trigger] points[i]),
        spring_step_ok(points, s, dt),
        s.mode is Instant,
    ensures
        ({
            let a = s.points.0 as int;
            let b = s.points.1 as int;
            let after = spring_apply(points, s, dt);
            &&& after[a].pos.x + after[b].pos.x == points[a].pos.x + points[b].pos.x
            &&& after[a].pos.y + after[b].pos.y == points[a].pos.y + points[b].pos.y
            &&& after[a].pos.z + after[b].pos.z == points[a].pos.z + points[b].pos.z
            &&& after[a].vel == points[a].vel && after[b].vel == points[b].vel
        }),
{
}

impl PointNetwork {
    /// Evaluate every spring of a network once, in order: the spring system
    /// pass of one simulation tick.
    pub fn point_spring_forces(&mut self, springs: &SpringNetwork, delta_secs: i64)
        requires
            delta_secs >= 0,
            network_ok(*old(self)),
            springs_ok(old(self).points@, springs.springs@, delta_secs as int),
        ensures
            final(self).points@ == springs_fold(old(self).points@, springs.springs@, delta_secs as int),
            final(self).points@.len() == old(self).points@.len(),
            network_ok(*final(self)),
    {
        let ghost all = springs.springs@;
        let ghost dt = delta_secs as int;
        proof {
            assert(all.skip(0) =~= all);
        }
        let n = springs.springs.len();
        let mut i: usize = 0;
        while i < n
            invariant
                n == springs.springs@.len(),
                i <= n,
                delta_secs >= 0,
                dt == delta_secs as int,
                all == springs.springs@,
                self.points@.len() == old(self).points@.len(),
                self.points@.len() <= 1_000_000,
                forall|j: int| 0 <= j < self.points@.len() ==> point_ok(#[trigger] self.points@[j]),
                springs_ok(self.points@, all.skip(i as int), dt),
                springs_fold(old(self).points@, all, dt) == springs_fold(self.points@, all.skip(i as int), dt),
            decreases n - i,
        {
            proof {
                assert(all.skip(i as int)[0] == all[i as int]);
                assert(all.skip(i as int).skip(1) =~= all.skip(i as int + 1));
                assert(spring_step_ok(self.points@, all[i as int], dt));
                lemma_spring_apply_wf(self.points@, all[i as int], dt);
            }
            let s = springs.springs[i];
            let ghost pre = self.points@;
            let ai = s.points.0;
            let bi = s.points.1;
            let pa = self.points[ai];
            let pb = self.points[bi];
            let rel = pb.pos.minus(pa.pos);
            let dist = rel.length();
            if dist != 0 {
                proof {
                    crate::vec3::lemma_norm_bounds(rel);
                    crate::vec3::lemma_unit_component(rel.x as int, norm2(rel), dist as int);
                    crate::vec3::lemma_unit_component(rel.y as int, norm2(rel), dist as int);
                    crate::vec3::lemma_unit_component(rel.z as int, norm2(rel), dist as int);
                }
                let unit = rel.divide(dist);
                let diff = dist - s.rest_dist;
                match s.mode {
                    SpringMode::Instant => {
                        let half = unit.scale(diff).half();
                        let moved_a = PhysPoint {
                            pos: Vec3 {
                                x: pa.pos.x + half.x,
                                y: pa.pos.y + half.y,
                                z: pa.pos.z + half.z,
                            },
                            ..pa
                        };
                        let moved_b = PhysPoint {
                            pos: Vec3 {
                                x: pb.pos.x - half.x,
                                y: pb.pos.y - half.y,
                                z: pb.pos.z - half.z,
                            },
                            ..pb
                        };
                        self.points.set(ai, moved_a);
                        self.points.set(bi, moved_b);
                    },
                    SpringMode::Normal(ns) => {
                        let half = unit.scale(diff).scale(ns.stiffness).half();
                        let mut fa = pa;
                        fa.apply_force_over_time(half, delta_secs);
                        let mut fb = pb;
                        fb.apply_force_over_time(half.neg(), delta_secs);
                        self.points.set(ai, fa);
                        self.points.set(bi, fb);
                    },
                }
            }
            proof {
                assert(self.points@ =~= spring_apply(pre, all[i as int], dt));
            }
            i += 1;
        }
        proof {
            assert(all.skip(n as int).len() == 0);
        }
    }
}

} // verus!
