//! Basic physics definitions and systems: physics points and inertia.

use vstd::prelude::*;

verus! {

use crate::{FX_ONE, FX_LIM};
use crate::fx::{tdiv, fx_mul, fx_div, fx_ok, fx_mul64, fx_div64, tdiv64, lemma_tdiv_range, lemma_tdiv_ordered, lemma_tdiv_neg};
use crate::vec3::{Vec3, v_ok};

/// A mass-bearing point in space: the atomic simulation unit.
#[derive(Clone, Copy, PartialEq, Eq, Structural, Debug)]
pub struct PhysPoint {
    /// The position of this physics point in space.
    pub pos: Vec3,

    /// The velocity of this physics point.
    pub vel: Vec3,

    /// The mass of this physics point. Always positive.
    pub mass: i64,
}

/// A well-formed point: position and velocity in the working range, and a
/// positive mass no larger than one scalar limit.
pub open spec fn point_ok(p: PhysPoint) -> bool {
    v_ok(p.pos) && v_ok(p.vel) && 0 < p.mass <= FX_LIM
}

/// The velocity change of one scalar axis when a force acts on a mass over a
/// tick: `(force / mass) * dt`.
pub open spec fn dv_of(f: int, m: int, dt: int) -> int {
    fx_mul(fx_div(f, m), dt)
}

/// The position change of one scalar axis when a force acts on a mass over a
/// tick: `0.5 * (force / mass) * dt^2`, the second-order correction of a
/// constant acceleration.
pub open spec fn dp_of(f: int, m: int, dt: int) -> int {
    tdiv(fx_mul(dv_of(f, m, dt), dt), 2)
}

/// Every intermediate of an over-time force application on one axis stays in
/// the working scalar range.
pub open spec fn force_step_ok(f: int, m: int, v: int, p: int, dt: int) -> bool {
    &&& fx_ok(fx_div(f, m))
    &&& fx_ok(dv_of(f, m, dt))
    &&& fx_ok(v + dv_of(f, m, dt))
    &&& fx_ok(fx_mul(dv_of(f, m, dt), dt))
    &&& fx_ok(p + dp_of(f, m, dt))
}

/// Every intermediate of an over-time force application of a force vector on
/// a point stays in the working scalar range.
pub open spec fn force_ok(p: PhysPoint, force: Vec3, dt: int) -> bool {
    &&& force_step_ok(force.x as int, p.mass as int, p.vel.x as int, p.pos.x as int, dt)
    &&& force_step_ok(force.y as int, p.mass as int, p.vel.y as int, p.pos.y as int, dt)
    &&& force_step_ok(force.z as int, p.mass as int, p.vel.z as int, p.pos.z as int, dt)
}

/// Every intermediate of an instant force application on a point stays in
/// the working scalar range.
pub open spec fn instant_ok(p: PhysPoint, force: Vec3) -> bool {
    &&& fx_ok(fx_div(force.x as int, p.mass as int))
    &&& fx_ok(p.vel.x + fx_div(force.x as int, p.mass as int))
    &&& fx_ok(fx_div(force.y as int, p.mass as int))
    &&& fx_ok(p.vel.y + fx_div(force.y as int, p.mass as int))
    &&& fx_ok(fx_div(force.z as int, p.mass as int))
    &&& fx_ok(p.vel.z + fx_div(force.z as int, p.mass as int))
}

/// One axis of an integration step stays in the working scalar range.
pub open spec fn integrate_step_ok(p: int, v: int, dt: int) -> bool {
    fx_ok(fx_mul(v, dt)) && fx_ok(p + fx_mul(v, dt))
}

/// A whole integration step of a point stays in the working scalar range.
pub open spec fn integrate_ok(p: PhysPoint, dt: int) -> bool {
    &&& integrate_step_ok(p.pos.x as int, p.vel.x as int, dt)
    &&& integrate_step_ok(p.pos.y as int, p.vel.y as int, dt)
    &&& integrate_step_ok(p.pos.z as int, p.vel.z as int, dt)
}

impl PhysPoint {
    /// Construct a new PhysPoint, setting only its position.
    ///
    /// Mass defaults to one unit.
    pub fn from_pos(vec: Vec3) -> (r: PhysPoint)
        ensures
            r.pos == vec,
            r.vel == (Vec3 { x: 0, y: 0, z: 0 }),
            r.mass == FX_ONE,
    {
        PhysPoint { pos: vec, vel: Vec3::zero(), mass: FX_ONE }
    }

    /// Construct a new PhysPoint, setting every field.
    pub fn new(pos: Vec3, vel: Vec3, mass: i64) -> (r: PhysPoint)
        ensures
            r == (PhysPoint { pos, vel, mass }),
    {
        PhysPoint { pos, vel, mass }
    }

    /// Construct a new PhysPoint at the origin, at rest, with unit mass.
    pub fn zero() -> (r: PhysPoint)
        ensures
            r.pos == (Vec3 { x: 0, y: 0, z: 0 }),
            r.vel == (Vec3 { x: 0, y: 0, z: 0 }),
            r.mass == FX_ONE,
    {
        PhysPoint::from_pos(Vec3::zero())
    }

    /// Sets this PhysPoint's position.
    pub fn with_pos(&mut self, pos: Vec3)
        ensures
            *final(self) == (PhysPoint { pos, ..*old(self) }),
    {
        self.pos = pos;
    }

    /// Sets this PhysPoint's velocity.
    pub fn with_vel(&mut self, vel: Vec3)
        ensures
            *final(self) == (PhysPoint { vel, ..*old(self) }),
    {
        self.vel = vel;
    }

    /// Sets this PhysPoint's mass.
    pub fn with_mass(&mut self, mass: i64)
        ensures
            *final(self) == (PhysPoint { mass, ..*old(self) }),
    {
        self.mass = mass;
    }

    /// Applies an instant force (an impulse) to this point, with no time
    /// factor: the velocity changes by `force / mass`.
    pub fn apply_instant_force(&mut self, force: Vec3)
        requires
            old(self).mass > 0,
            instant_ok(*old(self), force),
        ensures
            final(self).pos == old(self).pos,
            final(self).mass == old(self).mass,
            final(self).vel.x == old(self).vel.x + fx_div(force.x as int, old(self).mass as int),
            final(self).vel.y == old(self).vel.y + fx_div(force.y as int, old(self).mass as int),
            final(self).vel.z == old(self).vel.z + fx_div(force.z as int, old(self).mass as int),
    {
        let dv = force.divide(self.mass);
        self.vel = Vec3 {
            x: self.vel.x + dv.x,
            y: self.vel.y + dv.y,
            z: self.vel.z + dv.z,
        };
    }

    /// Applies a continuous force to this point over a tick: the velocity
    /// changes by `(force / mass) * dt` and the position by the second-order
    /// term `0.5 * (force / mass) * dt^2`.
    pub fn apply_force_over_time(&mut self, force: Vec3, delta_secs: i64)
        requires
            old(self).mass > 0,
            delta_secs >= 0,
            force_ok(*old(self), force, delta_secs as int),
        ensures
            final(self).mass == old(self).mass,
            final(self).vel.x == old(self).vel.x + dv_of(force.x as int, old(self).mass as int, delta_secs as int),
            final(self).vel.y == old(self).vel.y + dv_of(force.y as int, old(self).mass as int, delta_secs as int),
            final(self).vel.z == old(self).vel.z + dv_of(force.z as int, old(self).mass as int, delta_secs as int),
            final(self).pos.x == old(self).pos.x + dp_of(force.x as int, old(self).mass as int, delta_secs as int),
            final(self).pos.y == old(self).pos.y + dp_of(force.y as int, old(self).mass as int, delta_secs as int),
            final(self).pos.z == old(self).pos.z + dp_of(force.z as int, old(self).mass as int, delta_secs as int),
    {
        let accel = force.divide(self.mass);
        let dv = accel.scale(delta_secs);
        let dp = dv.scale(delta_secs).half();
        self.vel = Vec3 {
            x: self.vel.x + dv.x,
            y: self.vel.y + dv.y,
            z: self.vel.z + dv.z,
        };
        self.pos = Vec3 {
            x: self.pos.x + dp.x,
            y: self.pos.y + dp.y,
            z: self.pos.z + dp.z,
        };
    }
}

/// A network of physics points: the full set of points composing one
/// physical object. Springs and volumes refer to its points by index.
#[derive(Clone, Debug)]
pub struct PointNetwork {
    pub points: Vec<PhysPoint>,
}

/// A well-formed network: every point is well-formed, and the network is
/// small enough that mass-weighted sums stay within raw 128-bit range.
pub open spec fn network_ok(n: PointNetwork) -> bool {
    &&& n.points.len() <= 1_000_000
    &&& forall|i: int| 0 <= i < n.points@.len() ==> point_ok(#[trigger] n.points@[i])
}

/// The total mass of a prefix of a point sequence.
pub open spec fn total_mass_of(s: Seq<PhysPoint>) -> int
    decreases s.len(),
{
    if s.len() == 0 {
        0
    } else {
        total_mass_of(s.drop_last()) + s.last().mass
    }
}

/// The mass-weighted sum of one position axis over a point sequence, on raw
/// products (so it carries the fixed-point scale squared).
pub open spec fn weighted_sum(s: Seq<PhysPoint>, axis: int) -> int
    decreases s.len(),
{
    if s.len() == 0 {
        0
    } else {
        weighted_sum(s.drop_last(), axis) + axis_of(s.last().pos, axis) * s.last().mass
    }
}

/// Select one axis of a vector by number: 0 is x, 1 is y, anything else z.
pub open spec fn axis_of(v: Vec3, axis: int) -> int {
    if axis == 0 {
        v.x as int
    } else if axis == 1 {
        v.y as int
    } else {
        v.z as int
    }
}

/// One axis of the center of mass: the mass-weighted position sum divided by
/// the total mass, or zero for a zero total mass.
pub open spec fn com_axis(s: Seq<PhysPoint>, axis: int) -> int {
    if total_mass_of(s) == 0 {
        0
    } else {
        tdiv(weighted_sum(s, axis), total_mass_of(s))
    }
}

/// Bounds on the mass sums of a well-formed point sequence: the total mass
/// counts at most the limit per point, and each weighted sum is bounded by
/// the total mass times the position limit.
pub proof fn lemma_mass_sums_bounded(s: Seq<PhysPoint>, axis: int)
    requires
        forall|i: int| 0 <= i < s.len() ==> point_ok(#[trigger] s[i]),
    ensures
        0 <= total_mass_of(s) <= s.len() * FX_LIM,
        -(total_mass_of(s) * FX_LIM) <= weighted_sum(s, axis) <= total_mass_of(s) * FX_LIM,
    decreases s.len(),
{
    if s.len() == 0 {
    } else {
        lemma_mass_sums_bounded(s.drop_last(), axis);
        assert(point_ok(s.last()));
        let m = s.last().mass as int;
        let t = total_mass_of(s.drop_last());
        let c = axis_of(s.last().pos, axis);
        assert((s.len() - 1) * FX_LIM + FX_LIM == s.len() * FX_LIM) by (nonlinear_arith);
        assert(-(m * FX_LIM) <= c * m <= m * FX_LIM) by (nonlinear_arith)
            requires -FX_LIM <= c <= FX_LIM && m >= 0;
        assert((t + m) * FX_LIM == t * FX_LIM + m * FX_LIM) by (nonlinear_arith);
    }
}

impl PointNetwork {
    /// An empty network.
    pub fn empty() -> (r: PointNetwork)
        ensures
            r.points@.len() == 0,
    {
        PointNetwork { points: Vec::new() }
    }

    /// Construct a network from an explicit position list, one point of unit
    /// mass at rest per position.
    pub fn from_positions(positions: &Vec<Vec3>) -> (r: PointNetwork)
        ensures
            r.points@.len() == positions@.len(),
            forall|i: int| 0 <= i < positions@.len() ==> #[trigger] r.points@[i]
                == (PhysPoint { pos: positions@[i], vel: Vec3 { x: 0, y: 0, z: 0 }, mass: FX_ONE }),
    {
        let mut points: Vec<PhysPoint> = Vec::new();
        let mut i: usize = 0;
        while i < positions.len()
            invariant
                i <= positions@.len(),
                points@.len() == i,
                forall|j: int| 0 <= j < i ==> #[trigger] points@[j]
                    == (PhysPoint { pos: positions@[j], vel: Vec3 { x: 0, y: 0, z: 0 }, mass: FX_ONE }),
            decreases positions@.len() - i,
        {
            points.push(PhysPoint::from_pos(positions[i]));
            i += 1;
        }
        PointNetwork { points }
    }

    /// The mass-weighted average of the point positions, or the origin when
    /// the network has no mass to average over.
    pub fn center_of_mass(&self) -> (r: Vec3)
        requires
            network_ok(*self),
        ensures
            r.x == com_axis(self.points@, 0),
            r.y == com_axis(self.points@, 1),
            r.z == com_axis(self.points@, 2),
    {
        let n = self.points.len();
        let mut total: i128 = 0;
        let mut wx: i128 = 0;
        let mut wy: i128 = 0;
        let mut wz: i128 = 0;
        let mut i: usize = 0;
        while i < n
            invariant
                n == self.points@.len(),
                network_ok(*self),
                i <= n,
                total == total_mass_of(self.points@.take(i as int)),
                wx == weighted_sum(self.points@.take(i as int), 0),
                wy == weighted_sum(self.points@.take(i as int), 1),
                wz == weighted_sum(self.points@.take(i as int), 2),
            decreases n - i,
        {
            proof {
                let pre = self.points@.take(i as int);
                let post = self.points@.take(i as int + 1);
                assert(post.drop_last() =~= pre);
                assert(post.last() == self.points@[i as int]);
                lemma_mass_sums_bounded(post, 0);
                lemma_mass_sums_bounded(post, 1);
                lemma_mass_sums_bounded(post, 2);
                assert(post.len() * FX_LIM <= 1_000_000 * FX_LIM) by (nonlinear_arith)
                    requires post.len() <= 1_000_000;
                assert(total_mass_of(post) * FX_LIM <= 1_000_000 * FX_LIM * FX_LIM) by (nonlinear_arith)
                    requires 0 <= total_mass_of(post) <= 1_000_000 * FX_LIM;
                let pp = self.points@[i as int];
                assert(-(FX_LIM * FX_LIM) <= pp.pos.x * pp.mass <= FX_LIM * FX_LIM) by (nonlinear_arith)
                    requires -FX_LIM <= pp.pos.x <= FX_LIM && 0 <= pp.mass <= FX_LIM;
                assert(-(FX_LIM * FX_LIM) <= pp.pos.y * pp.mass <= FX_LIM * FX_LIM) by (nonlinear_arith)
                    requires -FX_LIM <= pp.pos.y <= FX_LIM && 0 <= pp.mass <= FX_LIM;
                assert(-(FX_LIM * FX_LIM) <= pp.pos.z * pp.mass <= FX_LIM * FX_LIM) by (nonlinear_arith)
                    requires -FX_LIM <= pp.pos.z <= FX_LIM && 0 <= pp.mass <= FX_LIM;
            }
            let p = &self.points[i];
            total = total + (p.mass as i128);
            wx = wx + (p.pos.x as i128) * (p.mass as i128);
            wy = wy + (p.pos.y as i128) * (p.mass as i128);
            wz = wz + (p.pos.z as i128) * (p.mass as i128);
            i += 1;
        }
        proof {
            assert(self.points@.take(n as int) =~= self.points@);
            lemma_mass_sums_bounded(self.points@, 0);
            lemma_mass_sums_bounded(self.points@, 1);
            lemma_mass_sums_bounded(self.points@, 2);
        }
        if total == 0 {
            Vec3::zero()
        } else {
            proof {
                let t = total_mass_of(self.points@);
                lemma_wavg_in_range(weighted_sum(self.points@, 0), t);
                lemma_wavg_in_range(weighted_sum(self.points@, 1), t);
                lemma_wavg_in_range(weighted_sum(self.points@, 2), t);
            }
            Vec3 {
                x: ((wx / total) as i64),
                y: ((wy / total) as i64),
                z: ((wz / total) as i64),
            }
        }
    }

    /// Integrate point positions from their velocities over a tick:
    /// `position += velocity * dt` for every point.
    pub fn integrate(&mut self, delta_secs: i64)
        requires
            delta_secs >= 0,
            network_ok(*old(self)),
            forall|i: int| 0 <= i < old(self).points@.len()
                ==> integrate_ok(#[trigger] old(self).points@[i], delta_secs as int),
        ensures
            final(self).points@.len() == old(self).points@.len(),
            forall|i: int| 0 <= i < final(self).points@.len() ==> {
                let p = old(self).points@[i];
                #[trigger] final(self).points@[i] == (PhysPoint {
                    pos: Vec3 {
                        x: (p.pos.x + fx_mul(p.vel.x as int, delta_secs as int)) as i64,
                        y: (p.pos.y + fx_mul(p.vel.y as int, delta_secs as int)) as i64,
                        z: (p.pos.z + fx_mul(p.vel.z as int, delta_secs as int)) as i64,
                    },
                    ..p
                })
            },
    {
        let n = self.points.len();
        let mut i: usize = 0;
        while i < n
            invariant
                n == self.points@.len(),
                n == old(self).points@.len(),
                i <= n,
                forall|j: int| i <= j < n ==> #[trigger] self.points@[j] == old(self).points@[j],
                forall|j: int| 0 <= j < n ==> point_ok(#[trigger] old(self).points@[j]),
                forall|j: int| 0 <= j < n
                    ==> integrate_ok(#[trigger] old(self).points@[j], delta_secs as int),
                forall|j: int| 0 <= j < i ==> {
                    let p = old(self).points@[j];
                    #[trigger] self.points@[j] == (PhysPoint {
                        pos: Vec3 {
                            x: (p.pos.x + fx_mul(p.vel.x as int, delta_secs as int)) as i64,
                            y: (p.pos.y + fx_mul(p.vel.y as int, delta_secs as int)) as i64,
                            z: (p.pos.z + fx_mul(p.vel.z as int, delta_secs as int)) as i64,
                        },
                        ..p
                    })
                },
            decreases n - i,
        {
            let p = self.points[i];
            let dp = p.vel.scale(delta_secs);
            let moved = PhysPoint {
                pos: Vec3 { x: p.pos.x + dp.x, y: p.pos.y + dp.y, z: p.pos.z + dp.z },
                ..p
            };
            self.points.set(i, moved);
            i += 1;
        }
    }
}

/// A truncated weighted average of in-range scalars is in range: dividing a
/// weighted sum bounded by `total * FX_LIM` by the total lands in the scalar
/// range.
pub proof fn lemma_wavg_in_range(w: int, t: int)
    requires
        t > 0,
        -(t * FX_LIM) <= w <= t * FX_LIM,
    ensures
        -FX_LIM <= tdiv(w, t) <= FX_LIM,
{
    lemma_tdiv_ordered(w, t * FX_LIM, t);
    lemma_tdiv_ordered(-(t * FX_LIM), w, t);
    crate::fx::lemma_tdiv_exact(FX_LIM as int, t);
    assert(FX_LIM * t == t * FX_LIM) by (nonlinear_arith);
    lemma_tdiv_neg(t * FX_LIM, t);
}

} // verus!
