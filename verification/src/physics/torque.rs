//! Torque application: extends [`PointNetwork`] with rotational force,
//! turned into per-point velocity changes about the center of mass.

use vstd::prelude::*;

verus! {

use crate::{FX_ONE, FX_LIM};
use crate::fx::{tdiv, fx_mul, fx_div, fx_ok, lemma_tdiv_range, lemma_tdiv_ordered};
use crate::vec3::{Vec3, v_ok, norm_of, norm2, unit_of};
use crate::physics::base::{
    PhysPoint, PointNetwork, network_ok, point_ok, com_axis, total_mass_of, weighted_sum,
    lemma_mass_sums_bounded, lemma_wavg_in_range,
};

/// The center of mass of a point sequence, as a vector.
pub open spec fn com_of(s: Seq<PhysPoint>) -> Vec3 {
    Vec3 {
        x: com_axis(s, 0) as i64,
        y: com_axis(s, 1) as i64,
        z: com_axis(s, 2) as i64,
    }
}

/// The center of mass of well-formed points stays in the working range.
pub proof fn lemma_com_in_range(s: Seq<PhysPoint>)
    requires
        forall|i: int| 0 <= i < s.len() ==> point_ok(#[trigger] s[i]),
    ensures
        fx_ok(com_axis(s, 0)),
        fx_ok(com_axis(s, 1)),
        fx_ok(com_axis(s, 2)),
{
    lemma_mass_sums_bounded(s, 0);
    lemma_mass_sums_bounded(s, 1);
    lemma_mass_sums_bounded(s, 2);
    if total_mass_of(s) != 0 {
        lemma_wavg_in_range(weighted_sum(s, 0), total_mass_of(s));
        lemma_wavg_in_range(weighted_sum(s, 1), total_mass_of(s));
        lemma_wavg_in_range(weighted_sum(s, 2), total_mass_of(s));
    }
}

/// The X component of the fixed-point cross product of two vectors.
pub open spec fn cross_x(a: Vec3, b: Vec3) -> int {
    fx_mul(a.y as int, b.z as int) - fx_mul(a.z as int, b.y as int)
}

/// The Y component of the fixed-point cross product of two vectors.
pub open spec fn cross_y(a: Vec3, b: Vec3) -> int {
    fx_mul(a.z as int, b.x as int) - fx_mul(a.x as int, b.z as int)
}

/// The Z component of the fixed-point cross product of two vectors.
pub open spec fn cross_z(a: Vec3, b: Vec3) -> int {
    fx_mul(a.x as int, b.y as int) - fx_mul(a.y as int, b.x as int)
}

/// A point's offset from the center of mass.
pub open spec fn com_offset(p: PhysPoint, com: Vec3) -> Vec3 {
    Vec3 {
        x: (p.pos.x - com.x) as i64,
        y: (p.pos.y - com.y) as i64,
        z: (p.pos.z - com.z) as i64,
    }
}

/// One point's contribution to the moment of inertia about an axis through
/// the center of mass: the squared length of its lever arm's component
/// orthogonal to the axis, times its mass.
pub open spec fn moi_term(p: PhysPoint, com: Vec3, axis: Vec3) -> int {
    let d = com_offset(p, com);
    let n2 = cross_x(d, axis) * cross_x(d, axis)
        + cross_y(d, axis) * cross_y(d, axis)
        + cross_z(d, axis) * cross_z(d, axis);
    tdiv(tdiv(n2, FX_ONE as int) * p.mass, FX_ONE as int)
}

/// The moment of inertia of a point sequence about an axis through the
/// center of mass.
pub open spec fn moi_sum(s: Seq<PhysPoint>, com: Vec3, axis: Vec3) -> int
    decreases s.len(),
{
    if s.len() == 0 {
        0
    } else {
        moi_sum(s.drop_last(), com, axis) + moi_term(s.last(), com, axis)
    }
}

/// Each moment-of-inertia term is nonnegative, and terms within the working
/// range sum to a bounded total.
pub proof fn lemma_moi_bounded(s: Seq<PhysPoint>, com: Vec3, axis: Vec3)
    requires
        forall|i: int| 0 <= i < s.len() ==> point_ok(#[trigger] s[i])
            && moi_term_ok(#[trigger] s[i], com, axis),
    ensures
        0 <= moi_sum(s, com, axis) <= s.len() * (FX_LIM * FX_LIM),
    decreases s.len(),
{
    if s.len() > 0 {
        lemma_moi_bounded(s.drop_last(), com, axis);
        let p = s.last();
        lemma_moi_term_range(p, com, axis);
        assert((s.len() - 1) * (FX_LIM * FX_LIM) + (FX_LIM * FX_LIM)
            == s.len() * (FX_LIM * FX_LIM)) by (nonlinear_arith);
    }
}

/// One moment-of-inertia term stays in the working range: its squared cross
/// length, scaled down to fixed point, is an in-range scalar.
pub open spec fn moi_term_ok(p: PhysPoint, com: Vec3, axis: Vec3) -> bool {
    let d = com_offset(p, com);
    let n2 = cross_x(d, axis) * cross_x(d, axis)
        + cross_y(d, axis) * cross_y(d, axis)
        + cross_z(d, axis) * cross_z(d, axis);
    fx_ok(tdiv(n2, FX_ONE as int))
}

/// An in-range term is between zero and one scalar-limit square.
pub proof fn lemma_moi_term_range(p: PhysPoint, com: Vec3, axis: Vec3)
    requires
        point_ok(p),
        moi_term_ok(p, com, axis),
    ensures
        0 <= moi_term(p, com, axis) <= FX_LIM * FX_LIM,
{
    let d = com_offset(p, com);
    let n2 = cross_x(d, axis) * cross_x(d, axis)
        + cross_y(d, axis) * cross_y(d, axis)
        + cross_z(d, axis) * cross_z(d, axis);
    assert(cross_x(d, axis) * cross_x(d, axis) >= 0) by (nonlinear_arith);
    assert(cross_y(d, axis) * cross_y(d, axis) >= 0) by (nonlinear_arith);
    assert(cross_z(d, axis) * cross_z(d, axis) >= 0) by (nonlinear_arith);
    lemma_tdiv_range(n2, FX_ONE as int);
    let q = tdiv(n2, FX_ONE as int);
    assert(0 <= q * p.mass <= FX_LIM * (FX_LIM * FX_ONE)) by (nonlinear_arith)
        requires 0 <= q <= FX_LIM && 0 < p.mass <= FX_LIM && FX_ONE == 1_000_000;
    lemma_tdiv_range(q * p.mass, FX_ONE as int);
    lemma_tdiv_ordered(q * p.mass, FX_LIM as int * (FX_LIM as int * FX_ONE), FX_ONE as int);
    crate::fx::lemma_tdiv_exact(FX_LIM as int * FX_LIM, FX_ONE as int);
    assert((FX_LIM as int * FX_LIM) * FX_ONE == FX_LIM as int * (FX_LIM as int * FX_ONE))
        by (nonlinear_arith);
}

/// One axis of the velocity an angular impulse adds to a point: the axis
/// crossed with the elementwise-squared lever arm, scaled by the impulse
/// strength, divided by the moment of inertia.
pub open spec fn torque_dv(p: PhysPoint, com: Vec3, axis: Vec3, strength: int, moi: int, which: int) -> int {
    let d = com_offset(p, com);
    let sq = Vec3 {
        x: fx_mul(d.x as int, d.x as int) as i64,
        y: fx_mul(d.y as int, d.y as int) as i64,
        z: fx_mul(d.z as int, d.z as int) as i64,
    };
    let raw = if which == 0 {
        cross_x(axis, sq)
    } else if which == 1 {
        cross_y(axis, sq)
    } else {
        cross_z(axis, sq)
    };
    fx_div(fx_mul(raw, strength), moi)
}

/// A point with one angular impulse applied.
pub open spec fn torqued_point(p: PhysPoint, com: Vec3, axis: Vec3, strength: int, moi: int) -> PhysPoint {
    PhysPoint {
        vel: Vec3 {
            x: (p.vel.x + torque_dv(p, com, axis, strength, moi, 0)) as i64,
            y: (p.vel.y + torque_dv(p, com, axis, strength, moi, 1)) as i64,
            z: (p.vel.z + torque_dv(p, com, axis, strength, moi, 2)) as i64,
        },
        ..p
    }
}

/// Every intermediate of one point's angular-impulse update stays in the
/// working scalar range.
pub open spec fn torque_step_ok(p: PhysPoint, com: Vec3, axis: Vec3, strength: int, moi: int) -> bool {
    let d = com_offset(p, com);
    let sq = Vec3 {
        x: fx_mul(d.x as int, d.x as int) as i64,
        y: fx_mul(d.y as int, d.y as int) as i64,
        z: fx_mul(d.z as int, d.z as int) as i64,
    };
    &&& fx_ok(fx_mul(d.x as int, d.x as int))
    &&& fx_ok(fx_mul(d.y as int, d.y as int))
    &&& fx_ok(fx_mul(d.z as int, d.z as int))
    &&& fx_ok(fx_mul(axis.y as int, sq.z as int)) && fx_ok(fx_mul(axis.z as int, sq.y as int))
    &&& fx_ok(fx_mul(axis.z as int, sq.x as int)) && fx_ok(fx_mul(axis.x as int, sq.z as int))
    &&& fx_ok(fx_mul(axis.x as int, sq.y as int)) && fx_ok(fx_mul(axis.y as int, sq.x as int))
    &&& fx_ok(fx_mul(cross_x(axis, sq), strength))
    &&& fx_ok(fx_mul(cross_y(axis, sq), strength))
    &&& fx_ok(fx_mul(cross_z(axis, sq), strength))
    &&& fx_ok(torque_dv(p, com, axis, strength, moi, 0))
    &&& fx_ok(torque_dv(p, com, axis, strength, moi, 1))
    &&& fx_ok(torque_dv(p, com, axis, strength, moi, 2))
    &&& fx_ok(p.vel.x + torque_dv(p, com, axis, strength, moi, 0))
    &&& fx_ok(p.vel.y + torque_dv(p, com, axis, strength, moi, 1))
    &&& fx_ok(p.vel.z + torque_dv(p, com, axis, strength, moi, 2))
}

impl PointNetwork {
    /// Applies an instant rotational force (angular impulse) about the
    /// center of mass: each point's velocity changes according to its lever
    /// arm, the impulse's axis and strength, and the network's moment of
    /// inertia. A zero impulse, or a zero moment of inertia (all points on
    /// the axis), changes nothing.
    pub fn apply_angular_impulse(&mut self, angular_impulse: Vec3)
        requires
            network_ok(*old(self)),
            v_ok(angular_impulse),
            ({
                let com = com_of(old(self).points@);
                let axis = unit_of(angular_impulse);
                let strength = norm_of(angular_impulse);
                let moi = moi_sum(old(self).points@, com, axis);
                forall|i: int| 0 <= i < old(self).points@.len()
                    ==> moi_term_ok(#[trigger] old(self).points@[i], com, axis)
                        && (moi > 0 ==> torque_step_ok(old(self).points@[i], com, axis, strength, moi))
            }),
        ensures
            final(self).points@.len() == old(self).points@.len(),
            ({
                let com = com_of(old(self).points@);
                let axis = unit_of(angular_impulse);
                let strength = norm_of(angular_impulse);
                let moi = moi_sum(old(self).points@, com, axis);
                if angular_impulse == (Vec3 { x: 0, y: 0, z: 0 }) || moi <= 0 {
                    final(self).points@ == old(self).points@
                } else {
                    forall|i: int| 0 <= i < final(self).points@.len()
                        ==> #[trigger] final(self).points@[i]
                            == torqued_point(old(self).points@[i], com, axis, strength, moi)
                }
            }),
    {
        if angular_impulse.x == 0 && angular_impulse.y == 0 && angular_impulse.z == 0 {
            return;
        }
        proof {
            lemma_com_in_range(self.points@);
            crate::vec3::lemma_norm_bounds(angular_impulse);
            crate::vec3::lemma_unit_bounds(angular_impulse);
        }
        let com = self.center_of_mass();
        let strength = angular_impulse.length();
        let axis = angular_impulse.normalize();
        let ghost pts0 = self.points@;
        let n = self.points.len();

        // First pass: the moment of inertia about the impulse axis.
        let mut moi: i128 = 0;
        let mut i: usize = 0;
        while i < n
            invariant
                i <= n,
                n == self.points@.len() <= 1_000_000,
                self.points@ == pts0,
                com == com_of(pts0),
                axis == unit_of(angular_impulse),
                fx_ok(com.x as int) && fx_ok(com.y as int) && fx_ok(com.z as int),
                -FX_ONE <= axis.x <= FX_ONE && -FX_ONE <= axis.y <= FX_ONE
                    && -FX_ONE <= axis.z <= FX_ONE,
                forall|j: int| 0 <= j < n ==> point_ok(#[trigger] pts0[j])
                    && moi_term_ok(#[trigger] pts0[j], com, axis),
                moi == moi_sum(pts0.take(i as int), com, axis),
                0 <= moi <= i * (FX_LIM * FX_LIM),
            decreases n - i,
        {
            proof {
                assert(pts0.take(i as int + 1).drop_last() =~= pts0.take(i as int));
                assert(pts0.take(i as int + 1).last() == pts0[i as int]);
                lemma_moi_term_range(pts0[i as int], com, axis);
                assert(i * (FX_LIM * FX_LIM) + (FX_LIM * FX_LIM)
                    == (i + 1) * (FX_LIM * FX_LIM)) by (nonlinear_arith);
                assert((i + 1) * (FX_LIM * FX_LIM) <= 1_000_000 * (FX_LIM * FX_LIM)) by (nonlinear_arith)
                    requires i + 1 <= 1_000_000;
            }
            let p = self.points[i];
            let dx = p.pos.x - com.x;
            let dy = p.pos.y - com.y;
            let dz = p.pos.z - com.z;
            proof {
                lemma_cross_mul_fits(dx as int, dy as int, dz as int, axis);
            }
            let cx = crate::fx::fx_mul64(dy, axis.z) - crate::fx::fx_mul64(dz, axis.y);
            let cy = crate::fx::fx_mul64(dz, axis.x) - crate::fx::fx_mul64(dx, axis.z);
            let cz = crate::fx::fx_mul64(dx, axis.y) - crate::fx::fx_mul64(dy, axis.x);
            proof {
                assert(0 <= cx * cx <= 16 * (FX_LIM * FX_LIM)) by (nonlinear_arith)
                    requires -4 * FX_LIM <= cx <= 4 * FX_LIM;
                assert(0 <= cy * cy <= 16 * (FX_LIM * FX_LIM)) by (nonlinear_arith)
                    requires -4 * FX_LIM <= cy <= 4 * FX_LIM;
                assert(0 <= cz * cz <= 16 * (FX_LIM * FX_LIM)) by (nonlinear_arith)
                    requires -4 * FX_LIM <= cz <= 4 * FX_LIM;
            }
            let n2 = (cx as i128) * (cx as i128) + (cy as i128) * (cy as i128)
                + (cz as i128) * (cz as i128);
            let q = n2 / (FX_ONE as i128);
            let term = (q * (p.mass as i128)) / (FX_ONE as i128);
            moi = moi + term;
            i += 1;
        }
        proof {
            assert(pts0.take(n as int) =~= pts0);
        }
        if moi <= 0 {
            return;
        }
        let ghost moig = moi_sum(pts0, com, axis);

        // Second pass: the per-point velocity changes.
        let mut i: usize = 0;
        while i < n
            invariant
                i <= n,
                n == self.points@.len(),
                n == pts0.len(),
                moig == moi_sum(pts0, com, axis),
                0 < moi == moig,
                com == com_of(pts0),
                axis == unit_of(angular_impulse),
                strength == norm_of(angular_impulse),
                fx_ok(com.x as int) && fx_ok(com.y as int) && fx_ok(com.z as int),
                -FX_ONE <= axis.x <= FX_ONE && -FX_ONE <= axis.y <= FX_ONE
                    && -FX_ONE <= axis.z <= FX_ONE,
                forall|j: int| 0 <= j < n ==> point_ok(#[trigger] pts0[j])
                    && torque_step_ok(#[trigger] pts0[j], com, axis, strength as int, moig),
                forall|j: int| i <= j < n ==> #[trigger] self.points@[j] == pts0[j],
                forall|j: int| 0 <= j < i ==> #[trigger] self.points@[j]
                    == torqued_point(pts0[j], com, axis, strength as int, moig),
            decreases n - i,
        {
            let p = self.points[i];
            let dx = p.pos.x - com.x;
            let dy = p.pos.y - com.y;
            let dz = p.pos.z - com.z;
            let sqx = crate::fx::fx_mul64(dx, dx);
            let sqy = crate::fx::fx_mul64(dy, dy);
            let sqz = crate::fx::fx_mul64(dz, dz);
            let ldx = crate::fx::fx_mul64(axis.y, sqz) - crate::fx::fx_mul64(axis.z, sqy);
            let ldy = crate::fx::fx_mul64(axis.z, sqx) - crate::fx::fx_mul64(axis.x, sqz);
            let ldz = crate::fx::fx_mul64(axis.x, sqy) - crate::fx::fx_mul64(axis.y, sqx);
            let fx_ = crate::fx::fx_mul64(ldx, strength);
            let fy_ = crate::fx::fx_mul64(ldy, strength);
            let fz_ = crate::fx::fx_mul64(ldz, strength);
            let dvx = (((fx_ as i128) * (FX_ONE as i128)) / moi) as i64;
            let dvy = (((fy_ as i128) * (FX_ONE as i128)) / moi) as i64;
            let dvz = (((fz_ as i128) * (FX_ONE as i128)) / moi) as i64;
            let updated = PhysPoint {
                vel: Vec3 { x: p.vel.x + dvx, y: p.vel.y + dvy, z: p.vel.z + dvz },
                ..p
            };
            self.points.set(i, updated);
            i += 1;
        }
    }

    /// Applies a rotational force (torque) spread over a tick: the angular
    /// impulse is the torque scaled by the tick's duration.
    pub fn apply_torque(&mut self, torque: Vec3, delta_secs: i64)
        requires
            network_ok(*old(self)),
            delta_secs >= 0,
            i64::MIN <= fx_mul(torque.x as int, delta_secs as int) <= i64::MAX,
            i64::MIN <= fx_mul(torque.y as int, delta_secs as int) <= i64::MAX,
            i64::MIN <= fx_mul(torque.z as int, delta_secs as int) <= i64::MAX,
            v_ok(Vec3 {
                x: fx_mul(torque.x as int, delta_secs as int) as i64,
                y: fx_mul(torque.y as int, delta_secs as int) as i64,
                z: fx_mul(torque.z as int, delta_secs as int) as i64,
            }),
            ({
                let imp = Vec3 {
                    x: fx_mul(torque.x as int, delta_secs as int) as i64,
                    y: fx_mul(torque.y as int, delta_secs as int) as i64,
                    z: fx_mul(torque.z as int, delta_secs as int) as i64,
                };
                let com = com_of(old(self).points@);
                let axis = unit_of(imp);
                let strength = norm_of(imp);
                let moi = moi_sum(old(self).points@, com, axis);
                forall|i: int| 0 <= i < old(self).points@.len()
                    ==> moi_term_ok(#[trigger] old(self).points@[i], com, axis)
                        && (moi > 0 ==> torque_step_ok(old(self).points@[i], com, axis, strength, moi))
            }),
        ensures
            final(self).points@.len() == old(self).points@.len(),
            ({
                let imp = Vec3 {
                    x: fx_mul(torque.x as int, delta_secs as int) as i64,
                    y: fx_mul(torque.y as int, delta_secs as int) as i64,
                    z: fx_mul(torque.z as int, delta_secs as int) as i64,
                };
                let com = com_of(old(self).points@);
                let axis = unit_of(imp);
                let strength = norm_of(imp);
                let moi = moi_sum(old(self).points@, com, axis);
                if imp == (Vec3 { x: 0, y: 0, z: 0 }) || moi <= 0 {
                    final(self).points@ == old(self).points@
                } else {
                    forall|i: int| 0 <= i < final(self).points@.len()
                        ==> #[trigger] final(self).points@[i]
                            == torqued_point(old(self).points@[i], com, axis, strength, moi)
                }
            }),
    {
        let impulse = torque.scale(delta_secs);
        self.apply_angular_impulse(impulse);
    }
}

/// Cross products of an in-range lever arm with a unit axis stay in the
/// working range.
pub proof fn lemma_cross_mul_fits(dx: int, dy: int, dz: int, axis: Vec3)
    requires
        -2 * FX_LIM <= dx <= 2 * FX_LIM,
        -2 * FX_LIM <= dy <= 2 * FX_LIM,
        -2 * FX_LIM <= dz <= 2 * FX_LIM,
        -FX_ONE <= axis.x <= FX_ONE,
        -FX_ONE <= axis.y <= FX_ONE,
        -FX_ONE <= axis.z <= FX_ONE,
    ensures
        -2 * FX_LIM <= fx_mul(dx, axis.x as int) <= 2 * FX_LIM,
        -2 * FX_LIM <= fx_mul(dx, axis.y as int) <= 2 * FX_LIM,
        -2 * FX_LIM <= fx_mul(dx, axis.z as int) <= 2 * FX_LIM,
        -2 * FX_LIM <= fx_mul(dy, axis.x as int) <= 2 * FX_LIM,
        -2 * FX_LIM <= fx_mul(dy, axis.y as int) <= 2 * FX_LIM,
        -2 * FX_LIM <= fx_mul(dy, axis.z as int) <= 2 * FX_LIM,
        -2 * FX_LIM <= fx_mul(dz, axis.x as int) <= 2 * FX_LIM,
        -2 * FX_LIM <= fx_mul(dz, axis.y as int) <= 2 * FX_LIM,
        -2 * FX_LIM <= fx_mul(dz, axis.z as int) <= 2 * FX_LIM,
{
    crate::fx::lemma_fx_mul_bound(dx, axis.x as int, 2 * FX_LIM as int, FX_ONE as int);
    crate::fx::lemma_fx_mul_bound(dx, axis.y as int, 2 * FX_LIM as int, FX_ONE as int);
    crate::fx::lemma_fx_mul_bound(dx, axis.z as int, 2 * FX_LIM as int, FX_ONE as int);
    crate::fx::lemma_fx_mul_bound(dy, axis.x as int, 2 * FX_LIM as int, FX_ONE as int);
    crate::fx::lemma_fx_mul_bound(dy, axis.y as int, 2 * FX_LIM as int, FX_ONE as int);
    crate::fx::lemma_fx_mul_bound(dy, axis.z as int, 2 * FX_LIM as int, FX_ONE as int);
    crate::fx::lemma_fx_mul_bound(dz, axis.x as int, 2 * FX_LIM as int, FX_ONE as int);
    crate::fx::lemma_fx_mul_bound(dz, axis.y as int, 2 * FX_LIM as int, FX_ONE as int);
    crate::fx::lemma_fx_mul_bound(dz, axis.z as int, 2 * FX_LIM as int, FX_ONE as int);
    crate::fx::lemma_tdiv_exact(2 * FX_LIM as int, FX_ONE as int);
    assert(2 * FX_LIM as int * FX_ONE == FX_ONE as int * (2 * FX_LIM)) by (nonlinear_arith);
}


} // verus!
