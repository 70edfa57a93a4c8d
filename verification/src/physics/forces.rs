//! Basic physics forces: gravity and air drag.

use vstd::prelude::*;

verus! {

use crate::{FX_ONE, FX_LIM};
use crate::fx::{fx_mul, fx_ok, lemma_fx_mul_bound, lemma_tdiv_exact};
use crate::vec3::Vec3;
use crate::physics::base::{
    PhysPoint, PointNetwork, network_ok, point_ok, force_ok, dv_of, dp_of,
};
use crate::physics::volume::{
    PhysicsVolume, VolumeCollection, VolumeType, collection_ok, volume_bulk_ok, sphere_area,
};

/// Applies gravity to a physics-enabled object.
#[derive(Clone, Copy, PartialEq, Eq, Structural, Debug)]
pub struct Gravity {
    /// The force of gravity, with direction and magnitude.
    pub force: Vec3,
}

impl Default for Gravity {
    /// Ten units per square second, straight down.
    fn default() -> (r: Self)
        ensures
            r.force == (Vec3 { x: 0, y: -10_000_000i64, z: 0 }),
    {
        Gravity { force: Vec3 { x: 0, y: -10_000_000, z: 0 } }
    }
}

impl Gravity {
    pub fn new(gravity_force: Vec3) -> (r: Gravity)
        ensures
            r.force == gravity_force,
    {
        Gravity { force: gravity_force }
    }
}

/// Applies air drag to a physics-enabled object.
#[derive(Clone, Copy, PartialEq, Eq, Structural, Debug)]
pub struct AirDrag {
    /// The drag force factor.
    pub drag_factor: i64,
}

impl AirDrag {
    pub fn new(drag_factor: i64) -> (r: AirDrag)
        ensures
            r.drag_factor == drag_factor,
    {
        AirDrag { drag_factor }
    }
}

impl Default for AirDrag {
    /// A tenth of a unit of drag.
    fn default() -> (r: Self)
        ensures
            r.drag_factor == 100_000,
    {
        AirDrag { drag_factor: 100_000 }
    }
}

/// One axis of the velocity a gravity acceleration adds over a tick:
/// `g * dt`, independent of mass.
pub open spec fn grav_dv(g: int, dt: int) -> int {
    fx_mul(g, dt)
}

/// One axis of the position correction a gravity acceleration adds over a
/// tick: `0.5 * g * dt^2`.
pub open spec fn grav_dp(g: int, dt: int) -> int {
    crate::fx::tdiv(fx_mul(fx_mul(g, dt), dt), 2)
}

/// Every intermediate of a gravity application on a point stays in the
/// working scalar range.
pub open spec fn gravity_step_ok(p: PhysPoint, g: Vec3, dt: int) -> bool {
    &&& fx_ok(grav_dv(g.x as int, dt)) && fx_ok(p.vel.x + grav_dv(g.x as int, dt))
    &&& fx_ok(grav_dv(g.y as int, dt)) && fx_ok(p.vel.y + grav_dv(g.y as int, dt))
    &&& fx_ok(grav_dv(g.z as int, dt)) && fx_ok(p.vel.z + grav_dv(g.z as int, dt))
    &&& fx_ok(fx_mul(grav_dv(g.x as int, dt), dt)) && fx_ok(p.pos.x + grav_dp(g.x as int, dt))
    &&& fx_ok(fx_mul(grav_dv(g.y as int, dt), dt)) && fx_ok(p.pos.y + grav_dp(g.y as int, dt))
    &&& fx_ok(fx_mul(grav_dv(g.z as int, dt), dt)) && fx_ok(p.pos.z + grav_dp(g.z as int, dt))
}

/// One axis of the drag force on a point: `-vel * area * factor`.
pub open spec fn drag_force_axis(v: int, area: int, factor: int) -> int {
    fx_mul(fx_mul(-v, area), factor)
}

/// The point at a drag-carrying volume, with one tick of its drag force
/// applied.
pub open spec fn dragged_point(p: PhysPoint, area: int, factor: int, dt: int) -> PhysPoint {
    let m = p.mass as int;
    let fxx = drag_force_axis(p.vel.x as int, area, factor);
    let fy = drag_force_axis(p.vel.y as int, area, factor);
    let fz = drag_force_axis(p.vel.z as int, area, factor);
    PhysPoint {
        vel: Vec3 {
            x: (p.vel.x + dv_of(fxx, m, dt)) as i64,
            y: (p.vel.y + dv_of(fy, m, dt)) as i64,
            z: (p.vel.z + dv_of(fz, m, dt)) as i64,
        },
        pos: Vec3 {
            x: (p.pos.x + dp_of(fxx, m, dt)) as i64,
            y: (p.pos.y + dp_of(fy, m, dt)) as i64,
            z: (p.pos.z + dp_of(fz, m, dt)) as i64,
        },
        ..p
    }
}

/// The area of a volume, for drag purposes.
pub open spec fn area_of(v: VolumeType) -> int {
    match v {
        VolumeType::Sphere(s) => sphere_area(s.radius as int),
    }
}

/// The effect of one volume's air drag on a point sequence.
pub open spec fn drag_apply(points: Seq<PhysPoint>, vol: PhysicsVolume, factor: int, dt: int) -> Seq<PhysPoint> {
    if vol.point_idx < points.len() {
        points.update(vol.point_idx as int,
            dragged_point(points[vol.point_idx as int], area_of(vol.volume_type), factor, dt))
    } else {
        points
    }
}

/// The effect of a whole volume list's air drag, applied in order.
pub open spec fn drag_fold(points: Seq<PhysPoint>, vols: Seq<PhysicsVolume>, factor: int, dt: int) -> Seq<PhysPoint>
    decreases vols.len(),
{
    if vols.len() == 0 {
        points
    } else {
        drag_fold(drag_apply(points, vols[0], factor, dt), vols.skip(1), factor, dt)
    }
}

/// Every intermediate of one volume's drag application stays in the working
/// scalar range.
pub open spec fn drag_step_ok(points: Seq<PhysPoint>, vol: PhysicsVolume, factor: int, dt: int) -> bool {
    vol.point_idx < points.len() ==> {
        let p = points[vol.point_idx as int];
        let area = area_of(vol.volume_type);
        &&& volume_bulk_ok(vol.volume_type)
        &&& fx_ok(fx_mul(-(p.vel.x as int), area))
        &&& fx_ok(fx_mul(-(p.vel.y as int), area))
        &&& fx_ok(fx_mul(-(p.vel.z as int), area))
        &&& force_ok(p, Vec3 {
            x: drag_force_axis(p.vel.x as int, area, factor) as i64,
            y: drag_force_axis(p.vel.y as int, area, factor) as i64,
            z: drag_force_axis(p.vel.z as int, area, factor) as i64,
        }, dt)
        &&& fx_ok(drag_force_axis(p.vel.x as int, area, factor))
        &&& fx_ok(drag_force_axis(p.vel.y as int, area, factor))
        &&& fx_ok(drag_force_axis(p.vel.z as int, area, factor))
    }
}

/// Every intermediate of a whole drag pass, applied in order, stays in the
/// working scalar range.
pub open spec fn drag_ok(points: Seq<PhysPoint>, vols: Seq<PhysicsVolume>, factor: int, dt: int) -> bool
    decreases vols.len(),
{
    vols.len() == 0 || {
        &&& drag_step_ok(points, vols[0], factor, dt)
        &&& drag_ok(drag_apply(points, vols[0], factor, dt), vols.skip(1), factor, dt)
    }
}

/// One drag application keeps the point count, masses, and well-formedness.
pub proof fn lemma_drag_apply_wf(points: Seq<PhysPoint>, vol: PhysicsVolume, factor: int, dt: int)
    requires
        forall|i: int| 0 <= i < points.len() ==> point_ok(#[trigger] points[i]),
        drag_step_ok(points, vol, factor, dt),
    ensures
        drag_apply(points, vol, factor, dt).len() == points.len(),
        forall|i: int| 0 <= i < points.len()
            ==> point_ok(#[trigger] drag_apply(points, vol, factor, dt)[i])
                && drag_apply(points, vol, factor, dt)[i].mass == points[i].mass,
{
}

impl PointNetwork {
    /// The system responsible for gravity: an acceleration applied over a
    /// tick, uniformly and independently of mass, to every point in the
    /// network: `vel += g * dt` and `pos += 0.5 * g * dt^2`.
    pub fn gravity(&mut self, gravity: &Gravity, delta_secs: i64)
        requires
            delta_secs >= 0,
            network_ok(*old(self)),
            forall|i: int| 0 <= i < old(self).points@.len()
                ==> gravity_step_ok(#[trigger] old(self).points@[i], gravity.force, delta_secs as int),
        ensures
            final(self).points@.len() == old(self).points@.len(),
            forall|i: int| 0 <= i < final(self).points@.len() ==> {
                let p = old(self).points@[i];
                #[trigger] final(self).points@[i] == (PhysPoint {
                    vel: Vec3 {
                        x: (p.vel.x + grav_dv(gravity.force.x as int, delta_secs as int)) as i64,
                        y: (p.vel.y + grav_dv(gravity.force.y as int, delta_secs as int)) as i64,
                        z: (p.vel.z + grav_dv(gravity.force.z as int, delta_secs as int)) as i64,
                    },
                    pos: Vec3 {
                        x: (p.pos.x + grav_dp(gravity.force.x as int, delta_secs as int)) as i64,
                        y: (p.pos.y + grav_dp(gravity.force.y as int, delta_secs as int)) as i64,
                        z: (p.pos.z + grav_dp(gravity.force.z as int, delta_secs as int)) as i64,
                    },
                    ..p
                })
            },
    {
        let n = self.points.len();
        let mut i: usize = 0;
        while i < n
            invariant
                i <= n,
                n == self.points@.len() == old(self).points@.len(),
                delta_secs >= 0,
                forall|j: int| 0 <= j < n ==> point_ok(#[trigger] old(self).points@[j]),
                forall|j: int| 0 <= j < n
                    ==> gravity_step_ok(#[trigger] old(self).points@[j], gravity.force, delta_secs as int),
                forall|j: int| i <= j < n ==> #[trigger] self.points@[j] == old(self).points@[j],
                forall|j: int| 0 <= j < i ==> {
                    let p = old(self).points@[j];
                    #[trigger] self.points@[j] == (PhysPoint {
                        vel: Vec3 {
                            x: (p.vel.x + grav_dv(gravity.force.x as int, delta_secs as int)) as i64,
                            y: (p.vel.y + grav_dv(gravity.force.y as int, delta_secs as int)) as i64,
                            z: (p.vel.z + grav_dv(gravity.force.z as int, delta_secs as int)) as i64,
                        },
                        pos: Vec3 {
                            x: (p.pos.x + grav_dp(gravity.force.x as int, delta_secs as int)) as i64,
                            y: (p.pos.y + grav_dp(gravity.force.y as int, delta_secs as int)) as i64,
                            z: (p.pos.z + grav_dp(gravity.force.z as int, delta_secs as int)) as i64,
                        },
                        ..p
                    })
                },
            decreases n - i,
        {
            let p = self.points[i];
            let dv = gravity.force.scale(delta_secs);
            let dp = dv.scale(delta_secs).half();
            let moved = PhysPoint {
                vel: Vec3 { x: p.vel.x + dv.x, y: p.vel.y + dv.y, z: p.vel.z + dv.z },
                pos: Vec3 { x: p.pos.x + dp.x, y: p.pos.y + dp.y, z: p.pos.z + dp.z },
                ..p
            };
            self.points.set(i, moved);
            i += 1;
        }
    }

    /// The system responsible for air drag: each volume applies a force of
    /// `-velocity * surface_area * drag_factor` to its carrying point, over
    /// a tick, in collection order.
    pub fn air_drag(&mut self, volumes: &VolumeCollection, drag: &AirDrag, delta_secs: i64)
        requires
            delta_secs >= 0,
            network_ok(*old(self)),
            collection_ok(*volumes, old(self).points@.len() as int),
            drag_ok(old(self).points@, volumes.volumes@, drag.drag_factor as int, delta_secs as int),
        ensures
            final(self).points@
                == drag_fold(old(self).points@, volumes.volumes@, drag.drag_factor as int, delta_secs as int),
            final(self).points@.len() == old(self).points@.len(),
            network_ok(*final(self)),
    {
        let ghost all = volumes.volumes@;
        let ghost dt = delta_secs as int;
        let ghost factor = drag.drag_factor as int;
        proof {
            assert(all.skip(0) =~= all);
        }
        let n = volumes.volumes.len();
        let mut i: usize = 0;
        while i < n
            invariant
                i <= n,
                n == volumes.volumes@.len(),
                delta_secs >= 0,
                dt == delta_secs as int,
                factor == drag.drag_factor as int,
                all == volumes.volumes@,
                self.points@.len() == old(self).points@.len(),
                self.points@.len() <= 1_000_000,
                collection_ok(*volumes, self.points@.len() as int),
                forall|j: int| 0 <= j < self.points@.len() ==> point_ok(#[trigger] self.points@[j]),
                drag_ok(self.points@, all.skip(i as int), factor, dt),
                drag_fold(old(self).points@, all, factor, dt)
                    == drag_fold(self.points@, all.skip(i as int), factor, dt),
            decreases n - i,
        {
            proof {
                assert(all.skip(i as int)[0] == all[i as int]);
                assert(all.skip(i as int).skip(1) =~= all.skip(i as int + 1));
                assert(drag_step_ok(self.points@, all[i as int], factor, dt));
                lemma_drag_apply_wf(self.points@, all[i as int], factor, dt);
            }
            let ghost pre = self.points@;
            let vol = volumes.volumes[i];
            let area = vol.volume_type.surface_area();
            let p = self.points[vol.point_idx];
            let force = Vec3 {
                x: crate::fx::fx_mul64(crate::fx::fx_mul64(-p.vel.x, area), drag.drag_factor),
                y: crate::fx::fx_mul64(crate::fx::fx_mul64(-p.vel.y, area), drag.drag_factor),
                z: crate::fx::fx_mul64(crate::fx::fx_mul64(-p.vel.z, area), drag.drag_factor),
            };
            let mut updated = p;
            updated.apply_force_over_time(force, delta_secs);
            self.points.set(vol.point_idx, updated);
            proof {
                assert(self.points@ =~= drag_apply(pre, all[i as int], factor, dt));
            }
            i += 1;
        }
        proof {
            assert(all.skip(n as int).len() == 0);
        }
    }
}

} // verus!
