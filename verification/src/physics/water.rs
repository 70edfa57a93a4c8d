//! Water physics: buoyancy and water drag, driven by each volume's submerged
//! geometry below the water level.

use vstd::prelude::*;

verus! {

use crate::{FX_ONE, FX_LIM};
use crate::fx::{fx_mul, fx_ok};
use crate::vec3::Vec3;
use crate::physics::base::{
    PhysPoint, PointNetwork, network_ok, point_ok, force_ok, dv_of, dp_of,
};
use crate::physics::volume::{
    PhysicsVolume, VolumeCollection, VolumeType, collection_ok, volume_bulk_ok,
    sphere_cap_area, sphere_cap_volume,
};
use crate::physics::forces::{Gravity, dragged_point};

/// The density of water: one cubic unit of water weighs just under one unit
/// of mass.
pub const WATER_DENSITY: i64 = 997_000;

/// Applies water physics (drag and buoyancy) to a physics-enabled object.
#[derive(Clone, Copy, PartialEq, Eq, Structural, Debug)]
pub struct WaterPhysics {
    /// Drag force factor.
    pub drag_factor: i64,

    /// Buoyancy factor.
    pub buoyancy_factor: i64,

    /// Y intercept of the water level: all geometry below this plane is
    /// considered submerged.
    pub water_level: i64,
}

impl Default for WaterPhysics {
    /// Half-strength drag and buoyancy at sea level zero.
    fn default() -> (r: Self)
        ensures
            r == (WaterPhysics { drag_factor: 500_000, buoyancy_factor: 500_000, water_level: 0 }),
    {
        WaterPhysics { drag_factor: 500_000, buoyancy_factor: 500_000, water_level: 0 }
    }
}

/// How deep a point's volume sits below the water surface.
pub open spec fn depth_of(p: PhysPoint, water_level: int) -> int {
    water_level - p.pos.y
}

/// The submerged lateral area of a volume at a point.
pub open spec fn area_below_of(v: VolumeType, depth: int) -> int {
    match v {
        VolumeType::Sphere(s) => sphere_cap_area(s.radius as int, depth),
    }
}

/// The submerged volume of a volume at a point.
pub open spec fn volume_below_of(v: VolumeType, depth: int) -> int {
    match v {
        VolumeType::Sphere(s) => sphere_cap_volume(s.radius as int, depth),
    }
}

/// The effect of one volume's water drag on a point sequence: drag against
/// the submerged area, or nothing for a volume fully above water.
pub open spec fn water_drag_apply(points: Seq<PhysPoint>, vol: PhysicsVolume, w: WaterPhysics, dt: int) -> Seq<PhysPoint> {
    if vol.point_idx < points.len() {
        let p = points[vol.point_idx as int];
        let area = area_below_of(vol.volume_type, depth_of(p, w.water_level as int));
        if area <= 0 {
            points
        } else {
            points.update(vol.point_idx as int, dragged_point(p, area, w.drag_factor as int, dt))
        }
    } else {
        points
    }
}

/// One axis of the buoyancy force: the displaced water's weight opposing
/// gravity, scaled by the buoyancy factor.
pub open spec fn buoyancy_axis(g: int, vol: int, factor: int) -> int {
    fx_mul(fx_mul(fx_mul(-g, vol), WATER_DENSITY as int), factor)
}

/// A point with one tick of buoyancy applied.
pub open spec fn buoyed_point(p: PhysPoint, g: Vec3, vol: int, factor: int, dt: int) -> PhysPoint {
    let m = p.mass as int;
    let fxx = buoyancy_axis(g.x as int, vol, factor);
    let fy = buoyancy_axis(g.y as int, vol, factor);
    let fz = buoyancy_axis(g.z as int, vol, factor);
    PhysPoint {
        vel: Vec3 {
            x: (p.vel.x + dv_of(fxx, m, dt)) as i64,
            y: (p.vel.y + dv_of(fy, m, dt)) as i64,
            z: (p.vel.z + dv_of(fz, m, dt)) as i64,
        },
        pos: Vec3 {
            x: (p.pos.x + dp_of(fxx, m, dt)) as i64,
            y: (p.pos.y + dp_of(fy, m, dt)) as i64,
            z: (p.pos.z + dp_of(fz, m, dt)) as i64,
        },
        ..p
    }
}

/// The effect of one volume's buoyancy on a point sequence: the displaced
/// water pushes against gravity, or nothing for a volume fully above water.
pub open spec fn buoyancy_apply(points: Seq<PhysPoint>, vol: PhysicsVolume, w: WaterPhysics, g: Vec3, dt: int) -> Seq<PhysPoint> {
    if vol.point_idx < points.len() {
        let p = points[vol.point_idx as int];
        let below = volume_below_of(vol.volume_type, depth_of(p, w.water_level as int));
        if below <= 0 {
            points
        } else {
            points.update(vol.point_idx as int, buoyed_point(p, g, below, w.buoyancy_factor as int, dt))
        }
    } else {
        points
    }
}

/// The effect of a whole volume list's water drag, applied in order.
pub open spec fn water_drag_fold(points: Seq<PhysPoint>, vols: Seq<PhysicsVolume>, w: WaterPhysics, dt: int) -> Seq<PhysPoint>
    decreases vols.len(),
{
    if vols.len() == 0 {
        points
    } else {
        water_drag_fold(water_drag_apply(points, vols[0], w, dt), vols.skip(1), w, dt)
    }
}

/// The effect of a whole volume list's buoyancy, applied in order.
pub open spec fn buoyancy_fold(points: Seq<PhysPoint>, vols: Seq<PhysicsVolume>, w: WaterPhysics, g: Vec3, dt: int) -> Seq<PhysPoint>
    decreases vols.len(),
{
    if vols.len() == 0 {
        points
    } else {
        buoyancy_fold(buoyancy_apply(points, vols[0], w, g, dt), vols.skip(1), w, g, dt)
    }
}

/// Every intermediate of one volume's water drag stays in the working scalar
/// range.
pub open spec fn water_drag_step_ok(points: Seq<PhysPoint>, vol: PhysicsVolume, w: WaterPhysics, dt: int) -> bool {
    vol.point_idx < points.len() ==> {
        let p = points[vol.point_idx as int];
        let depth = depth_of(p, w.water_level as int);
        let area = area_below_of(vol.volume_type, depth);
        &&& volume_bulk_ok(vol.volume_type)
        &&& fx_ok(w.water_level as int)
        &&& area > 0 ==> {
            &&& fx_ok(fx_mul(-(p.vel.x as int), area))
            &&& fx_ok(fx_mul(-(p.vel.y as int), area))
            &&& fx_ok(fx_mul(-(p.vel.z as int), area))
            &&& fx_ok(fx_mul(fx_mul(-(p.vel.x as int), area), w.drag_factor as int))
            &&& fx_ok(fx_mul(fx_mul(-(p.vel.y as int), area), w.drag_factor as int))
            &&& fx_ok(fx_mul(fx_mul(-(p.vel.z as int), area), w.drag_factor as int))
            &&& force_ok(p, Vec3 {
                x: fx_mul(fx_mul(-(p.vel.x as int), area), w.drag_factor as int) as i64,
                y: fx_mul(fx_mul(-(p.vel.y as int), area), w.drag_factor as int) as i64,
                z: fx_mul(fx_mul(-(p.vel.z as int), area), w.drag_factor as int) as i64,
            }, dt)
        }
    }
}

/// Every intermediate of one volume's buoyancy stays in the working scalar
/// range.
pub open spec fn buoyancy_step_ok(points: Seq<PhysPoint>, vol: PhysicsVolume, w: WaterPhysics, g: Vec3, dt: int) -> bool {
    vol.point_idx < points.len() ==> {
        let p = points[vol.point_idx as int];
        let depth = depth_of(p, w.water_level as int);
        let below = volume_below_of(vol.volume_type, depth);
        &&& volume_bulk_ok(vol.volume_type)
        &&& fx_ok(w.water_level as int)
        &&& fx_ok(g.x as int) && fx_ok(g.y as int) && fx_ok(g.z as int)
        &&& below > 0 ==> {
            &&& fx_ok(fx_mul(-(g.x as int), below))
            &&& fx_ok(fx_mul(-(g.y as int), below))
            &&& fx_ok(fx_mul(-(g.z as int), below))
            &&& fx_ok(fx_mul(fx_mul(-(g.x as int), below), WATER_DENSITY as int))
            &&& fx_ok(fx_mul(fx_mul(-(g.y as int), below), WATER_DENSITY as int))
            &&& fx_ok(fx_mul(fx_mul(-(g.z as int), below), WATER_DENSITY as int))
            &&& fx_ok(buoyancy_axis(g.x as int, below, w.buoyancy_factor as int))
            &&& fx_ok(buoyancy_axis(g.y as int, below, w.buoyancy_factor as int))
            &&& fx_ok(buoyancy_axis(g.z as int, below, w.buoyancy_factor as int))
            &&& force_ok(p, Vec3 {
                x: buoyancy_axis(g.x as int, below, w.buoyancy_factor as int) as i64,
                y: buoyancy_axis(g.y as int, below, w.buoyancy_factor as int) as i64,
                z: buoyancy_axis(g.z as int, below, w.buoyancy_factor as int) as i64,
            }, dt)
        }
    }
}

/// Every intermediate of a whole water drag pass stays in range.
pub open spec fn water_drag_ok(points: Seq<PhysPoint>, vols: Seq<PhysicsVolume>, w: WaterPhysics, dt: int) -> bool
    decreases vols.len(),
{
    vols.len() == 0 || {
        &&& water_drag_step_ok(points, vols[0], w, dt)
        &&& water_drag_ok(water_drag_apply(points, vols[0], w, dt), vols.skip(1), w, dt)
    }
}

/// Every intermediate of a whole buoyancy pass stays in range.
pub open spec fn buoyancy_ok(points: Seq<PhysPoint>, vols: Seq<PhysicsVolume>, w: WaterPhysics, g: Vec3, dt: int) -> bool
    decreases vols.len(),
{
    vols.len() == 0 || {
        &&& buoyancy_step_ok(points, vols[0], w, g, dt)
        &&& buoyancy_ok(buoyancy_apply(points, vols[0], w, g, dt), vols.skip(1), w, g, dt)
    }
}

/// One water drag application keeps the point count, masses and
/// well-formedness.
pub proof fn lemma_water_drag_wf(points: Seq<PhysPoint>, vol: PhysicsVolume, w: WaterPhysics, dt: int)
    requires
        forall|i: int| 0 <= i < points.len() ==> point_ok(#[trigger] points[i]),
        water_drag_step_ok(points, vol, w, dt),
    ensures
        water_drag_apply(points, vol, w, dt).len() == points.len(),
        forall|i: int| 0 <= i < points.len()
            ==> point_ok(#[trigger] water_drag_apply(points, vol, w, dt)[i])
                && water_drag_apply(points, vol, w, dt)[i].mass == points[i].mass,
{
}

/// One buoyancy application keeps the point count, masses and
/// well-formedness.
pub proof fn lemma_buoyancy_wf(points: Seq<PhysPoint>, vol: PhysicsVolume, w: WaterPhysics, g: Vec3, dt: int)
    requires
        forall|i: int| 0 <= i < points.len() ==> point_ok(#[trigger] points[i]),
        buoyancy_step_ok(points, vol, w, g, dt),
    ensures
        buoyancy_apply(points, vol, w, g, dt).len() == points.len(),
        forall|i: int| 0 <= i < points.len()
            ==> point_ok(#[trigger] buoyancy_apply(points, vol, w, g, dt)[i])
                && buoyancy_apply(points, vol, w, g, dt)[i].mass == points[i].mass,
{
}

impl PointNetwork {
    /// The system responsible for water drag: each volume at least partly
    /// below the water level drags its carrying point against its submerged
    /// area; a volume fully above water is skipped.
    pub fn water_drag_system(&mut self, volumes: &VolumeCollection, water_physics: &WaterPhysics, delta_secs: i64)
        requires
            delta_secs >= 0,
            network_ok(*old(self)),
            collection_ok(*volumes, old(self).points@.len() as int),
            water_drag_ok(old(self).points@, volumes.volumes@, *water_physics, delta_secs as int),
        ensures
            final(self).points@ == water_drag_fold(old(self).points@, volumes.volumes@,
                *water_physics, delta_secs as int),
            network_ok(*final(self)),
    {
        let ghost all = volumes.volumes@;
        let ghost dt = delta_secs as int;
        proof {
            assert(all.skip(0) =~= all);
        }
        let n = volumes.volumes.len();
        let mut i: usize = 0;
        while i < n
            invariant
                i <= n,
                n == volumes.volumes@.len(),
                delta_secs >= 0,
                dt == delta_secs as int,
                all == volumes.volumes@,
                self.points@.len() == old(self).points@.len(),
                self.points@.len() <= 1_000_000,
                collection_ok(*volumes, self.points@.len() as int),
                forall|j: int| 0 <= j < self.points@.len() ==> point_ok(#[trigger] self.points@[j]),
                water_drag_ok(self.points@, all.skip(i as int), *water_physics, dt),
                water_drag_fold(old(self).points@, all, *water_physics, dt)
                    == water_drag_fold(self.points@, all.skip(i as int), *water_physics, dt),
            decreases n - i,
        {
            proof {
                assert(all.skip(i as int)[0] == all[i as int]);
                assert(all.skip(i as int).skip(1) =~= all.skip(i as int + 1));
                assert(water_drag_step_ok(self.points@, all[i as int], *water_physics, dt));
                lemma_water_drag_wf(self.points@, all[i as int], *water_physics, dt);
            }
            let ghost pre = self.points@;
            let vol = volumes.volumes[i];
            let p = self.points[vol.point_idx];
            let water_area = vol.volume_type.surface_area_below(water_physics.water_level - p.pos.y);
            if water_area > 0 {
                let force = Vec3 {
                    x: crate::fx::fx_mul64(crate::fx::fx_mul64(-p.vel.x, water_area), water_physics.drag_factor),
                    y: crate::fx::fx_mul64(crate::fx::fx_mul64(-p.vel.y, water_area), water_physics.drag_factor),
                    z: crate::fx::fx_mul64(crate::fx::fx_mul64(-p.vel.z, water_area), water_physics.drag_factor),
                };
                let mut updated = p;
                updated.apply_force_over_time(force, delta_secs);
                self.points.set(vol.point_idx, updated);
            }
            proof {
                assert(self.points@ =~= water_drag_apply(pre, all[i as int], *water_physics, dt));
            }
            i += 1;
        }
        proof {
            assert(all.skip(n as int).len() == 0);
        }
    }

    /// The system responsible for buoyancy: each volume at least partly
    /// below the water level pushes its carrying point against gravity by
    /// the weight of the water it displaces; a volume fully above water is
    /// skipped.
    pub fn water_buoyancy_system(&mut self, volumes: &VolumeCollection, water_physics: &WaterPhysics, gravity: &Gravity, delta_secs: i64)
        requires
            delta_secs >= 0,
            network_ok(*old(self)),
            collection_ok(*volumes, old(self).points@.len() as int),
            buoyancy_ok(old(self).points@, volumes.volumes@, *water_physics, gravity.force, delta_secs as int),
        ensures
            final(self).points@ == buoyancy_fold(old(self).points@, volumes.volumes@,
                *water_physics, gravity.force, delta_secs as int),
            network_ok(*final(self)),
    {
        let ghost all = volumes.volumes@;
        let ghost dt = delta_secs as int;
        proof {
            assert(all.skip(0) =~= all);
        }
        let n = volumes.volumes.len();
        let mut i: usize = 0;
        while i < n
            invariant
                i <= n,
                n == volumes.volumes@.len(),
                delta_secs >= 0,
                dt == delta_secs as int,
                all == volumes.volumes@,
                self.points@.len() == old(self).points@.len(),
                self.points@.len() <= 1_000_000,
                collection_ok(*volumes, self.points@.len() as int),
                forall|j: int| 0 <= j < self.points@.len() ==> point_ok(#[trigger] self.points@[j]),
                buoyancy_ok(self.points@, all.skip(i as int), *water_physics, gravity.force, dt),
                buoyancy_fold(old(self).points@, all, *water_physics, gravity.force, dt)
                    == buoyancy_fold(self.points@, all.skip(i as int), *water_physics, gravity.force, dt),
            decreases n - i,
        {
            proof {
                assert(all.skip(i as int)[0] == all[i as int]);
                assert(all.skip(i as int).skip(1) =~= all.skip(i as int + 1));
                assert(buoyancy_step_ok(self.points@, all[i as int], *water_physics, gravity.force, dt));
                lemma_buoyancy_wf(self.points@, all[i as int], *water_physics, gravity.force, dt);
            }
            let ghost pre = self.points@;
            let vol = volumes.volumes[i];
            let p = self.points[vol.point_idx];
            let water_vol = vol.volume_type.volume_below(water_physics.water_level - p.pos.y);
            if water_vol > 0 {
                let force = Vec3 {
                    x: crate::fx::fx_mul64(crate::fx::fx_mul64(crate::fx::fx_mul64(-gravity.force.x, water_vol), WATER_DENSITY), water_physics.buoyancy_factor),
                    y: crate::fx::fx_mul64(crate::fx::fx_mul64(crate::fx::fx_mul64(-gravity.force.y, water_vol), WATER_DENSITY), water_physics.buoyancy_factor),
                    z: crate::fx::fx_mul64(crate::fx::fx_mul64(crate::fx::fx_mul64(-gravity.force.z, water_vol), WATER_DENSITY), water_physics.buoyancy_factor),
                };
                let mut updated = p;
                updated.apply_force_over_time(force, delta_secs);
                self.points.set(vol.point_idx, updated);
            }
            proof {
                assert(self.points@ =~= buoyancy_apply(pre, all[i as int], *water_physics, gravity.force, dt));
            }
            i += 1;
        }
        proof {
            assert(all.skip(n as int).len() == 0);
        }
    }
}

} // verus!
