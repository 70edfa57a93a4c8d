//! Physics core tests: springs, collision volumes, floor response, forces.

use loot_and_roam::physics::base::{PhysPoint, PointNetwork};
use loot_and_roam::terrain::buffer::TerrainBuffer;
use loot_and_roam::terrain::collision::{terrain_aabb, terrain_volume_collision_system};
use loot_and_roam::physics::collision::FloorPlaneCollision;
use loot_and_roam::physics::elementary::{Collision, Cylinder, Sphere, Volume};
use loot_and_roam::physics::forces::Gravity;
use loot_and_roam::physics::spring::{NormalSpring, Spring, SpringMode, SpringNetwork};
use loot_and_roam::physics::volume::{
    PhysicsVolume, SphereDef, Span, VolumeCollection, VolumeType, AABB,
};

use loot_and_roam::vec3::Vec3;
use loot_and_roam::FX_ONE;

fn unit(n: i64) -> i64 {
    n * FX_ONE
}

#[test]
fn spring_momentum_symmetry() {
    // Two equal unit masses three units apart, joined by a unit-rest spring.
    let mut net = PointNetwork::from_positions(&vec![
        Vec3::new(0, 0, 0),
        Vec3::new(unit(3), 0, 0),
    ]);
    let springs = SpringNetwork {
        springs: vec![Spring {
            points: (0, 1),
            rest_dist: unit(1),
            mode: SpringMode::Normal(NormalSpring { stiffness: FX_ONE }),
        }],
    };
    net.point_spring_forces(&springs, FX_ONE);
    let a = net.points[0];
    let b = net.points[1];
    // The applied forces are equal and opposite: velocity changes cancel and
    // the pair's momentum stays zero.
    assert_eq!(a.vel.x, unit(1));
    assert_eq!(b.vel.x, -unit(1));
    assert_eq!(a.vel.x + b.vel.x, 0);
    // The center of mass is conserved: positions moved toward each other
    // by the same amount.
    assert_eq!(a.pos.x + b.pos.x, unit(3));
}

#[test]
fn spring_instant_center_conservation() {
    let mut net = PointNetwork::from_positions(&vec![
        Vec3::new(0, 0, 0),
        Vec3::new(unit(4), 0, 0),
    ]);
    let springs = SpringNetwork {
        springs: vec![Spring {
            points: (0, 1),
            rest_dist: unit(2),
            mode: SpringMode::Instant,
        }],
    };
    net.point_spring_forces(&springs, 0);
    let a = net.points[0];
    let b = net.points[1];
    assert_eq!(a.pos.x, unit(1));
    assert_eq!(b.pos.x, unit(3));
    assert_eq!(a.pos.x + b.pos.x, unit(4));
}

#[test]
fn sphere_sdf_sign_convention() {
    let sphere = SphereDef::new(unit(5));
    assert!(sphere.sdf(Vec3::new(unit(3), 0, 0)) < 0);
    assert_eq!(sphere.sdf(Vec3::new(unit(5), 0, 0)), 0);
    assert_eq!(sphere.sdf(Vec3::new(unit(7), 0, 0)), unit(2));
    assert!(sphere.point_is_within(Vec3::new(unit(4), 0, 0)));
    assert!(!sphere.point_is_within(Vec3::new(unit(6), 0, 0)));
}

#[test]
fn sphere_sphere_collision_threshold() {
    let a = Sphere { radius: unit(5) };
    let b = Sphere { radius: unit(3) };
    // Distance 7: collision.
    assert!(a.detect(&b, Vec3::new(unit(7), 0, 0)).is_some());
    // Distance 8 (exactly touching): collision.
    assert!(a.detect(&b, Vec3::new(unit(8), 0, 0)).is_some());
    // Distance 9: no collision.
    assert!(a.detect(&b, Vec3::new(unit(9), 0, 0)).is_none());
}

#[test]
fn cylinder_cylinder_collision() {
    let a = Cylinder { radius: unit(5), height: unit(2) };
    let b = Cylinder { radius: unit(3), height: unit(2) };
    // Radially within reach: collision.
    assert!(a.detect(&b, Vec3::new(unit(7), 0, 0)).is_some());
    // Height exceeded: no collision.
    assert!(a.detect(&b, Vec3::new(unit(7), 0, unit(5))).is_none());
    // Radius exceeded: no collision.
    assert!(a.detect(&b, Vec3::new(unit(9), 0, 0)).is_none());
}

#[test]
fn averaged_point_volume_collision() {
    let a = VolumeType::Sphere(SphereDef::new(unit(5)));
    let b = VolumeType::Sphere(SphereDef::new(unit(3)));
    let hit = a.collision(&b, Vec3::new(unit(7), 0, 0));
    let info = hit.expect("overlapping spheres must collide");
    // The averaged closest point: midpoint of (5,0,0) and (4,0,0).
    assert_eq!(info.pos, Vec3::new(4_500_000, 0, 0));
    assert_eq!(info.normal, Vec3::new(FX_ONE, 0, 0));
    assert!(a.collision(&b, Vec3::new(unit(9), 0, 0)).is_none());
}

#[test]
fn floor_plane_restitution() {
    // A point one unit under the intercept, falling at five units per
    // second, with restitution 0.2.
    let mut net = PointNetwork {
        points: vec![PhysPoint::new(
            Vec3::new(0, -unit(1), 0),
            Vec3::new(0, -unit(5), 0),
            FX_ONE,
        )],
    };
    let floor = FloorPlaneCollision {
        intercept_y: 0,
        restitution: 200_000,
        friction: 0,
    };
    net.floor_plane_collision_system(&floor);
    assert_eq!(net.points[0].pos.y, 0);
    assert_eq!(net.points[0].vel.y, unit(1));
}

#[test]
fn floor_friction_overshoot_zeroes() {
    // Enormous friction wipes horizontal velocity instead of reversing it.
    let mut net = PointNetwork {
        points: vec![PhysPoint::new(
            Vec3::new(0, -unit(1), 0),
            Vec3::new(unit(2), 0, unit(2)),
            FX_ONE,
        )],
    };
    let floor = FloorPlaneCollision {
        intercept_y: 0,
        restitution: 0,
        friction: unit(100),
    };
    net.floor_plane_collision_system(&floor);
    assert_eq!(net.points[0].vel.x, 0);
    assert_eq!(net.points[0].vel.z, 0);
}

#[test]
fn aabb_checks_and_union() {
    let a = AABB::new(
        Span { start: 0, end: unit(2) },
        Span { start: 0, end: unit(2) },
        Span { start: 0, end: unit(2) },
    );
    // Separated along each axis in turn: no overlap.
    let bx = AABB::new(
        Span { start: unit(3), end: unit(4) },
        Span { start: 0, end: unit(2) },
        Span { start: 0, end: unit(2) },
    );
    let by = AABB::new(
        Span { start: 0, end: unit(2) },
        Span { start: unit(3), end: unit(4) },
        Span { start: 0, end: unit(2) },
    );
    let bz = AABB::new(
        Span { start: 0, end: unit(2) },
        Span { start: 0, end: unit(2) },
        Span { start: unit(3), end: unit(4) },
    );
    assert!(!a.check(&bx));
    assert!(!a.check(&by));
    assert!(!a.check(&bz));
    // Overlapping boxes.
    let c = AABB::new(
        Span { start: unit(1), end: unit(3) },
        Span { start: unit(1), end: unit(3) },
        Span { start: unit(1), end: unit(3) },
    );
    assert!(a.check(&c));
    // The union contains both inputs' corners.
    let u = a.union(c);
    assert!(u.check_point(Vec3::new(0, 0, 0)));
    assert!(u.check_point(Vec3::new(unit(3), unit(3), unit(3))));
    assert!(u.check_point(Vec3::new(unit(2), unit(1), unit(3))));
}

#[test]
fn gravity_tick_is_mass_independent() {
    let mut net = PointNetwork {
        points: vec![
            PhysPoint::new(Vec3::new(0, unit(10), 0), Vec3::new(0, 0, 0), FX_ONE),
            PhysPoint::new(Vec3::new(0, unit(10), 0), Vec3::new(0, 0, 0), 2 * FX_ONE),
        ],
    };
    let gravity = Gravity::default();
    net.gravity(&gravity, FX_ONE);
    // After one second: velocity -10, position corrected by -5, uniformly
    // for every point whatever its mass.
    assert_eq!(net.points[0].vel.y, -unit(10));
    assert_eq!(net.points[0].pos.y, unit(5));
    assert_eq!(net.points[1].vel.y, -unit(10));
    assert_eq!(net.points[1].pos.y, unit(5));
}

#[test]
fn angular_impulse_spins_points() {
    // Two unit masses a unit either side of the origin, spun about Z.
    let mut net = PointNetwork::from_positions(&vec![
        Vec3::new(unit(1), 0, 0),
        Vec3::new(-unit(1), 0, 0),
    ]);
    net.apply_angular_impulse(Vec3::new(0, 0, unit(2)));
    // Axis (0,0,1), strength 2; each lever arm contributes one unit-squared
    // of inertia, so the moment of inertia is two; the elementwise-squared
    // lever arm makes each point's velocity change (0, 1, 0).
    assert_eq!(net.points[0].vel.y, unit(1));
    assert_eq!(net.points[1].vel.y, unit(1));
    // A zero impulse changes nothing.
    let before = net.points[0];
    net.apply_angular_impulse(Vec3::new(0, 0, 0));
    assert_eq!(net.points[0], before);
}

#[test]
fn volumes_at_selected_points() {
    let net = PointNetwork::from_positions(&vec![
        Vec3::new(0, 0, 0),
        Vec3::new(unit(1), 0, 0),
        Vec3::new(unit(2), 0, 0),
    ]);
    let vt = VolumeType::Sphere(SphereDef::new(FX_ONE / 2));
    // Keep exactly the even indices.
    let picked = VolumeCollection::at_points_when(&net, vt, |_p, i| i % 2 == 0);
    assert_eq!(picked.volumes.len(), 2);
    assert_eq!(picked.volumes[0].point_idx, 0);
    assert_eq!(picked.volumes[1].point_idx, 2);
}

#[test]
fn integrate_moves_points() {
    let mut net = PointNetwork {
        points: vec![PhysPoint::new(
            Vec3::new(0, 0, 0),
            Vec3::new(unit(2), unit(1), 0),
            FX_ONE,
        )],
    };
    net.integrate(FX_ONE / 2);
    assert_eq!(net.points[0].pos.x, unit(1));
    assert_eq!(net.points[0].pos.y, FX_ONE / 2);
}

#[test]
fn center_of_mass_weighted() {
    let mut net = PointNetwork::from_positions(&vec![
        Vec3::new(0, 0, 0),
        Vec3::new(unit(4), 0, 0),
    ]);
    let mut heavy = net.points[1];
    heavy.with_mass(3 * FX_ONE);
    net.points[1] = heavy;
    let com = net.center_of_mass();
    assert_eq!(com.x, unit(3));
    assert_eq!(com.y, 0);
}

#[test]
fn collision_pass_pushes_apart() {
    let mut net1 = PointNetwork::from_positions(&vec![Vec3::new(0, 0, 0)]);
    let mut net2 = PointNetwork::from_positions(&vec![Vec3::new(unit(7), 0, 0)]);
    let vols1 = VolumeCollection {
        volumes: vec![PhysicsVolume { point_idx: 0, volume_type: VolumeType::Sphere(SphereDef::new(unit(5))) }],
    };
    let vols2 = VolumeCollection {
        volumes: vec![PhysicsVolume { point_idx: 0, volume_type: VolumeType::Sphere(SphereDef::new(unit(3))) }],
    };
    let events = loot_and_roam::physics::collision::volume_volume_collision_system(
        0, 1, &mut net1, &vols1, &mut net2, &vols2,
    );
    assert_eq!(events.len(), 1);
    assert_eq!(events[0].entity_ref, 0);
    assert_eq!(events[0].entity_other, 1);
    // Penetration depth: both SDFs read half a unit deep at the averaged
    // point, so the mean depth is half a unit.
    assert_eq!(events[0].depth, FX_ONE / 2);
    // The push-apart separates the velocities along the collision normal.
    assert!(net1.points[0].vel.x < 0);
    assert!(net2.points[0].vel.x > 0);
    assert_eq!(net1.points[0].vel.x, -events[0].depth);
}

#[test]
fn volume_primitive_bulk_properties() {
    let sphere = Volume::Sphere(Sphere { radius: FX_ONE });
    // Surface area of a unit sphere: 4 pi.
    assert_eq!(sphere.surface_area(), 12_566_372);
    // Volume of a unit ball: 4 pi / 3, matching the fully submerged cap.
    assert_eq!(sphere.volume(), 4_188_790);
    let cyl = Volume::Cylinder(Cylinder { radius: FX_ONE, height: FX_ONE });
    // Volume of a unit-radius, two-unit-tall cylinder: 2 pi.
    assert_eq!(cyl.volume(), 6_283_186);
}

#[test]
fn submerged_sphere_cap() {
    let v = VolumeType::Sphere(SphereDef::new(FX_ONE));
    // Fully above water: nothing submerged.
    assert_eq!(v.volume_below(-unit(2)), 0);
    assert_eq!(v.surface_area_below(-unit(2)), 0);
    // Fully below water: the whole bulk, 4/3 pi.
    assert_eq!(v.volume_below(unit(2)), 4_188_790);
    // Half submerged: half of 4/3 pi.
    assert_eq!(v.volume_below(0), 2_094_395);
}

#[test]
fn terrain_collision_pushes_up() {
    // A flat terrain two units high, three samples per axis, placed at the
    // origin.
    let buffer = TerrainBuffer {
        resolution: FX_ONE,
        width: 3,
        height: 3,
        values: vec![unit(2); 9],
        height_range_low: 0,
        height_range_high: unit(2),
    };
    let terra_box = terrain_aabb(&buffer, Vec3::new(0, 0, 0));
    assert!(terra_box.check_point(Vec3::new(unit(1), unit(1), unit(1))));

    // A point one unit up, inside the terrain (which is two units high).
    let mut net = PointNetwork::from_positions(&vec![Vec3::new(unit(1), unit(1), unit(1))]);
    let vols = VolumeCollection {
        volumes: vec![PhysicsVolume { point_idx: 0, volume_type: VolumeType::Sphere(SphereDef::new(FX_ONE / 2)) }],
    };
    let events = terrain_volume_collision_system(0, 7, &mut net, &vols, &buffer, Vec3::new(0, 0, 0));
    assert_eq!(events.len(), 1);
    assert_eq!(events[0].entity_terrain, 7);
    // One unit below flat ground: depth one, normal straight up.
    assert_eq!(events[0].depth, unit(1));
    assert_eq!(events[0].info.normal, Vec3::new(0, FX_ONE, 0));
    // The velocity correction pushes along the normal by the depth.
    assert_eq!(net.points[0].vel.y, unit(1));

    // A point above the ground is left alone.
    let mut high = PointNetwork::from_positions(&vec![Vec3::new(unit(1), unit(3), unit(1))]);
    let none = terrain_volume_collision_system(0, 7, &mut high, &vols, &buffer, Vec3::new(0, 0, 0));
    assert!(none.is_empty());
    assert_eq!(high.points[0].vel.y, 0);
}
