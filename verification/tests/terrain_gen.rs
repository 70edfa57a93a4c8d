//! Terrain generator, buffer and node tests.

use loot_and_roam::math::{lerp, smootherstep, QuadCorner};
use loot_and_roam::vec3::Vec3;
use loot_and_roam::terrain::buffer::TerrainBuffer;
use loot_and_roam::terrain::generator::TerrainGenerator;
use loot_and_roam::terrain::noise::FractalNoise;
use loot_and_roam::terrain::generator::{
    default_modulator, CenterPoint, DefaultTerrainModulatorAlgorithm, Interpolator, MinDistance,
    ModulationParams, TerrainModulatorAlgorithm,
};
use loot_and_roam::terrain::generator::DistanceCollector;
use loot_and_roam::terrain::nodes::{ConstantNode, Terrain, TerrainAdder, TerrainMultiplier, TerrainNode};
use loot_and_roam::construct::{part_slot, part_tag, part_tags, DebugPrintPart};
use loot_and_roam::inventory::{EngineDef, FuelType, ManningType};
use loot_and_roam::FX_ONE;

fn unit(n: i64) -> i64 {
    n * FX_ONE
}

#[test]
fn lerp_and_smootherstep_endpoints() {
    assert_eq!(lerp(unit(2), unit(6), 0), unit(2));
    assert_eq!(lerp(unit(2), unit(6), FX_ONE), unit(6));
    assert_eq!(lerp(unit(2), unit(6), FX_ONE / 2), unit(4));
    assert_eq!(smootherstep(unit(2), unit(6), 0), unit(2));
    assert_eq!(smootherstep(unit(2), unit(6), FX_ONE), unit(6));
    // The quintic spline fixes the midpoint.
    assert_eq!(smootherstep(unit(2), unit(6), FX_ONE / 2), unit(4));
}

#[test]
fn quad_corner_coordinates() {
    assert_eq!(QuadCorner::NW.x(), 0);
    assert_eq!(QuadCorner::NE.x(), 1);
    assert_eq!(QuadCorner::SW.y(), 1);
    assert_eq!(QuadCorner::NE.y(), 0);
    assert_eq!(QuadCorner::SE.xf(), FX_ONE);
    assert_eq!(QuadCorner::NW.yf(), 0);
}

#[test]
fn shore_modulation_monotonic() {
    let params = ModulationParams {
        min_shore_distance: unit(30),
        max_shore_distance: unit(80),
        islandification: FX_ONE,
        interpolator: Interpolator::Smootherstep,
    };
    let alg = DefaultTerrainModulatorAlgorithm;
    let height = FX_ONE / 2;
    // Fully islandified: the result is exactly the islandified height.
    let at_40 = alg.push_terrain(&params, unit(40), height);
    let at_60 = alg.push_terrain(&params, unit(60), height);
    let at_80 = alg.push_terrain(&params, unit(80), height);
    assert_eq!(at_40, 800_000);
    assert_eq!(at_60, 400_000);
    assert_eq!(at_80, 0);
    assert!(at_60 <= at_40);
    assert!(at_80 <= at_60);
    // Far past the band, the result floors at one unit underwater.
    let far = alg.push_terrain(&params, unit(500), height);
    assert_eq!(far, -FX_ONE);
}

#[test]
fn empty_shore_band_is_guarded() {
    // A degenerate band (min equals max) must not divide by zero.
    let params = ModulationParams {
        min_shore_distance: unit(30),
        max_shore_distance: unit(30),
        islandification: FX_ONE,
        interpolator: Interpolator::Lerp,
    };
    let alg = DefaultTerrainModulatorAlgorithm;
    let near = alg.push_terrain(&params, unit(10), 0);
    assert_eq!(near, FX_ONE);
    let far = alg.push_terrain(&params, unit(31), 0);
    assert_eq!(far, -FX_ONE);
}

#[test]
fn modulator_uses_nearest_center() {
    let modulator = default_modulator();
    let params = ModulationParams {
        min_shore_distance: unit(30),
        max_shore_distance: unit(80),
        islandification: FX_ONE,
        interpolator: Interpolator::Lerp,
    };
    let centers = vec![
        CenterPoint::new(0, 0, FX_ONE),
        CenterPoint::new(unit(1000), 0, FX_ONE),
    ];
    // Forty units from the first center: scaled distance one fifth.
    let r = modulator.push_terrain(&params, &centers, unit(40), 0, FX_ONE / 2);
    assert_eq!(r, 800_000);
}

#[test]
fn min_distance_collector() {
    let distances = vec![unit(9), unit(4), unit(7)];
    assert_eq!(MinDistance.collect_distances(&distances), unit(4));
}

#[test]
fn buffer_bilinear_height() {
    let buffer = TerrainBuffer {
        resolution: FX_ONE,
        width: 2,
        height: 2,
        values: vec![0, unit(1), 0, unit(1)],
        height_range_low: -unit(1),
        height_range_high: unit(1),
    };
    assert_eq!(buffer.get_height_at(0, 0), 0);
    assert_eq!(buffer.get_height_at(unit(1), 0), unit(1));
    assert_eq!(buffer.get_height_at(FX_ONE / 2, 0), FX_ONE / 2);
    assert_eq!(buffer.get_height_at(FX_ONE / 2, FX_ONE / 2), FX_ONE / 2);
}

#[test]
fn generate_samples_the_generator() {
    // Two units of zeroed noise, one-unit tiles, sampled every unit: a
    // two-by-two buffer. Fully islandified near the center point, the
    // heights all land at one unit.
    let mut noise = FractalNoise::new(2 * FX_ONE, 2 * FX_ONE);
    noise.add_octave(0);
    let generator = TerrainGenerator::new(
        noise,
        default_modulator(),
        vec![CenterPoint::new(0, 0, FX_ONE)],
        ModulationParams {
            min_shore_distance: unit(30),
            max_shore_distance: unit(80),
            islandification: FX_ONE,
            interpolator: Interpolator::Lerp,
        },
        FX_ONE,
    );
    let buffer = TerrainBuffer::generate(&generator, FX_ONE, FX_ONE, FX_ONE);
    assert_eq!(buffer.width, 2);
    assert_eq!(buffer.height, 2);
    assert_eq!(buffer.resolution, FX_ONE);
    assert_eq!(buffer.get_value_at(0, 0), FX_ONE);
    assert_eq!(buffer.get_value_at(1, 1), FX_ONE);
    assert_eq!(buffer.height_range_low, -FX_ONE);
    assert_eq!(buffer.height_range_high, FX_ONE);
}

#[test]
fn random_octaves_stack_in_order() {
    let mut noise = FractalNoise::new(FX_ONE, FX_ONE);
    noise.add_many_random_octaves(2);
    assert_eq!(noise.octave_count(), 3);
    assert_eq!(noise.octaves[0].octave, 0);
    assert_eq!(noise.octaves[1].octave, 1);
    assert_eq!(noise.octaves[2].octave, 2);
    // Every randomized gradient is unit length within truncation.
    for layer in noise.octaves.iter() {
        for p in layer.lattice.points.iter() {
            let n2 = p.inf_vec_x * p.inf_vec_x + p.inf_vec_y * p.inf_vec_y;
            assert!(n2 <= FX_ONE * FX_ONE);
            assert!(n2 >= FX_ONE * FX_ONE - 2 * FX_ONE - 1);
        }
    }
}

#[test]
fn buffer_meshes_two_triangles_per_cell() {
    let buffer = TerrainBuffer {
        resolution: FX_ONE,
        width: 2,
        height: 2,
        values: vec![0, unit(1), 0, unit(1)],
        height_range_low: -unit(1),
        height_range_high: unit(1),
    };
    assert_eq!(buffer.get_num_tris(), 2);
    let mesh = buffer.to_mesh();
    assert_eq!(mesh.positions.len(), 6);
    assert_eq!(mesh.indices.len(), 6);
    for (k, idx) in mesh.indices.iter().enumerate() {
        assert_eq!(*idx as usize, k);
    }
    // First vertex: the NE corner of the only cell, centered on the extent.
    assert_eq!(mesh.positions[0].x, unit(1) - unit(1));
    assert_eq!(mesh.positions[0].y, unit(1));
    // One normal per vertex. The NE corner flips its gradient samples with
    // the X gradient undefined there, so it falls back to the vertical; the
    // NW corner's slope of one per unit leans the normal halfway over.
    assert_eq!(mesh.normals.len(), 6);
    assert_eq!(mesh.normals[0], Vec3::new(0, FX_ONE, 0));
    assert_eq!(mesh.normals[1], Vec3::new(707_107, 707_107, 0));
}

#[test]
fn terrain_nodes_combine() {
    let flat = Terrain::from_node(ConstantNode { value: 64 });
    assert_eq!(flat.compute_height_at_raw(10, -3), 64);

    let adder = TerrainAdder { nodes: vec![ConstantNode { value: 3 }, ConstantNode { value: 4 }] };
    assert_eq!(adder.get_height(0, 0), 7);

    // The product folds from a single raw step, scaling down by sixteen at
    // each partial product: (1 * 32) / 16 = 2, then (2 * 32) / 16 = 4.
    let multiplier = TerrainMultiplier { nodes: vec![ConstantNode { value: 32 }, ConstantNode { value: 32 }] };
    assert_eq!(multiplier.get_height(0, 0), 4);
}

#[test]
fn part_slot_matching() {
    let slot = part_slot(String::from("cannon"));
    let part = part_tag(String::from("cannon"));
    assert!(part.matches_slot(&slot));
    let other = part_tags(vec![String::from("engine"), String::from("sail")]);
    assert!(!other.matches_slot(&slot));
}

#[test]
fn debug_print_part_message() {
    let action = DebugPrintPart::with_message("hello");
    assert_eq!(action.extra_message.as_deref(), Some("hello"));
}

#[test]
fn inventory_defs_hold_values() {
    let engine = EngineDef { fuel_type: Some(FuelType::Coal), power: 500, fuel_consumption: 25 };
    assert_eq!(engine.power, 500);
    assert!(matches!(engine.fuel_type, Some(FuelType::Coal)));
    assert!(matches!(ManningType::StrengthManned(3), ManningType::StrengthManned(3)));
}
