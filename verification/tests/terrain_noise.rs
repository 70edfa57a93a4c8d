//! Noise lattice and fractal noise tests.

use loot_and_roam::terrain::noise::{FractalNoise, LatticeQuadCorners, NoiseLattice, NoiseLatticePoint};
use loot_and_roam::FX_ONE;

#[test]
fn noise_quad_lookup() {
    let lattice = NoiseLattice::new(4, 3);
    let quad_1 = lattice.corners_at_quad(1, 0);
    let quad_2 = lattice.corners_at_quad(1, 1);
    let quad_3 = lattice.corners_at_quad(2, 0);

    assert_eq!(quad_1.sw, quad_2.nw);
    assert_eq!(quad_1.se, quad_2.ne);
    assert_eq!(quad_1.ne, quad_3.nw);
    assert_eq!(quad_1.se, quad_3.sw);
    assert_eq!(
        quad_1.influence_at(FX_ONE / 2, 999_999),
        quad_2.influence_at(FX_ONE / 2, 0)
    );
}

#[test]
fn fractal_noise() {
    let mut fractal = FractalNoise::new(FX_ONE, FX_ONE);

    fractal.add_random_octave(0);
    fractal.add_random_octave(1);
    fractal.add_random_octave(2);

    let inf_1 = fractal.get_influence_at(FX_ONE / 2, FX_ONE / 2);

    fractal.add_random_octave(12);

    let inf_2 = fractal.get_influence_at(FX_ONE / 2, FX_ONE / 2);

    // One part in 2^12 of a whole unit.
    assert!((inf_1 - inf_2).abs() <= FX_ONE / 4096);
}

#[test]
fn quad_influence_1() {
    let quad = LatticeQuadCorners::new(
        NoiseLatticePoint::new(-FX_ONE, -FX_ONE),
        NoiseLatticePoint { inf_vec_x: 0, inf_vec_y: 0 },
        NoiseLatticePoint { inf_vec_x: 0, inf_vec_y: 0 },
        NoiseLatticePoint::new(-FX_ONE, -FX_ONE),
    );

    assert!(quad.influence_at(FX_ONE / 10, FX_ONE / 10) < 0);
    assert!(quad.influence_at(FX_ONE * 9 / 10, FX_ONE * 9 / 10) > 0);
}

#[test]
fn terrain_noise_quad_lookup() {
    let lattice = NoiseLattice::new(3, 3);
    let quad_1 = lattice.corners_at_quad(1, 0);
    let quad_2 = lattice.corners_at_quad(1, 1);

    assert_eq!(quad_1.sw, quad_2.nw);
    assert_eq!(quad_1.se, quad_2.ne);
}

#[test]
fn quad_edge_continuity_randomized() {
    let mut lattice = NoiseLattice::new(4, 4);
    lattice.randomize();
    let quad_1 = lattice.corners_at_quad(1, 1);
    let quad_2 = lattice.corners_at_quad(1, 2);

    // The shared corner gradients are identical by construction, so the
    // influence along the shared edge matches exactly.
    assert_eq!(quad_1.sw, quad_2.nw);
    assert_eq!(quad_1.se, quad_2.ne);
    for step in 0..=4 {
        let x = step * FX_ONE / 4;
        assert_eq!(quad_1.influence_at(x, FX_ONE), quad_2.influence_at(x, 0));
    }
}
