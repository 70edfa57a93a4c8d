//! # Loot & Roam physics and terrain core
//!
//! A point-mass soft-body physics engine: networks of mass-bearing points
//! connected by springs, carrying attached convex collision volumes, subject
//! to gravity, drag, buoyancy, floor and terrain collision, and pairwise
//! object collision resolution; plus a fractal value-noise island terrain
//! generator with a sampled heightmap buffer and mesher.
//!
//! All scalar quantities (positions, velocities, masses, distances, heights)
//! are fixed-point numbers: an `i64` counts millionths of a world unit. The
//! module [`fx`] defines that representation and its arithmetic.

use vstd::prelude::*;

pub mod fx;
pub mod math;
pub mod vec3;
pub mod terrain;
pub mod construct;
pub mod inventory;
pub mod physics;

verus! {

/// The fixed-point scale: one world unit, in raw fixed-point steps.
pub const FX_ONE: i64 = 1_000_000;

/// The largest scalar magnitude the simulation works with: one billion world
/// units. See [`fx::fx_ok`].
pub const FX_LIM: i64 = 1_000_000_000_000_000;

} // verus!
