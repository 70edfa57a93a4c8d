//! Terrain definitions: fractal value noise, island heightmap generation,
//! sampled heightmap buffers, and integer heightmap node trees.

pub mod noise;
pub mod generator;
pub mod nodes;
pub mod buffer;
pub mod collision;
