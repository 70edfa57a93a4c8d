//! The object physics engine.
//!
//! Objects are physically comprised of a network of "points": mobile
//! mass-bearing points in 3D space, to which convex physical volumes can be
//! attached, and springs stretched between pairs of them.

pub mod base;
pub mod spring;
pub mod volume;
pub mod elementary;
pub mod collision;
pub mod forces;
pub mod water;
pub mod torque;
