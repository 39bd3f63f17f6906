//! Fixed-point core of a rigid-body physics engine: bounding-volume algebra,
//! separating-axis intersection tests, bottom- and top-level acceleration
//! structures, and inertial-state integration.
//!
//! All geometry is carried by a fixed-point scalar: an `i64` raw value that
//! stands for `raw / 65536`. Every operation on that scalar has an exact
//! integer meaning, which is what the contracts in this crate speak about.

pub mod fx;
pub mod vec3;
pub mod volume;
pub mod aabb;
pub mod separated_axis;
pub mod bvh;
pub mod bvh_splitting;
pub mod tlas;
pub mod trig;
pub mod quat;
pub mod mat;
pub mod inertia;
pub mod oriented;
pub mod point;
pub mod object;
pub mod engine;
pub mod model;

pub use fx::{Two, Half};
