//! A verified fixed-point ray tracer for scenes of reflective spheres.
//!
//! Real-valued coordinates are represented as `i64` fixed-point numbers with
//! one million units to the unit length, so every computation is exact integer
//! arithmetic and every function's result is pinned down by its contract.

pub mod bounce;
pub mod camera;
pub mod path;
pub mod fixed;
pub mod intersect;
pub mod query;
pub mod scene;
pub mod vec3;
