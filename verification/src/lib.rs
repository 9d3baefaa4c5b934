//! A ray-tracing renderer over saturating fixed-point arithmetic.
//!
//! Scalars are Q47.16 fixed-point numbers held in `i64`: the raw value
//! `v` stands for the real number `v / 65536`. Every arithmetic step is
//! specified exactly by a spec-level mirror, so each rendered byte is a
//! mathematical function of the scene and camera description: rendering
//! is deterministic, and splitting the image across workers row by row
//! cannot change it.

pub mod angle;
pub mod camera;
pub mod color;
pub mod fixed;
pub mod geometry;
pub mod render;
pub mod scene;
pub mod vec3;
