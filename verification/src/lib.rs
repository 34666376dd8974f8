//! Verified decision core of a Monte Carlo path tracer.
//!
//! Real quantities cross the interface of this crate as IEEE 754 binary64 bit
//! patterns. Everything that is exact on the representation is decided and
//! proved here: ordering, sign, which root of an intersection counts, which
//! primitive is nearest, when a path ends, which pixel goes where and what
//! text the image file holds. Rounded arithmetic is left to the caller.

pub mod camera;
pub mod color;
pub mod config;
pub mod decimal;
pub mod hitrecord;
pub mod material;
pub mod path;
pub mod render;
pub mod scalar;
pub mod scene;
pub mod sphere;
pub mod utils;
pub mod vec3;
