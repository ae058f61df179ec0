//! A Monte-Carlo path tracer over fixed-point arithmetic.
//!
//! Every scalar quantity (coordinates, colors, ray parameters) is a
//! fixed-point number: an `i64` holding the value scaled by 2^16 and
//! saturated to a fixed symmetric range. All geometry, material and
//! radiance computations are exact integer arithmetic, so every function
//! of the engine carries a contract that pins its result down.

pub mod fixed;
pub mod rng;
pub mod vec3;
pub mod ray;
pub mod hit;
pub mod sphere;
pub mod rect;
pub mod perlin;
pub mod texture;
pub mod material;
pub mod camera;
pub mod render;
