//! A stochastic path-tracing renderer over fixed-point arithmetic.
//!
//! All geometry and radiance values are carried as 64-bit integers holding
//! the value scaled by `SCALE` (2^16), so every operation of the renderer is
//! exact integer arithmetic with truncating division and integer square
//! roots, and every function's behaviour is stated and proved precisely.

pub mod aabb;
pub mod camera;
pub mod fixed;
pub mod image;
pub mod random;
pub mod render;
pub mod scene;
pub mod trace;
pub mod transform;
pub mod vec3;
