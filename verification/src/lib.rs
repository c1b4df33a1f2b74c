//! A small path-tracing engine on exact fixed-point arithmetic.
//!
//! Scalars are `i64` values scaled by `fixed::SCALE`; every arithmetic step
//! is specified exactly, so ray/sphere intersection, material scattering,
//! the recursive integrator and sample accumulation all carry contracts
//! that pin their results down.
pub mod camera;
pub mod fixed;
pub mod image;
pub mod material;
pub mod numbers;
pub mod ray;
pub mod world;
