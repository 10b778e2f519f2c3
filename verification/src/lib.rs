//! The decisions of a sphere path tracer, verified: ordering of ray
//! parameters, nearest-hit search, bounce bookkeeping, pixel encoding.
pub mod camera;
pub mod color;
pub mod geometry;
pub mod interval;
pub mod material;
pub mod ray;
pub mod scalar;
pub mod vec3;
