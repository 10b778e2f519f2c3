//! Shapes and the search for the nearest one along a ray.
pub mod hittable;
pub mod sphere;
