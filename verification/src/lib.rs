//! A recursive Monte-Carlo ray tracer over fixed-point scalars.
pub mod fixed;
pub mod vec3;
pub mod ray;
pub mod sampler;
pub mod texture;
pub mod material;
pub mod hittable;
pub mod moving_sphere;
pub mod constant_medium;
pub mod aabb;
pub mod hittable_list;
pub mod camera;
pub mod integrator;
