//! A path tracer over signed 16.16 fixed-point numbers: spheres, three
//! surface materials, a depth-bounded radiance estimator and the per-sample
//! frame accumulation that averages stochastic renders.
pub mod fixed;
pub mod vec3;
pub mod ray;
pub mod materials;
pub mod hittable;
pub mod hittable_list;
pub mod common;
pub mod camera;
pub mod render;
pub mod scene;
