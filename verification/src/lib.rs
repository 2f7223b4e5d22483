//! An offline Monte-Carlo path tracer over exact fixed-point arithmetic.
//!
//! Geometry, colours and camera parameters are carried as signed fixed-point
//! numbers (see [`fixed`]), so every stage of the pipeline — ray/sphere
//! intersection, material scattering, recursive radiance estimation and the
//! final pixel quantisation — is an exact, fully specified function of its
//! inputs and of the pseudo-random stream that drives the sampling.

pub mod camera;
pub mod colour;
pub mod fixed;
pub mod grid;
pub mod hittable;
pub mod material;
pub mod obj;
pub mod ray;
pub mod renderer;
pub mod rng;
pub mod util;
pub mod vec3;

pub use fixed::SCALE;
