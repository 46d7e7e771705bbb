//! A small recursive ray tracer over saturating fixed-point arithmetic.
//!
//! Scenes are lists of spheres with diffuse, reflective or refractive
//! materials; a camera turns them into a row-major stream of gamma-corrected
//! byte triples.  All numeric work is done on `fixed`-module scalars, whose
//! operations carry exact integer contracts, so every stage of the pipeline
//! is specified and verified down to the rounding of each multiplication.

pub mod camera;
pub mod constants;
pub mod fixed;
pub mod hittable;
pub mod interval;
pub mod material;
pub mod ray;
pub mod utils;
pub mod vec3;
