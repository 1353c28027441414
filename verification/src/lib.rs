//! A ray-tracing core over fixed-point arithmetic: geometric primitives,
//! a bounding-volume hierarchy, materials, and a recursive radiance
//! integrator, each with a verified contract.
use vstd::prelude::*;

pub mod fixed;
pub mod vec3;
pub mod ray;
pub mod aabb;
pub mod hitable;
pub mod triangle;
pub mod hitable_list;
pub mod bvh;
pub mod rng;
pub mod texture;
pub mod material;
pub mod camera;
pub mod integrator;
pub mod render;
pub mod skymap;

verus! {

} // verus!
