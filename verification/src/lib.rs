//! An offline ray tracer core on fixed-point coordinates.
//!
//! Scalars are signed 64-bit integers holding a real value scaled by
//! `SCALE` (2^16). Every geometric and shading computation is exact
//! integer arithmetic with floor rounding, so each function's result is
//! pinned down by its contract.

pub mod fixed;
pub mod interval;
pub mod vec3;
pub mod color;
pub mod ray;
pub mod bbox;
pub mod rng;
pub mod hit_record;
pub mod material;
pub mod sphere;
pub mod quad;
pub mod hittable;
pub mod bvh;
pub mod background;
pub mod shaders;
pub mod image_data;
