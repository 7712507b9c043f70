//! A small recursive ray tracer over a fixed-point numeric kernel.
//!
//! Every quantity (coordinates, colors, ray parameters) is a signed 64-bit
//! fixed-point number with 16 fractional bits, so all arithmetic is exact,
//! total (saturating), and fully verified.

pub mod fx;
pub mod utils;
pub mod vec3;
pub mod interval;
pub mod ray;
pub mod hittable;
pub mod material;
pub mod sphere;
pub mod hittable_list;
pub mod color;
pub mod camera;
