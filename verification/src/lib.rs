//! A small ray tracer over saturating fixed-point arithmetic.
//!
//! Every coordinate, color channel and ray parameter is an `i64` holding a
//! fixed-point number: the value 1.0 is `fx::SCALE` units. All arithmetic
//! saturates at `fx::FMAX`, so every geometric computation is a total
//! function; a degenerate input (a zero direction, a ray parallel to a
//! surface) yields "no intersection", never a panic.

pub mod camera;
pub mod color;
pub mod cube;
pub mod cylinder;
pub mod fx;
pub mod hittable;
pub mod hittable_list;
pub mod material;
pub mod plane;
pub mod interval;
pub mod light;
pub mod ray;
pub mod sphere;
pub mod trig;
pub mod util;
pub mod vec3;
