//! The decisions of a recursive path tracer over spheres, verified.
//!
//! Numbers cross this library as IEEE 754 bit patterns ([`double::Double`]). What
//! is decided here is exact: which root of an intersection is taken, which hit of
//! a scene is the nearest, whether a surface scatters or absorbs, when a path
//! ends, and how the finished image is written out. The arithmetic that rounds,
//! and the random draws, are done by the caller and handed in.

pub mod double;
pub mod hitable;
pub mod hitable_list;
pub mod material;
pub mod ppm;
pub mod ray;
pub mod render;
pub mod scene;
pub mod sphere;
pub mod util;
