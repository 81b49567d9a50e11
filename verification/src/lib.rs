//! A software rasterizer: triangles are projected by a perspective camera,
//! sampled at sub-pixel positions, depth-tested and composited into a packed
//! RGBA render target.
//!
//! Every quantity is a fixed-point number with sixteen fractional bits, so each
//! step of the pipeline is exact integer arithmetic with a stated rounding.

pub mod fixed;
pub mod buffer;
pub mod color;
pub mod linalg;
pub mod geometry;
pub mod camera;
pub mod samplers;
pub mod shader;
pub mod target;
pub mod raster;
pub mod scene;
