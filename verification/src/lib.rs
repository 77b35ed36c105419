//! A software 3D renderer over fixed-point arithmetic: camera projection,
//! a depth-buffered triangle rasterizer with Gouraud and Phong shading,
//! a Blinn-Phong reflectance model, and a BVH-accelerated ray tracer.

pub mod fx;
pub mod frame_buffer;
pub mod math_3d;
