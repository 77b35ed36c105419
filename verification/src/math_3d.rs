//! 3D math for the renderer: vectors, transforms, materials, the camera
//! projection and rasterization helpers, and the BVH ray tracer. All
//! coordinates are Q16.16 fixed-point values (see `crate::fx`).

pub mod material;
pub mod raytrace;
pub mod transform;
pub mod utils;
pub mod vec3;

pub use material::Material;
pub use transform::Transform;
pub use vec3::Color;
pub use vec3::Point2d;
pub use vec3::Point3d;
pub use vec3::ToPoint3d;
pub use vec3::Vec3;
pub use vec3::Vec3WithColor;
pub use vec3::Vertex;
