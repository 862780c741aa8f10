//! The core of a path tracer: shapes and what bounds them, the search for
//! the nearest hit of a ray, cameras, materials and textures, the colour
//! that comes along a ray, and the assembly of a picture from its pixels.
//!
//! All of it is written over one scalar type, see [`scalar`], and proved for
//! every such type.
pub mod scalar;
pub mod math;
pub mod interval;
pub mod ray;
pub mod aabb;
pub mod object;
pub mod group;
pub mod bvh;
pub mod equivalence;
pub mod exact;
pub mod transform;
pub mod sphere;
pub mod quad;
pub mod constant_medium;
pub mod camera;
pub mod texture;
pub mod material;
pub mod background;
pub mod solid_color;
pub mod diffuse_light;
pub mod scene;
pub mod lambertian;
pub mod metal;
pub mod dielectric;
pub mod util;
pub mod color;
pub mod checker;
pub mod perlin;
pub mod shapes;
pub mod loader;
pub mod image;
pub mod thread_pool;
