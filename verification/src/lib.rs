//! A CPU ray tracer whose whole rendering core is verified.
//!
//! Geometry, shading and the framebuffer are modelled over 16.16 fixed-point
//! integers: a scalar holds `value * 65536` in an `i64`, intermediates are
//! exact `i128` products, and every rounding step is pinned down in the
//! contracts. Scenes hold analytic primitives (spheres, planes, cylinders,
//! cones) and triangle meshes, lit by point, spot and directional lights with
//! hard shadows.

pub mod angle;
pub mod camera;
pub mod cilinder;
pub mod cone;
pub mod fx;
pub mod light;
pub mod material;
pub mod mesh;
pub mod plane;
pub mod ray;
pub mod render;
pub mod scene;
pub mod shape;
pub mod solve;
pub mod sphere;
pub mod texture;
pub mod transform;
pub mod mat3;
pub mod mat4;
pub mod vec3;
pub mod vec4;
