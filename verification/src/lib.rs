//! The discrete core of a recursive ray tracer: colours, the framebuffer and
//! its rasteriser, textures and materials, hit selection and the control of
//! the recursive colour evaluation.
//!
//! Real numbers are carried by their IEEE-754 bit pattern (`Scalar`): the
//! library orders and tests them, and never does arithmetic on them. The
//! arithmetic of intersection and shading is the user's: shapes implement
//! `RayIntersect`, and `cast_ray` takes the shading as three functions.

pub mod color;
pub mod framebuffer;
pub mod line;
pub mod scalar;
pub mod textures;
pub mod materials;
pub mod ray_intersect;
pub mod light;
pub mod scene;
pub mod camera;
pub mod tracer;
pub mod sphere;
pub mod cube;
pub mod semantics;
