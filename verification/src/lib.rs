//! A geometric kernel for ray tracing over fixed-point numbers: vector
//! algebra, rays, materials and the ray/sphere intersection test.

pub mod accuracy;
pub mod fixed;
pub mod laws;
pub mod material;
pub mod operators;
pub mod ray;
pub mod text;
pub mod unit_length;
pub mod vector3;
pub mod visible_object;
