//! An offline path tracer: surfaces and their bounding boxes, the bounding
//! volume hierarchy, materials and textures, the radiance recursion, the row
//! scheduler and the image file.
//!
//! Numbers are IEEE 754 binary64 values carried as their 64 bits. The library
//! compares them, negates them and turns them into whole numbers itself. The
//! five operations that IEEE 754 rounds correctly are asked of an
//! [`scalar::Arithmetic`] unit that the caller supplies, and what the library
//! computes with them it states exactly. Powers, logarithms, the functions
//! of angles and random numbers come from the caller as well, through
//! [`scalar::Functions`] and [`scalar::Chance`]; of them nothing is supposed,
//! and what rests on them is stated of whatever they return.

pub mod scalar;
pub mod interval;
pub mod vector;
pub mod ray;
pub mod aabb;
pub mod image;
pub mod hittable;
pub mod bvh_node;
pub mod nearest;
pub mod texture;
pub mod material;
pub mod camera;
pub mod scheduler;
pub mod color;
pub mod constant_medium;
pub mod text;
pub mod progress;
pub mod perlin;
pub mod quad;
pub mod sphere;
pub mod transform;
pub mod rotate;
