//! The core of an offline path tracer: bounding boxes, ray/primitive
//! intersection, a bounding-volume hierarchy, materials and the recursive
//! light-transport integrator.
//!
//! Numbers are IEEE-754 binary64 values, held as bit patterns ([`scalar`]).
//! What can be decided on bit patterns is decided here and proved: order and
//! sign, which root to take, which side of a hierarchy to ask first, when a
//! path ends. What has to round is asked of an [`arithmetic::Arithmetic`]
//! that the caller brings, and what has to be drawn, of a
//! [`random::RandomSource`]. Every contract speaks of results relative to
//! those two.
pub mod aabb;
pub mod arithmetic;
pub mod bvh;
pub mod camera;
pub mod colour;
pub mod hittable;
pub mod image;
pub mod integrator;
pub mod material;
pub mod nearest;
pub mod order;
pub mod random;
pub mod ray;
pub mod render;
pub mod scalar;
pub mod scenes;
pub mod texture;
pub mod utils;
pub mod v3;
