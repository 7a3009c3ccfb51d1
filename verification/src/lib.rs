//! Integer linear-algebra primitives and a verified quadtree spatial index.
//!
//! Coordinates are plain `i64` values, so every geometric predicate and
//! every tree operation has an exact mathematical meaning that the
//! contracts below state and Verus proves.

pub mod vec;
pub mod vector;
pub mod mat3;
pub mod mat4;
pub mod angle;
pub mod line;
pub mod triangles;
pub mod projection;
pub mod bounding_box;
pub mod quadtree;
mod arith;
