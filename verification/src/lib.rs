//! A software 3-D rendering pipeline over fixed-point integer arithmetic.
//!
//! The crate takes a scene — meshes of triangles, a camera, and at most one
//! point light — and produces, once per frame, a depth-sorted list of shaded
//! screen-space triangles ready to be painted by a 2-D canvas.  Every quantity
//! is an integer count of 1/`SCALE` units, so the whole pipeline is exact
//! integer arithmetic: rotation by precomputed sine/cosine pairs, Lambertian
//! lighting with an inverse-square falloff and a range cutoff, an approximate
//! perspective divide, and a painter's-algorithm depth sort.

pub mod fixed;
pub mod lighting;
pub mod pipeline;
pub mod rotation;
pub mod scene;
pub mod sort;
pub mod vec3;
