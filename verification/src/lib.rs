//! A Monte-Carlo path tracer, generic over the number type it computes in.
//!
//! A scene of spheres with diffuse, metallic and transparent surfaces is seen
//! through a thin-lens camera; every pixel is sampled with jittered rays whose
//! colour is found by following them from bounce to bounce.
//!
//! - `scalar`: the number type and its operations.
//! - `random`: the source of random draws.
//! - `vec3`, `ray`: vectors and rays.
//! - `objects`, `material`: what a ray can meet, and what happens where it does.
//! - `camera`, `scene`: from pixels to rays, and from rays to colours.
//! - `utils`: helpers.
//! - `algebra`, `laws`: what holds of the tracer, and under which laws of the
//!   arithmetic.
//!
//! Contracts describe every result as a term over the operations of the
//! scalar. Where a function draws random values, its contract says which
//! results the draws can lead to.
pub mod algebra;
pub mod camera;
pub mod laws;
pub mod material;
pub mod objects;
pub mod random;
pub mod ray;
pub mod scalar;
pub mod scene;
pub mod utils;
pub mod vec3;
