//! The decisions of a Monte Carlo path tracer, verified.
//!
//! A path tracer computes with real numbers and decides on them: which root of
//! an intersection counts, which surface a ray meets first, whether a surface
//! absorbs, when a light path ends, which byte shows a channel, where a
//! colour lands in the frame. This crate holds the decisions. Numbers are
//! IEEE 754 binary64 values held by their bit patterns ([`scalar::Scalar`]),
//! and every decision is made on the bit patterns with the meaning that
//! IEEE 754 gives to comparison.
//!
//! The arithmetic (dot products, square roots, tangents, random draws)
//! belongs to the caller, who hands its results in as numbers: shapes and
//! surfaces through the traits [`entity::Geometry`] and [`entity::Material`],
//! the roots and the surface of a sphere through the two functions that
//! [`entity::Sphere::hit`] takes, the camera's rays and the colour of a path
//! through the two that [`camera::Camera::render_world_single`] takes.

pub mod camera;
pub mod entity;
pub mod ray;
pub mod scalar;
pub mod utils;
pub mod vector;
