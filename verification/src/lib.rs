//! Verified core of a single-bounce, direct-lighting ray tracer.
//!
//! A renderer casts one ray per pixel, finds the nearest surface that the
//! ray meets and shades it by a point-light law.  Its arithmetic (dot
//! products, square roots, tangents) runs on binary64 hardware numbers,
//! which round.  This library holds the two things around that arithmetic
//! that can be proved.
//!
//! * What the renderer *decides*: how pixels map to the film plane
//!   ([`camera`]), which root of a ray/sphere quadratic is visible
//!   ([`sphere`]), whether a barycentric solution lies inside a triangle
//!   ([`triangle`]) or a plane hit on a patch ([`parallelogram`]), which of
//!   several hits is the nearest ([`scene`]), and how a radiance becomes an
//!   8-bit channel ([`shading`]).  Numbers cross the boundary as
//!   [`scalar::Scalar`], the IEEE-754 encoding of a double, whose meaning
//!   is a [`scalar::Number`]; every decision is stated over that meaning.
//!
//! * What the formulas *mean*: over exact vectors ([`geometry`]) the
//!   modules prove that the quadratic measures the distance of the ray from
//!   the sphere, that the Möller–Trumbore solution is the point where the
//!   ray meets the triangle's plane, and that a ray along a plane never
//!   hits it.

pub mod camera;
pub mod error;
pub mod geometry;
pub mod parallelogram;
pub mod scalar;
pub mod scene;
pub mod shading;
pub mod sphere;
pub mod triangle;
