//! Ray/triangle intersection by the Möller–Trumbore test.
//!
//! For a triangle with corner `p0` and edges `E0 = p1 - p0`, `E1 = p2 - p0`
//! and a ray `O + tD`, the caller computes `P = D x E1`, the determinant
//! `det = P.E0`, and from `T = O - p0` and `Q = T x E0` the barycentric
//! coordinates `u = (P.T) / det`, `v = (Q.D) / det` and the ray parameter
//! `t = (Q.E1) / det`.  Whether these make a hit is decided here.

use crate::error::ConfigError;
use crate::geometry::{
    has_sign_of, lemma_cross_anticommutes, lemma_triple_product_expands,
    lemma_triple_product_rotates, Vector,
};
use crate::scalar::{Number, Scalar};
use vstd::prelude::*;

verus! {

/// Which faces of a triangle a ray can hit.
#[derive(Clone, Copy, Debug, PartialEq, Eq, Structural)]
pub enum Culling {
    /// Both faces are hit.
    Off,
    /// A ray that arrives from behind the triangle passes through it.
    BackFaces,
}

impl Default for Culling {
    /// Faces are not culled unless asked for.
    fn default() -> (c: Culling)
        ensures
            c == Culling::Off,
    {
        Culling::Off
    }
}

/// Whether a determinant and the barycentric solution make a hit.
///
/// The ray must not be parallel to the triangle's plane (`det` is a number
/// other than zero; below zero the back face is hit, which counts unless
/// back faces are culled), the point must lie inside the triangle
/// (`0 <= u <= 1`, `0 <= v` and `u + v <= 1`), and not behind the ray's
/// origin (`0 <= t`).  A quantity that is not a number makes no hit.
pub open spec fn accepts(
    det: Number,
    u: Number,
    v: Number,
    u_plus_v: Number,
    t: Number,
    culling: Culling,
) -> bool {
    &&& det.lt(Number::zero()) || Number::zero().lt(det)
    &&& culling == Culling::BackFaces ==> Number::zero().lt(det)
    &&& Number::zero().le(u)
    &&& u.le(Number::one())
    &&& Number::zero().le(v)
    &&& u_plus_v.le(Number::one())
    &&& Number::zero().le(t)
}

/// A squared normal length that a triangle with an area has: a finite
/// number above zero.
pub open spec fn valid_area(normal_length_squared: Number) -> bool {
    normal_length_squared.is_finite() && Number::zero().lt(normal_length_squared)
}

/// Accepts the triangle whose unnormalised face normal `E1 x E0` has the
/// given squared length.  Corners on one line span no area and give a
/// normal of length zero.
pub fn check_area(normal_length_squared: Scalar) -> (r: Result<(), ConfigError>)
    ensures
        valid_area(normal_length_squared@) ==> r is Ok,
        !valid_area(normal_length_squared@) ==> r == Err::<(), ConfigError>(
            ConfigError::DegenerateTriangle,
        ),
{
    if normal_length_squared.is_finite() && Scalar::zero().lt(normal_length_squared) {
        Ok(())
    } else {
        Err(ConfigError::DegenerateTriangle)
    }
}

/// Whether a ray with this determinant is parallel to the triangle's plane
/// (or the triangle has no area): the determinant is zero, or not a number.
pub fn is_parallel(det: Scalar) -> (r: bool)
    ensures
        r == !(det@.lt(Number::zero()) || Number::zero().lt(det@)),
{
    let zero: Scalar = Scalar::zero();
    !(det.lt(zero) || zero.lt(det))
}

/// The ray parameter of the hit, if the Möller–Trumbore quantities make
/// one: `Some(t)` exactly when they are accepted.
pub fn intersect(
    det: Scalar,
    u: Scalar,
    v: Scalar,
    u_plus_v: Scalar,
    t: Scalar,
    culling: Culling,
) -> (r: Option<Scalar>)
    ensures
        r == if accepts(det@, u@, v@, u_plus_v@, t@, culling) {
            Some(t)
        } else {
            None::<Scalar>
        },
        det@ == Number::zero() ==> r is None,
{
    let zero: Scalar = Scalar::zero();
    let one: Scalar = Scalar::one();
    if is_parallel(det) {
        return None;
    }
    match culling {
        Culling::Off => {},
        Culling::BackFaces => {
            if !zero.lt(det) {
                return None;
            }
        },
    }
    if !(zero.le(u) && u.le(one)) {
        return None;
    }
    if !(zero.le(v) && u_plus_v.le(one)) {
        return None;
    }
    if !zero.le(t) {
        return None;
    }
    Some(t)
}

/// The face normal of a triangle with the edges `e0` and `e1`, before it
/// is brought to unit length: `E1 x E0`.
pub open spec fn face_normal(e0: Vector, e1: Vector) -> Vector {
    e1.cross(e0)
}

/// The determinant of a ray with the given direction: `(D x E1) . E0`.
pub open spec fn determinant(direction: Vector, e0: Vector, e1: Vector) -> int {
    direction.cross(e1).dot(e0)
}

/// The numerator of `u`: `(D x E1) . T`, where `T = O - p0`.
pub open spec fn u_numerator(direction: Vector, offset: Vector, e1: Vector) -> int {
    direction.cross(e1).dot(offset)
}

/// The numerator of `v`: `(T x E0) . D`, where `T = O - p0`.
pub open spec fn v_numerator(direction: Vector, offset: Vector, e0: Vector) -> int {
    offset.cross(e0).dot(direction)
}

/// The numerator of `t`: `(T x E0) . E1`, where `T = O - p0`.
pub open spec fn t_numerator(offset: Vector, e0: Vector, e1: Vector) -> int {
    offset.cross(e0).dot(e1)
}

/// The determinant is the part of the direction along the face normal:
/// it is zero exactly when the ray runs along the triangle's plane.
pub proof fn lemma_determinant_is_along_the_normal(direction: Vector, e0: Vector, e1: Vector)
    ensures
        determinant(direction, e0, e1) == direction.dot(face_normal(e0, e1)),
{
    lemma_triple_product_rotates(direction, e1, e0);
}

/// A ray parallel to the triangle's plane, that is, with a direction at a
/// right angle to the face normal, never hits: whatever the triangle and
/// whatever else was computed, a determinant with the sign of the exact one
/// is refused.
pub proof fn lemma_parallel_ray_misses(
    direction: Vector,
    e0: Vector,
    e1: Vector,
    det: Number,
    u: Number,
    v: Number,
    u_plus_v: Number,
    t: Number,
    culling: Culling,
)
    requires
        direction.dot(face_normal(e0, e1)) == 0,
        has_sign_of(det, determinant(direction, e0, e1)),
    ensures
        !accepts(det, u, v, u_plus_v, t, culling),
{
    lemma_determinant_is_along_the_normal(direction, e0, e1);
}

/// A triangle without area, whose corners lie on one line and whose face
/// normal is therefore the zero vector, is hit by no ray.
pub proof fn lemma_flat_triangle_is_never_hit(
    direction: Vector,
    e0: Vector,
    e1: Vector,
    det: Number,
    u: Number,
    v: Number,
    u_plus_v: Number,
    t: Number,
    culling: Culling,
)
    requires
        face_normal(e0, e1) == (Vector { x: 0, y: 0, z: 0 }),
        has_sign_of(det, determinant(direction, e0, e1)),
    ensures
        !accepts(det, u, v, u_plus_v, t, culling),
{
    lemma_determinant_is_along_the_normal(direction, e0, e1);
    assert(direction.x * 0 == 0 && direction.y * 0 == 0 && direction.z * 0 == 0);
}

/// What the Möller–Trumbore solution solves.  For the triangle with the
/// corners `p0`, `p1`, `p2` and the ray from `origin` along `direction`,
/// the point of the ray at `t = t_numerator / det` is the point of the
/// triangle's plane with the barycentric weights `1 - u - v`, `u` and `v`,
/// where `u = u_numerator / det` and `v = v_numerator / det`; here
/// multiplied through by `det`.  So `0 <= u`, `0 <= v` and `u + v <= 1` say
/// that the ray meets the plane inside the triangle.
pub proof fn lemma_solution_is_the_plane_hit(
    origin: Vector,
    direction: Vector,
    p0: Vector,
    p1: Vector,
    p2: Vector,
)
    ensures
        ({
            let e0 = p1.minus(p0);
            let e1 = p2.minus(p0);
            let offset = origin.minus(p0);
            let det = determinant(direction, e0, e1);
            let u = u_numerator(direction, offset, e1);
            let v = v_numerator(direction, offset, e0);
            let t = t_numerator(offset, e0, e1);
            origin.scaled(det).plus(direction.scaled(t)) == p0.scaled(det - u - v).plus(
                p1.scaled(u),
            ).plus(p2.scaled(v))
        }),
{
    let e0 = p1.minus(p0);
    let e1 = p2.minus(p0);
    let offset = origin.minus(p0);
    let p = direction.cross(e1);
    let q = offset.cross(e0);
    let det = determinant(direction, e0, e1);
    let u = u_numerator(direction, offset, e1);
    let v = v_numerator(direction, offset, e0);
    let t = t_numerator(offset, e0, e1);
    // p x q == det T - u E0 and q x p == t D - v E1 cancel
    lemma_triple_product_expands(p, offset, e0);
    lemma_triple_product_expands(q, direction, e1);
    lemma_cross_anticommutes(p, q);
    assert(offset.scaled(det).minus(e0.scaled(u)).plus(direction.scaled(t).minus(e1.scaled(v)))
        == (Vector { x: 0, y: 0, z: 0 }));
    lemma_weights_of_a_coordinate(origin.x, p0.x, p1.x, p2.x, det, u, v);
    lemma_weights_of_a_coordinate(origin.y, p0.y, p1.y, p2.y, det, u, v);
    lemma_weights_of_a_coordinate(origin.z, p0.z, p1.z, p2.z, det, u, v);
}

/// One coordinate of the step from edges and offset to corners and
/// weights.
proof fn lemma_weights_of_a_coordinate(o: int, a: int, b: int, c: int, det: int, u: int, v: int)
    by (nonlinear_arith)
    ensures
        (o - a) * det - (b - a) * u - (c - a) * v == o * det - (a * (det - u - v) + b * u + c * v),
{
}

/// A hit that is accepted with back faces culled is accepted without.
pub proof fn lemma_culling_only_removes_hits(
    det: Number,
    u: Number,
    v: Number,
    u_plus_v: Number,
    t: Number,
)
    requires
        accepts(det, u, v, u_plus_v, t, Culling::BackFaces),
    ensures
        accepts(det, u, v, u_plus_v, t, Culling::Off),
{
}

} // verus!
