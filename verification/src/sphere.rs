//! Ray/sphere intersection: which root of the quadratic is the visible hit.
//!
//! For a ray `O + tD` and a sphere of centre `C` and radius `r`, with
//! `L = O - C`, the hit parameters are the roots of `a t^2 + b t + c = 0`
//! where `a = D.D`, `b = 2 (D.L)` and `c = L.L - r^2`.  The caller computes
//! the discriminant `b^2 - 4ac` and, where it is not negative, the roots
//! `t0 = (-b - sqrt(disc)) / 2a` and `t1 = (-b + sqrt(disc)) / 2a`.  What is
//! decided from them is decided here.

use crate::error::ConfigError;
use crate::geometry::{
    has_sign_of, lemma_dot_commutes, lemma_dot_distributes, lemma_dot_scales, Vector,
};
use crate::scalar::{Number, Scalar};
use vstd::prelude::*;

verus! {

/// A radius a sphere can have: a finite number above zero.
pub open spec fn valid_radius(radius: Number) -> bool {
    radius.is_finite() && Number::zero().lt(radius)
}

/// The visible root of a quadratic with roots `t0` and `t1`: `t0` where it
/// is not negative, else `t1` where that is not negative, else none.  A
/// negative root lies behind the ray's origin.
pub open spec fn visible(t0: Scalar, t1: Scalar) -> Option<Scalar> {
    if Number::zero().le(t0@) {
        Some(t0)
    } else if Number::zero().le(t1@) {
        Some(t1)
    } else {
        None
    }
}

/// The hit parameter of a ray on a sphere, from the discriminant and the
/// two roots of its quadratic: none where the discriminant is negative (the
/// ray's line passes the sphere), else the visible root.
pub open spec fn hit_parameter(discriminant: Scalar, t0: Scalar, t1: Scalar) -> Option<Scalar> {
    if Number::zero().le(discriminant@) {
        visible(t0, t1)
    } else {
        None
    }
}

/// Accepts a radius that is a finite number above zero.
pub fn check_radius(radius: Scalar) -> (r: Result<(), ConfigError>)
    ensures
        valid_radius(radius@) ==> r is Ok,
        !valid_radius(radius@) ==> r == Err::<(), ConfigError>(ConfigError::InvalidRadius),
{
    if radius.is_finite() && Scalar::zero().lt(radius) {
        Ok(())
    } else {
        Err(ConfigError::InvalidRadius)
    }
}

/// Whether the quadratic has real roots, that is, whether the ray's line
/// meets the sphere: the discriminant is zero or more.
pub fn has_real_roots(discriminant: Scalar) -> (r: bool)
    ensures
        r == Number::zero().le(discriminant@),
{
    Scalar::zero().le(discriminant)
}

/// The visible one of the two roots `t0 <= t1`.
///
/// Where the roots are ordered the answer is the smallest root that is not
/// negative, and there is none exactly when both roots are negative or not
/// numbers.
pub fn visible_root(t0: Scalar, t1: Scalar) -> (r: Option<Scalar>)
    ensures
        r == visible(t0, t1),
        r matches Some(t) ==> (t == t0 || t == t1) && Number::zero().le(t@),
        r is None <==> !Number::zero().le(t0@) && !Number::zero().le(t1@),
{
    let zero: Scalar = Scalar::zero();
    if zero.le(t0) {
        Some(t0)
    } else if zero.le(t1) {
        Some(t1)
    } else {
        None
    }
}

/// The hit parameter of a ray on a sphere: none where the discriminant is
/// negative or not a number, else the visible root.
pub fn intersect(discriminant: Scalar, t0: Scalar, t1: Scalar) -> (r: Option<Scalar>)
    ensures
        r == hit_parameter(discriminant, t0, t1),
        discriminant@.lt(Number::zero()) ==> r is None,
{
    if has_real_roots(discriminant) {
        visible_root(t0, t1)
    } else {
        None
    }
}

/// The visible root is the nearest point of the sphere in front of the
/// ray: with ordered roots, no root that is not negative is smaller.
pub proof fn lemma_visible_root_is_nearest(t0: Scalar, t1: Scalar)
    requires
        t0@.le(t1@),
    ensures
        match visible(t0, t1) {
            Some(t) => {
                &&& Number::zero().le(t@)
                &&& Number::zero().le(t0@) ==> t@.le(t0@)
                &&& Number::zero().le(t1@) ==> t@.le(t1@)
            },
            None => t0@.lt(Number::zero()) && t1@.lt(Number::zero()),
        },
{
}

/// The coefficient `a = D . D` of the quadratic.
pub open spec fn coefficient_a(direction: Vector) -> int {
    direction.dot(direction)
}

/// The coefficient `b = 2 (D . L)` of the quadratic, `L = O - C`.
pub open spec fn coefficient_b(origin: Vector, center: Vector, direction: Vector) -> int {
    2 * direction.dot(origin.minus(center))
}

/// The coefficient `c = L . L - r^2` of the quadratic, `L = O - C`.
pub open spec fn coefficient_c(origin: Vector, center: Vector, radius: int) -> int {
    origin.minus(center).length_squared() - radius * radius
}

/// The discriminant `b^2 - 4ac` of the quadratic.
pub open spec fn discriminant_of(
    origin: Vector,
    center: Vector,
    radius: int,
    direction: Vector,
) -> int {
    let a = coefficient_a(direction);
    let b = coefficient_b(origin, center, direction);
    let c = coefficient_c(origin, center, radius);
    b * b - 4 * a * c
}

/// The quadratic `a t^2 + b t + c` at `t = p / q`, times `q^2`.
pub open spec fn quadratic(a: int, b: int, c: int, p: int, q: int) -> int {
    a * (p * p) + b * (p * q) + c * (q * q)
}

/// How far outside the sphere the point `O + (p / q) D` of the ray lies:
/// its squared distance from the centre less the squared radius, times
/// `q^2`.  Zero on the sphere, below zero inside it.
pub open spec fn clearance(
    origin: Vector,
    center: Vector,
    radius: int,
    direction: Vector,
    p: int,
    q: int,
) -> int {
    origin.minus(center).scaled(q).plus(direction.scaled(p)).length_squared() - (radius * radius)
        * (q * q)
}

/// The quadratic of a ray and a sphere is the clearance of the ray's
/// points: its roots are the parameters at which the ray is on the sphere.
pub proof fn lemma_quadratic_is_the_clearance(
    origin: Vector,
    center: Vector,
    radius: int,
    direction: Vector,
    p: int,
    q: int,
)
    ensures
        clearance(origin, center, radius, direction, p, q) == quadratic(
            coefficient_a(direction),
            coefficient_b(origin, center, direction),
            coefficient_c(origin, center, radius),
            p,
            q,
        ),
{
    let l = origin.minus(center);
    let d = direction;
    let w = l.scaled(q).plus(d.scaled(p));
    let ll = l.dot(l);
    let dl = d.dot(l);
    let dd = d.dot(d);
    // w . w == q (l . w) + p (d . w)
    lemma_dot_distributes(l.scaled(q), d.scaled(p), w);
    lemma_dot_scales(l, q, w);
    lemma_dot_scales(d, p, w);
    // l . w == q (l . l) + p (d . l)
    lemma_dot_commutes(l, w);
    lemma_dot_distributes(l.scaled(q), d.scaled(p), l);
    lemma_dot_scales(l, q, l);
    lemma_dot_scales(d, p, l);
    // d . w == q (d . l) + p (d . d)
    lemma_dot_commutes(d, w);
    lemma_dot_distributes(l.scaled(q), d.scaled(p), d);
    lemma_dot_scales(l, q, d);
    lemma_dot_scales(d, p, d);
    lemma_dot_commutes(l, d);
    assert(w.dot(w) == q * (q * ll + p * dl) + p * (q * dl + p * dd));
    lemma_square_of_a_sum(ll, dl, dd, p, q);
    assert((ll - radius * radius) * (q * q) == ll * (q * q) - (radius * radius) * (q * q))
        by (nonlinear_arith);
}

/// `q (q ll + p dl) + p (q dl + p dd) == dd p^2 + 2 dl p q + ll q^2`.
proof fn lemma_square_of_a_sum(ll: int, dl: int, dd: int, p: int, q: int)
    by (nonlinear_arith)
    ensures
        q * (q * ll + p * dl) + p * (q * dl + p * dd) == dd * (p * p) + (2 * dl) * (p * q) + ll * (
        q * q),
{
}

/// Four times `a` times the quadratic is a square less the discriminant
/// times `q^2`.
proof fn lemma_complete_the_square(a: int, b: int, c: int, p: int, q: int)
    ensures
        4 * a * quadratic(a, b, c, p, q) == (2 * a * p + b * q) * (2 * a * p + b * q) - (b * b - 4
            * a * c) * (q * q),
{
    let pp = p * p;
    let pq = p * q;
    let qq = q * q;
    let x = 2 * a * p;
    let y = b * q;
    let m1 = (a * a) * pp;
    let m2 = (a * b) * pq;
    let m3 = (b * b) * qq;
    let m4 = (a * c) * qq;
    // the square of 2ap + bq
    assert((x + y) * (x + y) == x * x + 2 * (x * y) + y * y) by (nonlinear_arith);
    assert(x * x == 4 * m1) by (nonlinear_arith)
        requires
            x == 2 * a * p,
            m1 == (a * a) * (p * p),
    ;
    assert(x * y == 2 * m2) by (nonlinear_arith)
        requires
            x == 2 * a * p,
            y == b * q,
            m2 == (a * b) * (p * q),
    ;
    assert(y * y == m3) by (nonlinear_arith)
        requires
            y == b * q,
            m3 == (b * b) * (q * q),
    ;
    // four times a times the quadratic
    let f = a * pp + b * pq + c * qq;
    assert(4 * a * f == 4 * (a * (a * pp)) + 4 * (a * (b * pq)) + 4 * (a * (c * qq)))
        by (nonlinear_arith)
        requires
            f == a * pp + b * pq + c * qq,
    ;
    assert(a * (a * pp) == m1 && a * (b * pq) == m2 && a * (c * qq) == m4) by (nonlinear_arith)
        requires
            m1 == (a * a) * pp,
            m2 == (a * b) * pq,
            m4 == (a * c) * qq,
    ;
    // the discriminant times q squared
    assert((b * b - 4 * a * c) * qq == m3 - 4 * m4) by (nonlinear_arith)
        requires
            m3 == (b * b) * qq,
            m4 == (a * c) * qq,
    ;
}

/// A ray whose line stays clear of the sphere has a negative discriminant.
pub proof fn lemma_clear_line_has_negative_discriminant(
    origin: Vector,
    center: Vector,
    radius: int,
    direction: Vector,
)
    requires
        coefficient_a(direction) > 0,
        forall|p: int, q: int|
            q != 0 ==> #[trigger] clearance(origin, center, radius, direction, p, q) > 0,
    ensures
        discriminant_of(origin, center, radius, direction) < 0,
{
    let a = coefficient_a(direction);
    let b = coefficient_b(origin, center, direction);
    let c = coefficient_c(origin, center, radius);
    // the parameter t = -b / 2a, where the ray is nearest to the centre
    let p = -b;
    let q = 2 * a;
    assert(clearance(origin, center, radius, direction, p, q) > 0);
    lemma_quadratic_is_the_clearance(origin, center, radius, direction, p, q);
    lemma_complete_the_square(a, b, c, p, q);
    let f = quadratic(a, b, c, p, q);
    let disc = b * b - 4 * a * c;
    assert(2 * a * p + b * q == 0) by (nonlinear_arith)
        requires
            p == -b,
            q == 2 * a,
    ;
    assert(4 * a * f == -(disc * (q * q)));
    assert(disc < 0) by (nonlinear_arith)
        requires
            4 * a * f == -(disc * (q * q)),
            a > 0,
            f > 0,
            q != 0,
    ;
}

/// A ray with a negative discriminant stays clear of the sphere along its
/// whole line.
pub proof fn lemma_negative_discriminant_clears_the_line(
    origin: Vector,
    center: Vector,
    radius: int,
    direction: Vector,
    p: int,
    q: int,
)
    requires
        coefficient_a(direction) > 0,
        discriminant_of(origin, center, radius, direction) < 0,
        q != 0,
    ensures
        clearance(origin, center, radius, direction, p, q) > 0,
{
    let a = coefficient_a(direction);
    let b = coefficient_b(origin, center, direction);
    let c = coefficient_c(origin, center, radius);
    lemma_quadratic_is_the_clearance(origin, center, radius, direction, p, q);
    lemma_complete_the_square(a, b, c, p, q);
    let f = quadratic(a, b, c, p, q);
    let disc = b * b - 4 * a * c;
    let s = 2 * a * p + b * q;
    assert(f > 0) by (nonlinear_arith)
        requires
            4 * a * f == s * s - disc * (q * q),
            a > 0,
            disc < 0,
            q != 0,
    ;
}

/// A ray whose line does not come within the radius of the sphere's centre
/// yields no hit: a discriminant with the sign of the exact one is refused,
/// whatever the roots.
pub proof fn lemma_clear_line_misses(
    origin: Vector,
    center: Vector,
    radius: int,
    direction: Vector,
    discriminant: Scalar,
    t0: Scalar,
    t1: Scalar,
)
    requires
        coefficient_a(direction) > 0,
        forall|p: int, q: int|
            q != 0 ==> #[trigger] clearance(origin, center, radius, direction, p, q) > 0,
        has_sign_of(discriminant@, discriminant_of(origin, center, radius, direction)),
    ensures
        hit_parameter(discriminant, t0, t1) is None,
{
    lemma_clear_line_has_negative_discriminant(origin, center, radius, direction);
}

} // verus!
