//! Ray/parallelogram intersection: a plane test and a bounds test.
//!
//! The patch is spanned by the edges `u` and `v` from the corner `p`, with
//! unit normal `n`.  For a ray `O + tD` the caller computes
//! `denom = D.n`, the ray parameter `t = ((p - O).n) / denom` and the
//! coordinates `(a, b)` of the plane hit in the basis `(u, v)`.  Whether
//! these make a hit is decided here.

use crate::geometry::{lemma_dot_commutes, lemma_dot_distributes, lemma_dot_scales, Vector};
use crate::scalar::{Number, Scalar};
use vstd::prelude::*;

verus! {

/// Encoding of the tolerance 1.0e-4.
pub const EPSILON_BITS: u64 = 0x3F1A_36E2_EB1C_432D;

/// The tolerance below which a ray counts as parallel to the plane, and a
/// hit as too close to the ray's origin to be told from it.
pub open spec fn epsilon() -> Number {
    (Scalar { bits: EPSILON_BITS })@
}

/// Whether both coordinates lie in the unit interval.
pub open spec fn inside(a: Number, b: Number) -> bool {
    &&& Number::zero().le(a)
    &&& a.le(Number::one())
    &&& Number::zero().le(b)
    &&& b.le(Number::one())
}

/// Whether the plane quantities make a hit: the ray is not parallel to the
/// plane (`|denom| > epsilon`), the hit lies in front of the origin
/// (`t > epsilon`) and inside the patch.
pub open spec fn accepts(denom: Number, t: Number, a: Number, b: Number) -> bool {
    &&& epsilon().lt(denom.abs())
    &&& epsilon().lt(t)
    &&& inside(a, b)
}

/// The tolerance, 1.0e-4.
pub fn tolerance() -> (e: Scalar)
    ensures
        e.bits == EPSILON_BITS,
        e@ == epsilon(),
{
    Scalar::from_bits(EPSILON_BITS)
}

/// Whether a ray with `denom = D.n` crosses the plane: `|denom| > epsilon`.
pub fn crosses_plane(denom: Scalar) -> (r: bool)
    ensures
        r == epsilon().lt(denom@.abs()),
{
    tolerance().lt(denom.abs())
}

/// Whether a hit at ray parameter `t` lies in front of the ray's origin,
/// clear of it by more than the tolerance: `t > epsilon`.
pub fn in_front(t: Scalar) -> (r: bool)
    ensures
        r == epsilon().lt(t@),
{
    tolerance().lt(t)
}

/// Whether a point of the plane with coordinates `(a, b)` in the basis of
/// the two edges lies on the patch: both are in `[0, 1]`.
pub fn check_bounds(a: Scalar, b: Scalar) -> (r: bool)
    ensures
        r == inside(a@, b@),
{
    let zero: Scalar = Scalar::zero();
    let one: Scalar = Scalar::one();
    zero.le(a) && a.le(one) && zero.le(b) && b.le(one)
}

/// The ray parameter of the hit, if the plane quantities make one:
/// `Some(t)` exactly when they are accepted.
pub fn intersect(denom: Scalar, t: Scalar, a: Scalar, b: Scalar) -> (r: Option<Scalar>)
    ensures
        r == if accepts(denom@, t@, a@, b@) {
            Some(t)
        } else {
            None::<Scalar>
        },
{
    if crosses_plane(denom) && in_front(t) && check_bounds(a, b) {
        Some(t)
    } else {
        None
    }
}

/// The denominator of the plane test: `D . n`.
pub open spec fn denominator(direction: Vector, normal: Vector) -> int {
    direction.dot(normal)
}

/// The numerator of the ray parameter: `(p - O) . n`.
pub open spec fn t_numerator(origin: Vector, corner: Vector, normal: Vector) -> int {
    corner.minus(origin).dot(normal)
}

/// The point of the ray at `t = t_numerator / denominator` lies in the
/// plane of the patch: its offset from the corner is at a right angle to
/// the normal.  Here multiplied through by the denominator.
pub proof fn lemma_hit_lies_in_the_plane(
    origin: Vector,
    direction: Vector,
    corner: Vector,
    normal: Vector,
)
    ensures
        ({
            let d = denominator(direction, normal);
            let k = t_numerator(origin, corner, normal);
            origin.scaled(d).plus(direction.scaled(k)).minus(corner.scaled(d)).dot(normal) == 0
        }),
{
    let d = denominator(direction, normal);
    let k = t_numerator(origin, corner, normal);
    let on = origin.dot(normal);
    let cn = corner.dot(normal);
    let hit = origin.scaled(d).plus(direction.scaled(k));
    lemma_dot_distributes(hit, corner.scaled(d), normal);
    lemma_dot_distributes(origin.scaled(d), direction.scaled(k), normal);
    lemma_dot_scales(origin, d, normal);
    lemma_dot_scales(direction, k, normal);
    lemma_dot_scales(corner, d, normal);
    lemma_dot_distributes(corner, origin, normal);
    assert(d * on + k * d - d * cn == 0) by (nonlinear_arith)
        requires
            k == cn - on,
    ;
}

/// For a patch with edges at a right angle, the coordinates found by dot
/// products are the coordinates in the basis of the edges: where the
/// offset of a point from the corner is `(alpha / den) u + (beta / den) v`,
/// its dot product with `u` over `u . u` is `alpha / den`, and likewise for
/// `v`.
pub proof fn lemma_dot_products_give_coordinates(
    offset: Vector,
    u: Vector,
    v: Vector,
    alpha: int,
    beta: int,
    den: int,
)
    requires
        u.dot(v) == 0,
        offset.scaled(den) == u.scaled(alpha).plus(v.scaled(beta)),
    ensures
        den * offset.dot(u) == alpha * u.dot(u),
        den * offset.dot(v) == beta * v.dot(v),
{
    lemma_dot_scales(offset, den, u);
    lemma_dot_scales(offset, den, v);
    lemma_dot_distributes(u.scaled(alpha), v.scaled(beta), u);
    lemma_dot_distributes(u.scaled(alpha), v.scaled(beta), v);
    lemma_dot_scales(u, alpha, u);
    lemma_dot_scales(v, beta, u);
    lemma_dot_scales(u, alpha, v);
    lemma_dot_scales(v, beta, v);
    lemma_dot_commutes(u, v);
    assert(beta * 0 == 0 && alpha * 0 == 0);
}

} // verus!
