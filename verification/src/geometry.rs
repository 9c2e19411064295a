//! Exact vector algebra, for stating what the intersection tests mean.
//!
//! The renderer computes in doubles, which round.  What its formulas are
//! *meant* to compute is stated here over vectors with whole-number
//! coordinates, in whatever unit makes the scene's coordinates whole.  A
//! ray parameter `t` is a fraction `p / q`; equations in `t` are written
//! multiplied through by the denominators, so that everything stays whole.

use crate::scalar::Number;
use vstd::prelude::*;

verus! {

/// A point or a direction of space with whole-number coordinates.
pub struct Vector {
    pub x: int,
    pub y: int,
    pub z: int,
}

impl Vector {
    /// The sum of two vectors.
    pub open spec fn plus(self, other: Vector) -> Vector {
        Vector { x: self.x + other.x, y: self.y + other.y, z: self.z + other.z }
    }

    /// The difference of two vectors.
    pub open spec fn minus(self, other: Vector) -> Vector {
        Vector { x: self.x - other.x, y: self.y - other.y, z: self.z - other.z }
    }

    /// The vector stretched by `k`.
    pub open spec fn scaled(self, k: int) -> Vector {
        Vector { x: self.x * k, y: self.y * k, z: self.z * k }
    }

    /// The dot product.
    pub open spec fn dot(self, other: Vector) -> int {
        self.x * other.x + self.y * other.y + self.z * other.z
    }

    /// The cross product.
    pub open spec fn cross(self, other: Vector) -> Vector {
        Vector {
            x: self.y * other.z - self.z * other.y,
            y: self.z * other.x - self.x * other.z,
            z: self.x * other.y - self.y * other.x,
        }
    }

    /// The squared length.
    pub open spec fn length_squared(self) -> int {
        self.dot(self)
    }
}

/// Whether a number has the sign of an exact value: it is finite, zero
/// exactly when the value is zero and above zero exactly when the value is.
///
/// This is what links a double to the exact quantity it was computed for.
/// It holds of a double whose rounding errors are smaller than the exact
/// value; it can fail where the exact value is zero or nearly so, since a
/// rounded sum of products need not cancel where the exact one does.
pub open spec fn has_sign_of(number: Number, exact: int) -> bool {
    match number {
        Number::Finite { quanta } => (quanta == 0 <==> exact == 0) && (quanta > 0 <==> exact > 0),
        _ => false,
    }
}

/// `(p q - r s) k == p (q k) - r (s k)`.
proof fn lemma_expand_difference_times(p: int, q: int, r: int, s: int, k: int)
    by (nonlinear_arith)
    ensures
        (p * q - r * s) * k == p * (q * k) - r * (s * k),
{
}

/// `k (p q - r s) == k (p q) - k (r s)`.
proof fn lemma_expand_times_difference(k: int, p: int, q: int, r: int, s: int)
    by (nonlinear_arith)
    ensures
        k * (p * q - r * s) == k * (p * q) - k * (r * s),
{
}

/// The scalar triple product does not change when its factors rotate:
/// `(a x b) . c == a . (b x c)`.
pub proof fn lemma_triple_product_rotates(a: Vector, b: Vector, c: Vector)
    ensures
        a.cross(b).dot(c) == a.dot(b.cross(c)),
{
    lemma_expand_difference_times(a.y, b.z, a.z, b.y, c.x);
    lemma_expand_difference_times(a.z, b.x, a.x, b.z, c.y);
    lemma_expand_difference_times(a.x, b.y, a.y, b.x, c.z);
    lemma_expand_times_difference(a.x, b.y, c.z, b.z, c.y);
    lemma_expand_times_difference(a.y, b.z, c.x, b.x, c.z);
    lemma_expand_times_difference(a.z, b.x, c.y, b.y, c.x);
}

/// The dot product does not depend on the order of its factors.
pub proof fn lemma_dot_commutes(u: Vector, v: Vector)
    ensures
        u.dot(v) == v.dot(u),
{
    assert(u.x * v.x == v.x * u.x && u.y * v.y == v.y * u.y && u.z * v.z == v.z * u.z)
        by (nonlinear_arith);
}

/// The dot product of a sum or a difference is the sum or the difference
/// of the dot products.
pub proof fn lemma_dot_distributes(u: Vector, v: Vector, w: Vector)
    ensures
        u.plus(v).dot(w) == u.dot(w) + v.dot(w),
        u.minus(v).dot(w) == u.dot(w) - v.dot(w),
{
    assert((u.x + v.x) * w.x == u.x * w.x + v.x * w.x && (u.x - v.x) * w.x == u.x * w.x - v.x
        * w.x) by (nonlinear_arith);
    assert((u.y + v.y) * w.y == u.y * w.y + v.y * w.y && (u.y - v.y) * w.y == u.y * w.y - v.y
        * w.y) by (nonlinear_arith);
    assert((u.z + v.z) * w.z == u.z * w.z + v.z * w.z && (u.z - v.z) * w.z == u.z * w.z - v.z
        * w.z) by (nonlinear_arith);
}

/// A factor of a vector is a factor of its dot product.
pub proof fn lemma_dot_scales(u: Vector, k: int, v: Vector)
    ensures
        u.scaled(k).dot(v) == k * u.dot(v),
{
    let (a, b, c) = (u.x * v.x, u.y * v.y, u.z * v.z);
    assert((u.x * k) * v.x == k * a && (u.y * k) * v.y == k * b && (u.z * k) * v.z == k * c)
        by (nonlinear_arith)
        requires
            a == u.x * v.x,
            b == u.y * v.y,
            c == u.z * v.z,
    ;
    assert(k * (a + b + c) == k * a + k * b + k * c) by (nonlinear_arith);
}

/// `k (a + b + c) == k a + k b + k c`.
proof fn lemma_expand_times_sum(k: int, a: int, b: int, c: int)
    by (nonlinear_arith)
    ensures
        k * (a + b + c) == k * a + k * b + k * c,
{
}

/// `a (b c) == b (a c)`.
proof fn lemma_swap_outer_factors(a: int, b: int, c: int)
    by (nonlinear_arith)
    ensures
        a * (b * c) == b * (a * c),
{
}

/// `a (b c) == c (b a)`.
proof fn lemma_swap_end_factors(a: int, b: int, c: int)
    by (nonlinear_arith)
    ensures
        a * (b * c) == c * (b * a),
{
}

/// One coordinate of the triple-product expansion below, the other two
/// follow by renaming the axes.
proof fn lemma_triple_expansion_coordinate(
    x1: int,
    x2: int,
    x3: int,
    y1: int,
    y2: int,
    y3: int,
    z1: int,
    z2: int,
    z3: int,
)
    ensures
        x2 * (y1 * z2 - y2 * z1) - x3 * (y3 * z1 - y1 * z3) == y1 * (x1 * z1 + x2 * z2 + x3 * z3)
            - z1 * (x1 * y1 + x2 * y2 + x3 * y3),
{
    lemma_expand_times_difference(x2, y1, z2, y2, z1);
    lemma_expand_times_difference(x3, y3, z1, y1, z3);
    lemma_expand_times_sum(y1, x1 * z1, x2 * z2, x3 * z3);
    lemma_expand_times_sum(z1, x1 * y1, x2 * y2, x3 * y3);
    lemma_swap_outer_factors(x2, y1, z2);
    lemma_swap_outer_factors(x3, y1, z3);
    lemma_swap_end_factors(x2, y2, z1);
    lemma_swap_end_factors(x3, y3, z1);
    lemma_swap_end_factors(y1, x1, z1);
}

/// The vector triple product expands into two stretched vectors:
/// `x x (y x z) == (x . z) y - (x . y) z`.
pub proof fn lemma_triple_product_expands(x: Vector, y: Vector, z: Vector)
    ensures
        x.cross(y.cross(z)) == y.scaled(x.dot(z)).minus(z.scaled(x.dot(y))),
{
    lemma_triple_expansion_coordinate(x.x, x.y, x.z, y.x, y.y, y.z, z.x, z.y, z.z);
    lemma_triple_expansion_coordinate(x.y, x.z, x.x, y.y, y.z, y.x, z.y, z.z, z.x);
    lemma_triple_expansion_coordinate(x.z, x.x, x.y, y.z, y.x, y.y, z.z, z.x, z.y);
}

/// Swapping the factors of a cross product turns the product round.
pub proof fn lemma_cross_anticommutes(u: Vector, v: Vector)
    ensures
        u.cross(v).plus(v.cross(u)) == (Vector { x: 0, y: 0, z: 0 }),
{
    assert(u.y * v.z == v.z * u.y && u.z * v.y == v.y * u.z && u.z * v.x == v.x * u.z && u.x
        * v.z == v.z * u.x && u.x * v.y == v.y * u.x && u.y * v.x == v.x * u.y)
        by (nonlinear_arith);
}

} // verus!
