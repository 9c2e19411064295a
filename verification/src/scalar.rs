//! Binary64 numbers, held by their IEEE-754 encoding.
//!
//! A [`Scalar`] is the 64-bit pattern of a double: one sign bit, eleven
//! exponent bits and fifty-two fraction bits.  Its view is a [`Number`]:
//! not-a-number, an infinity, or a finite value counted in *quanta* of
//! 2^-1074, the smallest positive double.  Every finite double is a whole
//! number of quanta, so comparisons and floors of doubles are exact integer
//! questions.

use vstd::arithmetic::power2::*;
use vstd::prelude::*;

verus! {

/// Encoding of 1.0.
pub const ONE_BITS: u64 = 0x3FF0_0000_0000_0000;

/// The bit that holds the sign.
pub const SIGN_BIT: u64 = 0x8000_0000_0000_0000;

/// Magnitude of the two infinities; larger magnitudes are not numbers.
pub const INFINITY_BITS: u64 = 0x7FF0_0000_0000_0000;

/// Number of fractions in one binade, 2^52.
pub const FRACTION_SPAN: u64 = 0x0010_0000_0000_0000;

/// Exponent of the quantum: one quantum is 2^-1074.
pub const QUANTUM_EXPONENT: u64 = 1074;

/// What a binary64 encoding stands for.
pub enum Number {
    /// Not a number.
    Nan,
    /// Negative infinity.
    NegInfinity,
    /// A finite value, `quanta * 2^-1074`.
    Finite { quanta: int },
    /// Positive infinity.
    PosInfinity,
}

impl Number {
    /// Numeric `<`: false whenever either side is not a number.
    pub open spec fn lt(self, other: Number) -> bool {
        match (self, other) {
            (Number::Nan, _) => false,
            (_, Number::Nan) => false,
            (_, Number::NegInfinity) => false,
            (Number::NegInfinity, _) => true,
            (Number::PosInfinity, _) => false,
            (_, Number::PosInfinity) => true,
            (Number::Finite { quanta: a }, Number::Finite { quanta: b }) => a < b,
        }
    }

    /// Numeric `==`: false whenever either side is not a number.
    pub open spec fn same(self, other: Number) -> bool {
        !(self is Nan) && self == other
    }

    /// Numeric `<=`.
    pub open spec fn le(self, other: Number) -> bool {
        self.lt(other) || self.same(other)
    }

    /// The absolute value; not-a-number stays so.
    pub open spec fn abs(self) -> Number {
        match self {
            Number::Nan => Number::Nan,
            Number::NegInfinity => Number::PosInfinity,
            Number::PosInfinity => Number::PosInfinity,
            Number::Finite { quanta } => Number::Finite { quanta: if quanta < 0 { -quanta } else { quanta } },
        }
    }

    /// Whether this is a finite number.
    pub open spec fn is_finite(self) -> bool {
        self is Finite
    }

    /// The number zero.
    pub open spec fn zero() -> Number {
        Number::Finite { quanta: 0 }
    }

    /// The number one, which is 2^1074 quanta.
    pub open spec fn one() -> Number {
        Number::Finite { quanta: pow2(1074) as int }
    }
}

/// The encoding without its sign bit.
pub open spec fn magnitude_of(bits: u64) -> u64 {
    if bits >= SIGN_BIT {
        (bits - SIGN_BIT) as u64
    } else {
        bits
    }
}

/// Quanta in the absolute value that a finite magnitude encodes.
///
/// With biased exponent `e` and fraction `f`: a subnormal (`e == 0`) is `f`
/// quanta, a normal number is `(2^52 + f) * 2^(e - 1)` quanta.
pub open spec fn quanta_of(magnitude: u64) -> nat {
    let e = magnitude / FRACTION_SPAN;
    let f = magnitude % FRACTION_SPAN;
    if e == 0 {
        f as nat
    } else {
        (FRACTION_SPAN + f) as nat * pow2((e - 1) as nat)
    }
}

/// The encoding read as a signed integer of sign and magnitude.  Both zeros
/// have rank zero.
pub open spec fn rank_of(bits: u64) -> int {
    if bits >= SIGN_BIT {
        -(magnitude_of(bits) as int)
    } else {
        bits as int
    }
}

/// A binary64 number in its IEEE-754 encoding.
#[derive(Clone, Copy, Debug, PartialEq, Eq, Structural)]
pub struct Scalar {
    pub bits: u64,
}

impl View for Scalar {
    type V = Number;

    open spec fn view(&self) -> Number {
        let m = magnitude_of(self.bits);
        if m > INFINITY_BITS {
            Number::Nan
        } else if m == INFINITY_BITS {
            if self.bits >= SIGN_BIT {
                Number::NegInfinity
            } else {
                Number::PosInfinity
            }
        } else if self.bits >= SIGN_BIT {
            Number::Finite { quanta: -(quanta_of(m) as int) }
        } else {
            Number::Finite { quanta: quanta_of(m) as int }
        }
    }
}

/// The greater of two scalars.  Where one is not a number the other is
/// taken; of two equal numbers, the first.
pub open spec fn greater_of(a: Scalar, b: Scalar) -> Scalar {
    if a@ is Nan {
        b
    } else if b@ is Nan {
        a
    } else if a@.lt(b@) {
        b
    } else {
        a
    }
}

/// Larger finite magnitudes encode larger absolute values.
pub proof fn lemma_quanta_increase(small: u64, large: u64)
    requires
        small < large,
        large < INFINITY_BITS,
    ensures
        quanta_of(small) < quanta_of(large),
{
    let e1 = small / FRACTION_SPAN;
    let f1 = small % FRACTION_SPAN;
    let e2 = large / FRACTION_SPAN;
    let f2 = large % FRACTION_SPAN;
    let span = FRACTION_SPAN as int;
    assert(e1 <= e2);
    if e1 == e2 {
        assert(f1 < f2);
        if e1 != 0 {
            let p = pow2((e1 - 1) as nat) as int;
            lemma_pow2_pos((e1 - 1) as nat);
            assert((span + f1) * p < (span + f2) * p) by (nonlinear_arith)
                requires
                    f1 < f2,
                    p > 0,
            ;
        }
    } else {
        let p2 = pow2((e2 - 1) as nat) as int;
        lemma_pow2_pos((e2 - 1) as nat);
        assert(span * p2 <= (span + f2) * p2) by (nonlinear_arith)
            requires
                f2 >= 0,
                p2 > 0,
        ;
        if e1 == 0 {
            assert(span * 1 <= span * p2) by (nonlinear_arith)
                requires
                    p2 >= 1,
                    span > 0,
            ;
        } else {
            let p1 = pow2((e1 - 1) as nat) as int;
            lemma_pow2_pos((e1 - 1) as nat);
            lemma_pow2_unfold(e1 as nat);
            if e1 < e2 - 1 {
                lemma_pow2_strictly_increases(e1 as nat, (e2 - 1) as nat);
            }
            assert(pow2(e1 as nat) <= p2);
            assert((span + f1) * p1 < span * (2 * p1)) by (nonlinear_arith)
                requires
                    f1 < span,
                    p1 > 0,
            ;
            assert(span * (2 * p1) <= span * p2) by (nonlinear_arith)
                requires
                    2 * p1 <= p2,
                    span > 0,
            ;
        }
    }
}

/// Numbers are ordered as the ranks of their encodings: comparing two
/// doubles is comparing two integers.
pub proof fn lemma_numbers_compare_as_ranks(a: Scalar, b: Scalar)
    requires
        !(a@ is Nan),
        !(b@ is Nan),
    ensures
        a@.lt(b@) <==> rank_of(a.bits) < rank_of(b.bits),
        a@.same(b@) <==> rank_of(a.bits) == rank_of(b.bits),
        a@.le(b@) <==> rank_of(a.bits) <= rank_of(b.bits),
{
    let m = magnitude_of(a.bits);
    let n = magnitude_of(b.bits);
    if m < n && n < INFINITY_BITS {
        lemma_quanta_increase(m, n);
    }
    if n < m && m < INFINITY_BITS {
        lemma_quanta_increase(n, m);
    }
    if 0 < m && m < INFINITY_BITS {
        lemma_quanta_increase(0, m);
    }
    if 0 < n && n < INFINITY_BITS {
        lemma_quanta_increase(0, n);
    }
}

impl Scalar {
    /// The scalar with the given encoding.
    pub fn from_bits(bits: u64) -> (s: Scalar)
        ensures
            s.bits == bits,
    {
        Scalar { bits }
    }

    /// The encoding of this scalar.
    pub fn to_bits(self) -> (bits: u64)
        ensures
            bits == self.bits,
    {
        self.bits
    }

    /// The encoding without its sign bit.
    pub fn magnitude(self) -> (m: u64)
        ensures
            m == magnitude_of(self.bits),
    {
        if self.bits >= SIGN_BIT {
            self.bits - SIGN_BIT
        } else {
            self.bits
        }
    }

    /// Whether the sign bit is set.
    pub fn is_sign_negative(self) -> (r: bool)
        ensures
            r == (self.bits >= SIGN_BIT),
    {
        self.bits >= SIGN_BIT
    }

    /// Whether this is not a number.
    pub fn is_nan(self) -> (r: bool)
        ensures
            r == (self@ is Nan),
    {
        self.magnitude() > INFINITY_BITS
    }

    /// Numeric `<`, as the hardware compares doubles.
    pub fn lt(self, other: Scalar) -> (r: bool)
        ensures
            r == self@.lt(other@),
    {
        if self.is_nan() || other.is_nan() {
            return false;
        }
        let a: u64 = self.magnitude();
        let b: u64 = other.magnitude();
        proof {
            lemma_numbers_compare_as_ranks(self, other);
        }
        if self.is_sign_negative() {
            if other.is_sign_negative() {
                b < a
            } else {
                a != 0 || b != 0
            }
        } else {
            if other.is_sign_negative() {
                false
            } else {
                a < b
            }
        }
    }

    /// Numeric `<=`, as the hardware compares doubles.
    pub fn le(self, other: Scalar) -> (r: bool)
        ensures
            r == self@.le(other@),
    {
        if self.is_nan() || other.is_nan() {
            false
        } else {
            !other.lt(self)
        }
    }

    /// Whether this is neither an infinity nor not-a-number.
    pub fn is_finite(self) -> (r: bool)
        ensures
            r == self@.is_finite(),
    {
        self.magnitude() < INFINITY_BITS
    }

    /// The absolute value: the same encoding with the sign bit cleared.
    pub fn abs(self) -> (r: Scalar)
        ensures
            r.bits == magnitude_of(self.bits),
            r@ == self@.abs(),
    {
        Scalar { bits: self.magnitude() }
    }

    /// The greater of two numbers.  Where one side is not a number the other
    /// side is returned; of two equal numbers, `self`.
    pub fn max(self, other: Scalar) -> (r: Scalar)
        ensures
            r == greater_of(self, other),
            r == self || r == other,
            !(self@ is Nan) ==> !r@.lt(self@),
            !(other@ is Nan) ==> !r@.lt(other@),
    {
        if self.is_nan() {
            other
        } else if other.is_nan() {
            self
        } else if self.lt(other) {
            other
        } else {
            self
        }
    }

    /// Positive zero.
    pub fn zero() -> (r: Scalar)
        ensures
            r.bits == 0,
            r@ == Number::zero(),
    {
        Scalar { bits: 0 }
    }

    /// The number one.
    pub fn one() -> (r: Scalar)
        ensures
            r.bits == ONE_BITS,
            r@ == Number::one(),
    {
        proof {
            lemma_one_is_a_full_scale();
        }
        Scalar { bits: ONE_BITS }
    }
}

/// The encoding of 1.0 stands for 2^1074 quanta.
pub proof fn lemma_one_is_a_full_scale()
    ensures
        quanta_of(ONE_BITS) == pow2(1074),
{
    lemma2_to64_rest();
    lemma_pow2_adds(52, 1022);
    assert(ONE_BITS / FRACTION_SPAN == 1023);
    assert(ONE_BITS % FRACTION_SPAN == 0);
}

} // verus!
