//! From radiance to a pixel: ambient floor, clamp and 8-bit channel.
//!
//! At a hit the caller evaluates the point-light law
//! `cos(theta) * power / (4 pi d^2)`.  The value is then lifted to the
//! ambient floor; where the ray hit nothing the pixel is black.  An
//! intensity may exceed one, so it is clamped to `[0, 1]` before it is
//! scaled to the 256 levels of a channel.

use crate::scalar::{
    greater_of, lemma_one_is_a_full_scale, lemma_quanta_increase, magnitude_of, quanta_of,
    Number, Scalar, FRACTION_SPAN, INFINITY_BITS, ONE_BITS, QUANTUM_EXPONENT,
};
use vstd::arithmetic::div_mod::*;
use vstd::arithmetic::power2::*;
use vstd::bits::*;
use vstd::prelude::*;

verus! {

/// The intensity of a pixel: black where nothing was hit, else the raw
/// radiance or the ambient floor, whichever is greater.  A raw radiance
/// that is not a number gives the floor.
pub open spec fn shaded(raw: Option<Scalar>, ambient_floor: Scalar) -> Scalar {
    match raw {
        None => Scalar { bits: 0 },
        Some(radiance) => greater_of(radiance, ambient_floor),
    }
}

/// A number brought into `[0, 1]`: below zero it becomes zero, above one it
/// becomes one.  What is not a number stays so.
pub open spec fn clamped(x: Number) -> Number {
    if x.lt(Number::zero()) {
        Number::zero()
    } else if Number::one().lt(x) {
        Number::one()
    } else {
        x
    }
}

/// The channel level of an intensity: the intensity is clamped to `[0, 1]`,
/// scaled by 255 and rounded down.  What is not a number is black.
pub open spec fn channel_of(intensity: Number) -> int {
    match clamped(intensity) {
        Number::Finite { quanta } => (255 * quanta) / (pow2(1074) as int),
        _ => 0,
    }
}

/// The intensity of a pixel from the raw radiance at the hit, if the ray
/// hit anything.
pub fn shade(raw: Option<Scalar>, ambient_floor: Scalar) -> (r: Scalar)
    ensures
        r == shaded(raw, ambient_floor),
        raw is None ==> r@ == Number::zero(),
        raw is Some && !(ambient_floor@ is Nan) ==> ambient_floor@.le(r@),
{
    match raw {
        None => Scalar::zero(),
        Some(radiance) => radiance.max(ambient_floor),
    }
}

/// The intensity brought into `[0, 1]`.
pub fn clamp_unit(intensity: Scalar) -> (r: Scalar)
    ensures
        r@ == clamped(intensity@),
        r == if intensity@.lt(Number::zero()) {
            Scalar { bits: 0 }
        } else if Number::one().lt(intensity@) {
            Scalar { bits: ONE_BITS }
        } else {
            intensity
        },
        Number::one().lt(intensity@) ==> r@ == Number::one(),
        !(intensity@ is Nan) ==> Number::zero().le(r@) && r@.le(Number::one()),
{
    if intensity.lt(Scalar::zero()) {
        Scalar::zero()
    } else if Scalar::one().lt(intensity) {
        Scalar::one()
    } else {
        intensity
    }
}

/// The 8-bit channel level of an intensity.  It never wraps: every
/// intensity of one or more gives 255, every intensity of zero or less
/// gives 0.
pub fn to_channel(intensity: Scalar) -> (level: u8)
    ensures
        level == channel_of(intensity@),
        Number::one().le(intensity@) ==> level == 255,
        intensity@.le(Number::zero()) ==> level == 0,
{
    proof {
        lemma_pow2_pos(1074);
        lemma_one_is_a_full_scale();
        lemma_full_scale_is_white();
    }
    if intensity.is_nan() || intensity.is_sign_negative() {
        proof {
            let m = magnitude_of(intensity.bits);
            if 0 < m < INFINITY_BITS {
                lemma_quanta_increase(0, m);
            }
        }
        return 0;
    }
    let m: u64 = intensity.to_bits();
    if m >= ONE_BITS {
        proof {
            if ONE_BITS < m < INFINITY_BITS {
                lemma_quanta_increase(ONE_BITS, m);
            }
        }
        return 255;
    }
    proof {
        lemma_quanta_increase(m, ONE_BITS);
    }
    let e: u64 = m / FRACTION_SPAN;
    let f: u64 = m % FRACTION_SPAN;
    let significand: u64 = if e == 0 {
        f
    } else {
        FRACTION_SPAN + f
    };
    let exponent: u64 = if e == 0 {
        0
    } else {
        e - 1
    };
    let shift: u64 = QUANTUM_EXPONENT - exponent;
    let product: u64 = 255 * significand;
    let ghost quanta = quanta_of(m) as int;
    let ghost unit = pow2(exponent as nat) as int;
    let ghost step = pow2(shift as nat) as int;
    proof {
        lemma2_to64();
        lemma2_to64_rest();
        lemma_pow2_pos(exponent as nat);
        lemma_pow2_pos(shift as nat);
        lemma_pow2_adds(exponent as nat, shift as nat);
        assert(quanta == significand * unit) by {
            if e == 0 {
                assert(unit == 1);
                assert(significand * unit == significand) by (nonlinear_arith)
                    requires
                        unit == 1,
                ;
            } else {
                assert((e - 1) as nat == exponent as nat);
                assert(quanta_of(m) == (FRACTION_SPAN + f) as nat * pow2((e - 1) as nat));
            }
        }
        assert(255 * quanta == unit * product) by (nonlinear_arith)
            requires
                quanta == significand * unit,
                product == 255 * significand,
        ;
        assert(pow2(1074) == unit * step);
    }
    if shift >= 64 {
        proof {
            if shift > 64 {
                lemma_pow2_strictly_increases(64, shift as nat);
            }
            assert(unit * product < unit * step) by (nonlinear_arith)
                requires
                    product < step,
                    unit > 0,
            ;
            lemma_basic_div(255 * quanta, pow2(1074) as int);
        }
        0
    } else {
        let q: u64 = product >> shift;
        proof {
            lemma_u64_shr_is_div(product, shift);
            lemma_div_multiples_vanish_quotient(unit, product as int, step);
            assert(q == (255 * quanta) / (pow2(1074) as int));
            if shift > 53 {
                lemma_pow2_strictly_increases(53, shift as nat);
            }
            lemma_fundamental_div_mod(product as int, step);
            assert(q < 256) by (nonlinear_arith)
                requires
                    product == step * q + (product as int) % step,
                    (product as int) % step >= 0,
                    step >= 0x20000000000000,
                    product < 0x2000000000000000,
                    q >= 0,
            ;
        }
        q as u8
    }
}

/// An intensity of exactly one is the brightest level.
pub proof fn lemma_full_scale_is_white()
    ensures
        channel_of(Number::one()) == 255,
{
    lemma_pow2_pos(1074);
    let d = pow2(1074) as int;
    lemma_fundamental_div_mod_converse(255 * d, d, 255, 0);
}

/// However large the raw intensity, the channel shows exactly the level of
/// an intensity of one.
pub proof fn lemma_overbright_is_white(intensity: Number)
    requires
        Number::one().lt(intensity),
    ensures
        clamped(intensity) == Number::one(),
        channel_of(intensity) == 255,
{
    lemma_pow2_pos(1074);
    lemma_full_scale_is_white();
}

/// A lit point is never darker than the ambient floor.
pub proof fn lemma_floor_is_kept(radiance: Scalar, ambient_floor: Scalar)
    requires
        !(ambient_floor@ is Nan),
    ensures
        ambient_floor@.le(shaded(Some(radiance), ambient_floor)@),
{
}

/// Clamping an intensity first does not change its channel level.
pub proof fn lemma_channel_of_clamped(intensity: Number)
    ensures
        channel_of(clamped(intensity)) == channel_of(intensity),
{
    lemma_pow2_pos(1074);
}

/// The channel never wraps: a brighter intensity never gives a darker
/// level.
pub proof fn lemma_channel_never_wraps(darker: Number, brighter: Number)
    requires
        darker.le(brighter),
    ensures
        channel_of(darker) <= channel_of(brighter),
{
    lemma_pow2_pos(1074);
    let d = pow2(1074) as int;
    match (clamped(darker), clamped(brighter)) {
        (Number::Finite { quanta: low }, Number::Finite { quanta: high }) => {
            lemma_div_is_ordered(255 * low, 255 * high, d);
        },
        _ => {},
    }
}

/// The channel level is the intensity scaled to 255 and rounded down:
/// `level / 255 <= intensity < (level + 1) / 255` for an intensity in
/// `[0, 1]` of `quanta` quanta, one being 2^1074 quanta.
pub proof fn lemma_channel_is_floor(quanta: int)
    requires
        0 <= quanta <= pow2(1074),
    ensures
        0 <= channel_of(Number::Finite { quanta }) <= 255,
        channel_of(Number::Finite { quanta }) * pow2(1074) <= 255 * quanta,
        255 * quanta < (channel_of(Number::Finite { quanta }) + 1) * pow2(1074),
{
    lemma_pow2_pos(1074);
    let d = pow2(1074) as int;
    let x = 255 * quanta;
    lemma_fundamental_div_mod(x, d);
    lemma_mod_bound(x, d);
    let q = x / d;
    assert(q * d == d * q) by (nonlinear_arith);
    assert((q + 1) * d == d * q + d) by (nonlinear_arith);
    assert(0 <= q <= 255) by (nonlinear_arith)
        requires
            x == d * q + x % d,
            0 <= x % d < d,
            0 <= x <= 255 * d,
            d > 0,
    ;
}

} // verus!
