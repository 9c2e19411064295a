use raytracer::scalar::{Scalar, INFINITY_BITS, ONE_BITS, SIGN_BIT};

fn s(x: f64) -> Scalar {
    Scalar::from_bits(x.to_bits())
}

fn samples() -> Vec<f64> {
    vec![
        0.0,
        -0.0,
        f64::MIN_POSITIVE,
        -f64::MIN_POSITIVE,
        f64::from_bits(1),
        -f64::from_bits(1),
        f64::from_bits(0x000F_FFFF_FFFF_FFFF),
        1.0e-4,
        -1.0e-4,
        0.5,
        0.999_999_999_999_999_9,
        1.0,
        -1.0,
        1.000_000_000_000_000_2,
        2.5,
        std::f64::consts::PI,
        -std::f64::consts::PI,
        1.0e300,
        -1.0e300,
        f64::MAX,
        f64::MIN,
        f64::INFINITY,
        f64::NEG_INFINITY,
        f64::NAN,
        -f64::NAN,
    ]
}

#[test]
fn constants_are_the_encodings_they_name() {
    assert_eq!(ONE_BITS, 1.0f64.to_bits());
    assert_eq!(INFINITY_BITS, f64::INFINITY.to_bits());
    assert_eq!(SIGN_BIT, (-0.0f64).to_bits());
    assert_eq!(Scalar::zero().to_bits(), 0.0f64.to_bits());
    assert_eq!(Scalar::one().to_bits(), 1.0f64.to_bits());
}

#[test]
fn bits_round_trip() {
    for x in samples() {
        assert_eq!(Scalar::from_bits(x.to_bits()).to_bits(), x.to_bits());
    }
    assert_eq!(Scalar::from_bits(0x4004_0000_0000_0000).to_bits(), 2.5f64.to_bits());
}

#[test]
fn less_than_agrees_with_the_hardware() {
    for a in samples() {
        for b in samples() {
            assert_eq!(s(a).lt(s(b)), a < b, "{:?} < {:?}", a, b);
        }
    }
}

#[test]
fn less_or_equal_agrees_with_the_hardware() {
    for a in samples() {
        for b in samples() {
            assert_eq!(s(a).le(s(b)), a <= b, "{:?} <= {:?}", a, b);
        }
    }
}

#[test]
fn zeros_of_either_sign_are_equal() {
    assert!(!s(-0.0).lt(s(0.0)));
    assert!(!s(0.0).lt(s(-0.0)));
    assert!(s(-0.0).le(s(0.0)));
    assert!(s(0.0).le(s(-0.0)));
}

#[test]
fn nan_compares_false_with_everything() {
    for a in samples() {
        assert!(!s(f64::NAN).lt(s(a)));
        assert!(!s(a).lt(s(f64::NAN)));
        assert!(!s(f64::NAN).le(s(a)));
        assert!(!s(a).le(s(f64::NAN)));
    }
}

#[test]
fn classification_agrees_with_the_hardware() {
    for a in samples() {
        assert_eq!(s(a).is_nan(), a.is_nan(), "{:?}", a);
        assert_eq!(s(a).is_finite(), a.is_finite(), "{:?}", a);
        assert_eq!(s(a).is_sign_negative(), a.is_sign_negative(), "{:?}", a);
    }
}

#[test]
fn abs_clears_the_sign() {
    for a in samples() {
        assert_eq!(s(a).abs().to_bits(), a.abs().to_bits(), "{:?}", a);
        assert_eq!(s(a).magnitude(), a.abs().to_bits(), "{:?}", a);
    }
    assert_eq!(s(-2.5).abs(), s(2.5));
}

#[test]
fn max_picks_the_greater_number() {
    assert_eq!(s(1.0).max(s(2.5)), s(2.5));
    assert_eq!(s(2.5).max(s(1.0)), s(2.5));
    assert_eq!(s(-1.0).max(s(-2.5)), s(-1.0));
    assert_eq!(s(f64::NEG_INFINITY).max(s(-1.0e300)), s(-1.0e300));
    assert_eq!(s(0.03).max(s(0.03)), s(0.03));
}

#[test]
fn max_skips_what_is_not_a_number() {
    assert_eq!(s(f64::NAN).max(s(0.03)), s(0.03));
    assert_eq!(s(0.03).max(s(f64::NAN)), s(0.03));
    assert!(s(f64::NAN).max(s(f64::NAN)).is_nan());
}

#[test]
fn max_agrees_with_the_hardware_on_numbers() {
    for a in samples() {
        for b in samples() {
            if a.is_nan() || b.is_nan() || a == b {
                continue;
            }
            assert_eq!(s(a).max(s(b)).to_bits(), a.max(b).to_bits(), "{:?} {:?}", a, b);
        }
    }
}

/// A fixed sequence of well-mixed 64-bit patterns.
fn patterns(count: usize) -> Vec<u64> {
    let mut state: u64 = 0x9E37_79B9_7F4A_7C15;
    let mut out = Vec::with_capacity(count);
    for _ in 0..count {
        state ^= state << 13;
        state ^= state >> 7;
        state ^= state << 17;
        out.push(state);
    }
    out
}

#[test]
fn comparisons_agree_with_the_hardware_on_many_encodings() {
    let bits = patterns(20_000);
    for pair in bits.windows(2) {
        let (a, b) = (f64::from_bits(pair[0]), f64::from_bits(pair[1]));
        assert_eq!(s(a).lt(s(b)), a < b, "{:?} < {:?}", a, b);
        assert_eq!(s(a).le(s(b)), a <= b, "{:?} <= {:?}", a, b);
        assert_eq!(s(a).is_nan(), a.is_nan());
        assert_eq!(s(a).is_finite(), a.is_finite());
        assert_eq!(s(a).abs().to_bits(), a.abs().to_bits());
    }
}

#[test]
fn comparisons_agree_with_the_hardware_on_close_encodings() {
    for base in patterns(2_000) {
        for step in 0..4u64 {
            let (a, b) = (f64::from_bits(base), f64::from_bits(base.wrapping_add(step)));
            assert_eq!(s(a).lt(s(b)), a < b, "{:?} < {:?}", a, b);
            assert_eq!(s(b).lt(s(a)), b < a, "{:?} < {:?}", b, a);
            assert_eq!(s(a).le(s(b)), a <= b, "{:?} <= {:?}", a, b);
            let (c, d) = (a, -b);
            assert_eq!(s(c).lt(s(d)), c < d, "{:?} < {:?}", c, d);
            assert_eq!(s(d).le(s(c)), d <= c, "{:?} <= {:?}", d, c);
        }
    }
}
