use fe_o::maths::scalar::{INFINITY_BITS, ONE_BITS, SIGN_BIT, ZERO_BITS};
use fe_o::maths::{Scalar, Vector3};

fn s(x: f64) -> Scalar {
    Scalar::from_bits(x.to_bits())
}

fn f(x: Scalar) -> f64 {
    f64::from_bits(x.to_bits())
}

fn samples() -> Vec<f64> {
    vec![
        0.0,
        -0.0,
        1.0,
        -1.0,
        0.5,
        1e-3,
        -1e-3,
        5e-324,
        -5e-324,
        2.2250738585072014e-308,
        1.7976931348623157e308,
        -1.7976931348623157e308,
        f64::INFINITY,
        f64::NEG_INFINITY,
        f64::NAN,
        -f64::NAN,
        3.5,
        -3.5,
        255.0,
        1e-5,
    ]
}

#[test]
fn bits_round_trip() {
    for x in samples() {
        assert_eq!(s(x).to_bits(), x.to_bits());
        assert_eq!(Scalar::from_bits(x.to_bits()).bits, x.to_bits());
    }
}

#[test]
fn constants_are_the_ieee_patterns() {
    assert_eq!(Scalar::zero().to_bits(), 0.0f64.to_bits());
    assert_eq!(Scalar::one().to_bits(), 1.0f64.to_bits());
    assert_eq!(Scalar::infinity().to_bits(), f64::INFINITY.to_bits());
    assert_eq!(ZERO_BITS, 0);
    assert_eq!(ONE_BITS, 0x3FF0_0000_0000_0000);
    assert_eq!(INFINITY_BITS, 0x7FF0_0000_0000_0000);
    assert_eq!(SIGN_BIT, (-0.0f64).to_bits());
}

#[test]
fn classification_matches_floats() {
    for x in samples() {
        assert_eq!(s(x).is_nan(), x.is_nan());
        assert_eq!(s(x).is_sign_negative(), x.is_sign_negative());
        assert_eq!(s(x).is_finite(), x.is_finite());
    }
}

#[test]
fn key_of_known_values() {
    assert_eq!(s(0.0).key(), 0);
    assert_eq!(s(-0.0).key(), 0);
    assert_eq!(s(1.0).key(), 0x3FF0_0000_0000_0000);
    assert_eq!(s(-1.0).key(), -0x3FF0_0000_0000_0000);
    assert_eq!(s(5e-324).key(), 1);
    assert_eq!(s(-5e-324).key(), -1);
    assert_eq!(s(f64::INFINITY).key(), 0x7FF0_0000_0000_0000);
    assert_eq!(s(f64::NEG_INFINITY).key(), -0x7FF0_0000_0000_0000);
}

#[test]
fn comparisons_match_floats() {
    for a in samples() {
        for b in samples() {
            assert_eq!(s(a).lt(s(b)), a < b, "{} < {}", a, b);
            assert_eq!(s(a).le(s(b)), a <= b, "{} <= {}", a, b);
            assert_eq!(s(a).gt(s(b)), a > b, "{} > {}", a, b);
            assert_eq!(s(a).ge(s(b)), a >= b, "{} >= {}", a, b);
            assert_eq!(s(a).equals(s(b)), a == b, "{} == {}", a, b);
            assert_eq!(s(a) == s(b), a == b, "{} == {}", a, b);
        }
    }
}

#[test]
fn nan_equals_nothing_and_zeros_are_equal() {
    assert!(s(f64::NAN) != s(f64::NAN));
    assert!(s(0.0) == s(-0.0));
    assert!(!s(f64::NAN).lt(s(1.0)));
    assert!(!s(1.0).lt(s(f64::NAN)));
}

#[test]
fn min_and_max_match_floats() {
    for a in samples() {
        for b in samples() {
            let low = f(s(a).min(s(b)));
            let high = f(s(a).max(s(b)));
            if a.is_nan() && b.is_nan() {
                assert!(low.is_nan());
                assert!(high.is_nan());
            } else {
                assert!(low == a.min(b), "min({}, {})", a, b);
                assert!(high == a.max(b), "max({}, {})", a, b);
            }
        }
    }
}

#[test]
fn min_of_a_number_and_nan_is_the_number() {
    assert_eq!(s(2.0).min(s(f64::NAN)).to_bits(), 2.0f64.to_bits());
    assert_eq!(s(f64::NAN).min(s(2.0)).to_bits(), 2.0f64.to_bits());
    assert_eq!(s(2.0).max(s(f64::NAN)).to_bits(), 2.0f64.to_bits());
    assert_eq!(s(f64::NAN).max(s(2.0)).to_bits(), 2.0f64.to_bits());
}

#[test]
fn vector_index_picks_the_component() {
    let v = Vector3(s(1.3), s(5.5), s(-0.6));
    assert_eq!(f(v.index(0)), 1.3);
    assert_eq!(f(v.index(1)), 5.5);
    assert_eq!(f(v.index(2)), -0.6);
}

#[test]
fn vector_min_and_max_are_component_wise() {
    let a = Vector3(s(1.3), s(5.5), s(-0.6));
    let b = Vector3(s(0.0), s(-4.5), s(10.1));
    let low = Vector3::min(&a, &b);
    let high = Vector3::max(&a, &b);
    assert_eq!(low, Vector3(s(0.0), s(-4.5), s(-0.6)));
    assert_eq!(high, Vector3(s(1.3), s(5.5), s(10.1)));
}

#[test]
fn vector_equality_is_that_of_the_numbers() {
    let a = Vector3(s(0.0), s(1.0), s(2.0));
    let b = Vector3(s(-0.0), s(1.0), s(2.0));
    let c = Vector3(s(f64::NAN), s(1.0), s(2.0));
    assert!(a == b);
    assert!(a.equals(&b));
    assert!(c != c);
    assert!(!c.equals(&c));
    assert!(a != Vector3(s(0.0), s(1.0), s(2.5)));
}

#[test]
fn negate_and_abs_match_floats() {
    for x in samples() {
        assert_eq!(s(x).negate().to_bits(), (-x).to_bits());
        assert_eq!(s(x).abs().to_bits(), x.abs().to_bits());
    }
    assert_eq!(f(s(0.0).negate()).to_bits(), (-0.0f64).to_bits());
    assert_eq!(f(s(-3.5).abs()), 3.5);
}
