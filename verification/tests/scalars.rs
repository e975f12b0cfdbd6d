use path_tracer::scalar::{Scalar, INFINITY, NEAR_ZERO, ONE, PI, TWO, ZERO};

fn s(x: f64) -> Scalar {
    Scalar::from_bits(x.to_bits())
}

fn f(x: Scalar) -> f64 {
    f64::from_bits(x.to_bits())
}

const SAMPLES: [f64; 17] = [
    0.0,
    -0.0,
    1.0,
    -1.0,
    0.5,
    -0.5,
    1e-300,
    -1e-300,
    5e-324,
    -5e-324,
    1e300,
    -1e300,
    f64::INFINITY,
    f64::NEG_INFINITY,
    f64::NAN,
    3.25,
    -7.75,
];

#[test]
fn constants_are_the_bit_patterns_of_their_values() {
    assert_eq!(ZERO, 0.0f64.to_bits());
    assert_eq!(ONE, 1.0f64.to_bits());
    assert_eq!(TWO, 2.0f64.to_bits());
    assert_eq!(PI, std::f64::consts::PI.to_bits());
    assert_eq!(INFINITY, f64::INFINITY.to_bits());
    assert_eq!(NEAR_ZERO, 1e-8f64.to_bits());
    assert_eq!(path_tracer::scalar::HALF, 0.5f64.to_bits());
    assert_eq!(path_tracer::scalar::QUARTER, 0.25f64.to_bits());
    assert_eq!(path_tracer::scalar::SEVEN_TENTHS, 0.7f64.to_bits());
    assert_eq!(path_tracer::scalar::SHADOW_EPSILON, 0.001f64.to_bits());
    assert_eq!(path_tracer::scalar::RECT_PADDING, 0.0001f64.to_bits());
    assert_eq!(path_tracer::scalar::BRIGHTEST, 0.999f64.to_bits());
    assert_eq!(path_tracer::scalar::LEVELS, 256.0f64.to_bits());
    assert_eq!(
        path_tracer::scalar::RADIANS_PER_DEGREE,
        (std::f64::consts::PI / 180.0).to_bits()
    );
    assert_eq!(path_tracer::scalar::SIGN, (-0.0f64).to_bits());
}

#[test]
fn comparisons_agree_with_the_machine() {
    for &a in SAMPLES.iter() {
        for &b in SAMPLES.iter() {
            assert_eq!(s(a).lt(s(b)), a < b, "{a} < {b}");
            assert_eq!(s(a).le(s(b)), a <= b, "{a} <= {b}");
            assert_eq!(s(a).gt(s(b)), a > b, "{a} > {b}");
            assert_eq!(s(a).ge(s(b)), a >= b, "{a} >= {b}");
        }
    }
}

#[test]
fn sign_operations_agree_with_the_machine() {
    for &a in SAMPLES.iter() {
        assert_eq!(s(a).neg().to_bits(), (-a).to_bits());
        assert_eq!(s(a).abs().to_bits(), a.abs().to_bits());
        assert_eq!(s(a).is_nan(), a.is_nan());
        assert_eq!(s(a).is_finite(), a.is_finite());
        assert_eq!(s(a).is_negative(), a.is_sign_negative());
    }
}

#[test]
fn min_and_max_ignore_what_is_not_a_number() {
    for &a in SAMPLES.iter() {
        for &b in SAMPLES.iter() {
            let lo = f(s(a).min(s(b)));
            let hi = f(s(a).max(s(b)));
            if a.is_nan() && b.is_nan() {
                assert!(lo.is_nan() && hi.is_nan());
            } else {
                assert_eq!(lo, a.min(b), "min({a}, {b})");
                assert_eq!(hi, a.max(b), "max({a}, {b})");
            }
        }
    }
}

#[test]
fn of_the_two_zeros_the_negative_is_the_smaller() {
    assert_eq!(s(0.0).min(s(-0.0)).to_bits(), (-0.0f64).to_bits());
    assert_eq!(s(-0.0).min(s(0.0)).to_bits(), (-0.0f64).to_bits());
    assert_eq!(s(0.0).max(s(-0.0)).to_bits(), 0.0f64.to_bits());
    assert_eq!(s(-0.0).max(s(0.0)).to_bits(), 0.0f64.to_bits());
}

#[test]
fn min_and_max_are_commutative_and_associative_among_numbers() {
    for &a in SAMPLES.iter() {
        for &b in SAMPLES.iter() {
            for &c in SAMPLES.iter() {
                if a.is_nan() || b.is_nan() || c.is_nan() {
                    continue;
                }
                let (a, b, c) = (s(a), s(b), s(c));
                assert_eq!(a.min(b), b.min(a));
                assert_eq!(a.max(b), b.max(a));
                assert_eq!(a.min(b.min(c)), a.min(b).min(c));
                assert_eq!(a.max(b.max(c)), a.max(b).max(c));
            }
        }
    }
}

#[test]
fn clamp_holds_a_value_between_its_bounds() {
    assert_eq!(s(0.5).clamp(s(0.0), s(0.999)), s(0.5));
    assert_eq!(s(-3.0).clamp(s(0.0), s(0.999)), s(0.0));
    assert_eq!(s(7.0).clamp(s(0.0), s(0.999)), s(0.999));
    assert_eq!(s(0.999).clamp(s(0.0), s(0.999)), s(0.999));
    assert!(s(f64::NAN).clamp(s(0.0), s(0.999)).is_nan());
}

#[test]
fn within_takes_finite_numbers_of_the_window_only() {
    assert!(s(1.0).within(s(0.001), s(f64::INFINITY)));
    assert!(s(0.001).within(s(0.001), s(f64::INFINITY)));
    assert!(s(2.0).within(s(0.0), s(2.0)));
    assert!(!s(0.0005).within(s(0.001), s(f64::INFINITY)));
    assert!(!s(2.5).within(s(0.0), s(2.0)));
    assert!(!s(f64::INFINITY).within(s(0.001), s(f64::INFINITY)));
    assert!(!s(f64::NAN).within(s(0.001), s(f64::INFINITY)));
    assert!(!s(1.0).within(s(f64::NAN), s(2.0)));
}
