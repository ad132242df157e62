use hawxide::scalar::{Scalar, INFINITE_MAGNITUDE, SIGN_MASK};
use hawxide::util::{clamp, INFINITY, NEG_INFINITY, PI};

fn s(x: f64) -> Scalar {
    Scalar::from_bits(x.to_bits())
}

fn f(x: Scalar) -> f64 {
    f64::from_bits(x.to_bits())
}

const SAMPLES: [f64; 20] = [
    0.0,
    -0.0,
    1.0,
    -1.0,
    0.5,
    -0.5,
    1e-300,
    -1e-300,
    5e-324,
    -5e-324,
    1e300,
    -1e300,
    f64::MAX,
    f64::MIN,
    f64::MIN_POSITIVE,
    f64::INFINITY,
    f64::NEG_INFINITY,
    f64::NAN,
    3.141592653589793,
    0.999,
];

fn same(a: f64, b: f64) -> bool {
    (a.is_nan() && b.is_nan()) || a == b
}

#[test]
fn order_agrees_with_hardware() {
    for &a in SAMPLES.iter() {
        for &b in SAMPLES.iter() {
            assert_eq!(s(a).lt(s(b)), a < b, "{} < {}", a, b);
            assert_eq!(s(a).le(s(b)), a <= b, "{} <= {}", a, b);
            assert_eq!(s(a).gt(s(b)), a > b, "{} > {}", a, b);
            assert_eq!(s(a).ge(s(b)), a >= b, "{} >= {}", a, b);
            assert_eq!(s(a).eq(s(b)), a == b, "{} == {}", a, b);
        }
    }
}

#[test]
fn negative_nan_orders_like_any_nan() {
    let nan = Scalar::from_bits(f64::NAN.to_bits() | SIGN_MASK);
    assert!(nan.is_nan());
    assert!(!nan.lt(s(0.0)));
    assert!(!s(0.0).lt(nan));
    assert!(!nan.eq(nan));
    assert!(!nan.le(nan));
}

#[test]
fn the_two_zeros_are_equal_but_not_the_same() {
    assert!(s(0.0).eq(s(-0.0)));
    assert!(s(0.0).le(s(-0.0)));
    assert!(s(-0.0).le(s(0.0)));
    assert!(!s(-0.0).lt(s(0.0)));
    assert_ne!(s(0.0), s(-0.0));
}

#[test]
fn is_nan_agrees_with_hardware() {
    for &a in SAMPLES.iter() {
        assert_eq!(s(a).is_nan(), a.is_nan());
        assert_eq!(s(a).is_sign_negative(), a.is_sign_negative());
    }
    assert!(!Scalar::from_bits(INFINITE_MAGNITUDE).is_nan());
    assert!(Scalar::from_bits(INFINITE_MAGNITUDE + 1).is_nan());
}

#[test]
fn neg_and_abs_agree_with_hardware() {
    for &a in SAMPLES.iter() {
        assert_eq!(s(a).neg().to_bits(), (-a).to_bits());
        assert_eq!(s(a).abs().to_bits(), a.abs().to_bits());
    }
}

#[test]
fn min_and_max_agree_with_hardware() {
    for &a in SAMPLES.iter() {
        for &b in SAMPLES.iter() {
            assert!(same(f(s(a).min(s(b))), a.min(b)), "min({}, {})", a, b);
            assert!(same(f(s(a).max(s(b))), a.max(b)), "max({}, {})", a, b);
        }
    }
}

#[test]
fn min_passes_over_a_nan() {
    assert_eq!(s(f64::NAN).min(s(3.0)), s(3.0));
    assert_eq!(s(3.0).min(s(f64::NAN)), s(3.0));
    assert_eq!(s(f64::NAN).max(s(-3.0)), s(-3.0));
    assert_eq!(s(-3.0).max(s(f64::NAN)), s(-3.0));
    assert!(s(f64::NAN).min(s(f64::NAN)).is_nan());
}

#[test]
fn min_of_equal_numbers_is_the_first() {
    assert_eq!(s(0.0).min(s(-0.0)), s(0.0));
    assert_eq!(s(-0.0).min(s(0.0)), s(-0.0));
    assert_eq!(s(0.0).max(s(-0.0)), s(0.0));
    assert_eq!(s(2.0).min(s(1.0)), s(1.0));
    assert_eq!(s(2.0).max(s(1.0)), s(2.0));
}

#[test]
fn named_numbers_have_their_patterns() {
    assert_eq!(INFINITY, f64::INFINITY.to_bits());
    assert_eq!(NEG_INFINITY, f64::NEG_INFINITY.to_bits());
    assert_eq!(PI, std::f64::consts::PI.to_bits());
    assert_eq!(SIGN_MASK, (-0.0f64).to_bits());
    assert_eq!(INFINITE_MAGNITUDE, f64::INFINITY.to_bits());
}

fn clamp_by_comparison(x: f64, min: f64, max: f64) -> f64 {
    if x < min {
        min
    } else if x > max {
        max
    } else {
        x
    }
}

#[test]
fn clamp_agrees_with_comparisons() {
    for &x in SAMPLES.iter() {
        for &(lo, hi) in [(0.0, 1.0), (-1.0, 1.0), (0.0, 0.999), (-0.0, 0.0)].iter() {
            let got = f(clamp(s(x), s(lo), s(hi)));
            let want = clamp_by_comparison(x, lo, hi);
            assert!(same(got, want), "clamp({}, {}, {})", x, lo, hi);
        }
    }
}

#[test]
fn clamp_examples() {
    assert_eq!(clamp(s(1.5), s(0.0), s(0.999)), s(0.999));
    assert_eq!(clamp(s(-0.25), s(0.0), s(0.999)), s(0.0));
    assert_eq!(clamp(s(0.25), s(0.0), s(0.999)), s(0.25));
    assert!(clamp(s(f64::NAN), s(0.0), s(1.0)).is_nan());
}

#[test]
fn order_is_transitive_on_samples() {
    for &a in SAMPLES.iter() {
        for &b in SAMPLES.iter() {
            for &c in SAMPLES.iter() {
                if s(a).le(s(b)) && s(b).le(s(c)) {
                    assert!(s(a).le(s(c)));
                }
                if s(a).lt(s(b)) && s(b).le(s(c)) {
                    assert!(s(a).lt(s(c)));
                }
            }
        }
    }
}

#[test]
fn bits_round_trip() {
    for &a in SAMPLES.iter() {
        assert_eq!(s(a).to_bits(), a.to_bits());
        assert_eq!(Scalar::from_bits(a.to_bits()).bits, a.to_bits());
    }
}
