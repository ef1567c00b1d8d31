use spline1d::ieee::{MINUS_ONE_BITS, ONE_BITS, ZERO_BITS};
use spline1d::{abs, check_float, float_eq, float_gt, float_lt, is_infinite, is_nan, max_abs, min_abs, sign};

fn b(x: f64) -> u64 {
    x.to_bits()
}

fn samples() -> Vec<f64> {
    vec![
        0.0,
        -0.0,
        1.0,
        -1.0,
        0.5,
        -2.5,
        1e-310,
        -1e-310,
        f64::MIN_POSITIVE,
        f64::MAX,
        f64::MIN,
        f64::INFINITY,
        f64::NEG_INFINITY,
        f64::NAN,
        -f64::NAN,
        3.75,
        1e300,
    ]
}

#[test]
fn comparisons_match_native_floats() {
    for &x in &samples() {
        for &y in &samples() {
            assert_eq!(float_eq(b(x), b(y)), x == y, "{x} == {y}");
            assert_eq!(float_lt(b(x), b(y)), x < y, "{x} < {y}");
            assert_eq!(float_gt(b(x), b(y)), x > y, "{x} > {y}");
        }
    }
}

#[test]
fn classification_matches_native_floats() {
    for &x in &samples() {
        assert_eq!(is_nan(b(x)), x.is_nan());
        assert_eq!(is_infinite(b(x)), x.is_infinite());
        assert_eq!(check_float(b(x)), x.is_nan() || x.is_infinite());
    }
}

#[test]
fn abs_clears_the_sign() {
    for &x in &samples() {
        assert_eq!(abs(b(x)), b(x.abs()));
    }
    assert_eq!(abs(b(-3.5)), b(3.5));
    assert_eq!(abs(b(-0.0)), ZERO_BITS);
}

#[test]
fn sign_gives_one_minus_one_or_zero() {
    assert_eq!(sign(b(2.0)), ONE_BITS);
    assert_eq!(sign(b(-0.25)), MINUS_ONE_BITS);
    assert_eq!(sign(b(0.0)), ZERO_BITS);
    assert_eq!(sign(b(-0.0)), ZERO_BITS);
    assert_eq!(sign(b(f64::NAN)), ZERO_BITS);
    assert_eq!(sign(b(f64::NEG_INFINITY)), MINUS_ONE_BITS);
    assert_eq!(f64::from_bits(ONE_BITS), 1.0);
    assert_eq!(f64::from_bits(MINUS_ONE_BITS), -1.0);
}

#[test]
fn sign_is_odd() {
    for &x in &samples() {
        if !x.is_nan() {
            assert_eq!(f64::from_bits(sign(b(-x))), -f64::from_bits(sign(b(x))));
        }
    }
}

#[test]
fn min_abs_picks_smaller_magnitude() {
    assert_eq!(min_abs(b(-3.0), b(2.0)), b(2.0));
    assert_eq!(min_abs(b(-1.0), b(2.0)), b(1.0));
    assert_eq!(min_abs(b(4.0), b(-4.0)), b(4.0));
    assert_eq!(min_abs(b(f64::NAN), b(-5.0)), b(5.0));
    for &x in &samples() {
        for &y in &samples() {
            if !x.is_nan() && !y.is_nan() {
                assert_eq!(min_abs(b(x), b(y)), min_abs(b(y), b(x)));
                assert_eq!(f64::from_bits(min_abs(b(x), b(y))), x.abs().min(y.abs()));
            }
        }
    }
}

#[test]
fn max_abs_picks_larger_magnitude() {
    assert_eq!(max_abs(b(-3.0), b(2.0)), b(3.0));
    assert_eq!(max_abs(b(1.0), b(-2.0)), b(2.0));
    assert_eq!(max_abs(b(-4.0), b(4.0)), b(4.0));
    for &x in &samples() {
        for &y in &samples() {
            if !x.is_nan() && !y.is_nan() {
                assert_eq!(max_abs(b(x), b(y)), max_abs(b(y), b(x)));
                assert_eq!(f64::from_bits(max_abs(b(x), b(y))), x.abs().max(y.abs()));
                assert!(f64::from_bits(min_abs(b(x), b(y))) <= f64::from_bits(max_abs(b(x), b(y))));
            }
        }
    }
}
