use raytracer::math::order::{
    at_least, at_least_zero, at_most, equal_to, is_nan, is_zero, less_than, total_key,
};
use std::cmp::Ordering;

fn samples() -> Vec<f64> {
    vec![
        f64::NEG_INFINITY,
        f64::MIN,
        -7.0,
        -1.5,
        -1.0,
        -f64::MIN_POSITIVE,
        -5e-324,
        -0.0,
        0.0,
        5e-324,
        f64::MIN_POSITIVE,
        0.5,
        1.0,
        2.0,
        4.5,
        f64::MAX,
        f64::INFINITY,
        f64::NAN,
        -f64::NAN,
    ]
}

#[test]
fn less_than_agrees_with_the_numbers() {
    for a in samples() {
        for b in samples() {
            assert_eq!(less_than(a.to_bits(), b.to_bits()), a < b, "{a:?} < {b:?}");
        }
    }
}

#[test]
fn equal_to_agrees_with_the_numbers() {
    for a in samples() {
        for b in samples() {
            assert_eq!(equal_to(a.to_bits(), b.to_bits()), a == b, "{a:?} == {b:?}");
        }
    }
}

#[test]
fn at_least_zero_agrees_with_the_numbers() {
    for a in samples() {
        assert_eq!(at_least_zero(a.to_bits()), a >= 0.0, "{a:?} >= 0");
    }
}

#[test]
fn total_key_agrees_with_the_total_order() {
    for a in samples() {
        for b in samples() {
            let left = total_key(a.to_bits());
            let right = total_key(b.to_bits());
            let expected: Ordering = a.total_cmp(&b);
            assert_eq!(left.cmp(&right), expected, "{a:?} against {b:?}");
        }
    }
}

#[test]
fn total_key_of_the_zeros_and_one() {
    assert_eq!(total_key(0.0f64.to_bits()), 0);
    assert_eq!(total_key((-0.0f64).to_bits()), -1);
    assert_eq!(total_key(1.0f64.to_bits()), 0x3ff0_0000_0000_0000);
    assert_eq!(total_key((-1.0f64).to_bits()), -1 - 0x3ff0_0000_0000_0000);
    assert_eq!(total_key(u64::MAX), i64::MIN);
    assert_eq!(total_key(0x7fff_ffff_ffff_ffff), i64::MAX);
}

#[test]
fn nan_and_zero_are_told_apart() {
    for a in samples() {
        assert_eq!(is_nan(a.to_bits()), a.is_nan(), "{a:?}");
        assert_eq!(is_zero(a.to_bits()), a == 0.0, "{a:?}");
    }
    assert!(!is_nan(f64::INFINITY.to_bits()));
    assert!(is_nan(f64::INFINITY.to_bits() + 1));
}

#[test]
fn at_most_and_at_least_agree_with_the_numbers() {
    for a in samples() {
        for b in samples() {
            assert_eq!(at_most(a.to_bits(), b.to_bits()), a <= b, "{a:?} <= {b:?}");
            assert_eq!(at_least(a.to_bits(), b.to_bits()), a >= b, "{a:?} >= {b:?}");
        }
    }
}
