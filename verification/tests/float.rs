use raytracer::math::arithmetic::{dot, Arithmetic};
use raytracer::math::float::{
    abs, clamp, equal, negate, EPSILON, FOUR, HALF, MAX_DIFF, MINUS_ONE, ONE, TWO, ZERO,
};

/// Arithmetic in floating point, on the bit patterns of the numbers.
struct Floats;

fn f(bits: u64) -> f64 {
    f64::from_bits(bits)
}

fn b(value: f64) -> u64 {
    value.to_bits()
}

impl Arithmetic<u64> for Floats {
    fn number(&self, n: i32) -> u64 {
        b(f64::from(n))
    }

    fn count(&self, n: usize) -> u64 {
        b(n as f64)
    }

    fn plus(&self, x: u64, y: u64) -> u64 {
        b(f(x) + f(y))
    }

    fn minus(&self, x: u64, y: u64) -> u64 {
        b(f(x) - f(y))
    }

    fn times(&self, x: u64, y: u64) -> u64 {
        b(f(x) * f(y))
    }

    fn over(&self, x: u64, y: u64) -> u64 {
        b(f(x) / f(y))
    }

    fn negate(&self, x: u64) -> u64 {
        b(-f(x))
    }

    fn is_zero(&self, x: u64) -> bool {
        f(x) == 0.0
    }

    fn sqrt(&self, x: u64) -> u64 {
        b(f(x).sqrt())
    }

    fn sin(&self, x: u64) -> u64 {
        b(f(x).sin())
    }

    fn cos(&self, x: u64) -> u64 {
        b(f(x).cos())
    }

    fn tan(&self, x: u64) -> u64 {
        b(f(x).tan())
    }

    fn powf(&self, x: u64, y: u64) -> u64 {
        b(f(x).powf(f(y)))
    }

    fn round(&self, x: u64) -> u64 {
        b(f(x).round())
    }

    fn byte(&self, x: u64) -> u8 {
        f(x) as u8
    }

    fn parse(&self, text: &Vec<u8>) -> Option<u64> {
        std::str::from_utf8(text).ok()?.parse::<f64>().ok().map(b)
    }
}

#[test]
fn float_test_eq() {
    assert!((2.0_f64).sqrt().powi(2) != 2.0);
    assert!(equal(b(2.0_f64.sqrt().powi(2)), b(2.0), &Floats))
}

#[test]
fn the_constants_are_the_encodings_of_the_numbers() {
    assert_eq!(ZERO, b(0.0));
    assert_eq!(HALF, b(0.5));
    assert_eq!(ONE, b(1.0));
    assert_eq!(MINUS_ONE, b(-1.0));
    assert_eq!(TWO, b(2.0));
    assert_eq!(FOUR, b(4.0));
    assert_eq!(MAX_DIFF, b(0.00001));
    assert_eq!(EPSILON, b(0.00001));
}

#[test]
fn sign_and_magnitude_are_those_of_the_numbers() {
    for v in [0.0, -0.0, 1.5, -1.5, 1e300, -5e-324, f64::INFINITY, f64::NEG_INFINITY] {
        assert_eq!(negate(b(v)), b(-v), "{v:?}");
        assert_eq!(abs(b(v)), b(v.abs()), "{v:?}");
        assert_eq!(negate(negate(b(v))), b(v));
    }
    assert!(f(negate(b(f64::NAN))).is_nan());
}

#[test]
fn equal_is_within_the_tolerance() {
    assert!(equal(b(1.0), b(1.000009), &Floats));
    assert!(!equal(b(1.0), b(1.00002), &Floats));
    assert!(equal(b(-3.0), b(-3.0), &Floats));
    assert!(!equal(b(f64::NAN), b(f64::NAN), &Floats));
}

#[test]
fn clamp_holds_a_number_between_two() {
    assert_eq!(clamp(b(0.5), b(0.0), b(255.0)), b(0.5));
    assert_eq!(clamp(b(-0.5), b(0.0), b(255.0)), b(0.0));
    assert_eq!(clamp(b(300.0), b(0.0), b(255.0)), b(255.0));
    assert_eq!(clamp(b(255.0), b(0.0), b(255.0)), b(255.0));
    assert_eq!(clamp(b(f64::INFINITY), b(0.0), b(255.0)), b(255.0));
    assert_eq!(clamp(b(f64::NEG_INFINITY), b(0.0), b(255.0)), b(0.0));
    for v in [0.5, -0.5, 300.0, 0.0, -0.0, 255.0, 1e300, -1e300] {
        assert_eq!(clamp(b(v), b(0.0), b(255.0)), b(v.clamp(0.0, 255.0)), "{v:?}");
    }
    assert!(f(clamp(b(f64::NAN), b(0.0), b(255.0))).is_nan());
}

#[test]
fn dot_sums_the_products_from_the_left() {
    let left = vec![b(1.0), b(2.0), b(3.0), b(4.0)];
    let right = vec![b(2.0), b(3.0), b(4.0), b(5.0)];
    assert_eq!(f(dot(&left, &right, &Floats)), 40.0);
    assert_eq!(f(dot(&vec![b(1.5)], &vec![b(-2.0)], &Floats)), -3.0);
    assert_eq!(f(dot(&vec![], &vec![], &Floats)), 0.0);
    // The shorter list says how many products there are.
    assert_eq!(f(dot(&left, &vec![b(10.0), b(10.0)], &Floats)), 30.0);
    // Rounding shows the order: the large terms cancel before the small one
    // is added.
    let big = vec![b(1e16), b(-1e16), b(1.0)];
    let ones = vec![b(1.0), b(1.0), b(1.0)];
    assert_eq!(f(dot(&big, &ones, &Floats)), 1.0);
    let other = vec![b(1.0), b(1e16), b(-1e16)];
    assert_eq!(f(dot(&other, &ones, &Floats)), 0.0);
}
