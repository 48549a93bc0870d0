use raytracer::math::arithmetic::Arithmetic;
use raytracer::math::float::{ONE, ZERO};
use raytracer::math::tuple::{self, is_point, is_vector, Tuple};

/// Arithmetic in floating point, on the bit patterns of the numbers.
struct Floats;

fn f(bits: u64) -> f64 {
    f64::from_bits(bits)
}

fn b(value: f64) -> u64 {
    value.to_bits()
}

impl Arithmetic<u64> for Floats {
    fn number(&self, n: i32) -> u64 {
        b(f64::from(n))
    }

    fn count(&self, n: usize) -> u64 {
        b(n as f64)
    }

    fn plus(&self, x: u64, y: u64) -> u64 {
        b(f(x) + f(y))
    }

    fn minus(&self, x: u64, y: u64) -> u64 {
        b(f(x) - f(y))
    }

    fn times(&self, x: u64, y: u64) -> u64 {
        b(f(x) * f(y))
    }

    fn over(&self, x: u64, y: u64) -> u64 {
        b(f(x) / f(y))
    }

    fn negate(&self, x: u64) -> u64 {
        b(-f(x))
    }

    fn is_zero(&self, x: u64) -> bool {
        f(x) == 0.0
    }

    fn sqrt(&self, x: u64) -> u64 {
        b(f(x).sqrt())
    }

    fn sin(&self, x: u64) -> u64 {
        b(f(x).sin())
    }

    fn cos(&self, x: u64) -> u64 {
        b(f(x).cos())
    }

    fn tan(&self, x: u64) -> u64 {
        b(f(x).tan())
    }

    fn powf(&self, x: u64, y: u64) -> u64 {
        b(f(x).powf(f(y)))
    }

    fn round(&self, x: u64) -> u64 {
        b(f(x).round())
    }

    fn byte(&self, x: u64) -> u8 {
        f(x) as u8
    }

    fn parse(&self, text: &Vec<u8>) -> Option<u64> {
        std::str::from_utf8(text).ok()?.parse::<f64>().ok().map(b)
    }
}

fn quad(x: f64, y: f64, z: f64, w: f64) -> Tuple<u64> {
    Tuple::new(b(x), b(y), b(z), b(w))
}

fn same(a: Tuple<u64>, c: Tuple<u64>) -> bool {
    a.eq(&c, &Floats)
}

#[test]
fn point() {
    let t = quad(4.3, -4.2, 3.1, 1.0);

    assert!(f(t.x) == 4.3);
    assert!(f(t.y) == -4.2);
    assert!(f(t.z) == 3.1);

    assert!(t.is_point());
    assert!(!t.is_vector());
}

#[test]
fn tuple_test_eq() {
    assert!(same(Tuple::point(b(1.0), b(2.0), b(3.0)), Tuple::point(b(1.0), b(2.0), b(3.0))))
}

#[test]
fn test_add() {
    let a = Tuple::vector(b(3.0), b(-2.0), b(5.0));
    let c = Tuple::point(b(-2.0), b(3.0), b(1.0));

    let expected = quad(1.0, 1.0, 6.0, 1.0);

    assert!(same(a.add(&c, &Floats), expected))
}

#[test]
fn test_sub() {
    let a = Tuple::point(b(3.0), b(2.0), b(1.0));
    let c = Tuple::point(b(5.0), b(6.0), b(7.0));
    let expected = Tuple::vector(b(-2.0), b(-4.0), b(-6.0));

    let res = a.sub(&c, &Floats);

    assert!(same(res, expected), "want {:?}, got {:?}", expected, res)
}

#[test]
fn test_sub_vec_point() {
    let a = Tuple::point(b(3.0), b(2.0), b(1.0));
    let c = Tuple::vector(b(5.0), b(6.0), b(7.0));
    let expected = Tuple::point(b(-2.0), b(-4.0), b(-6.0));

    let res = a.sub(&c, &Floats);

    assert!(same(res, expected), "want {:?}, got {:?}", expected, res)
}

#[test]
fn test_sub_vec_vec() {
    let a = Tuple::vector(b(3.0), b(2.0), b(1.0));
    let c = Tuple::vector(b(5.0), b(6.0), b(7.0));
    let expected = Tuple::vector(b(-2.0), b(-4.0), b(-6.0));

    let res = a.sub(&c, &Floats);

    assert!(same(res, expected), "want {:?}, got {:?}", expected, res)
}

#[test]
fn vector() {
    let t = quad(4.3, -4.2, 3.1, 0.0);

    assert!(f(t.x) == 4.3);
    assert!(f(t.y) == -4.2);
    assert!(f(t.z) == 3.1);

    assert!(!t.is_point());
    assert!(t.is_vector());
}

#[test]
fn test_neg() {
    assert!(same(
        Tuple::vector(b(1.0), b(-2.0), b(3.0)).neg(),
        Tuple::vector(b(-1.0), b(2.0), b(-3.0))
    ))
}

#[test]
fn test_mul_scalar() {
    assert!(same(
        Tuple::vector(b(1.0), b(2.0), b(3.0)).mul(Floats.number(2), &Floats),
        Tuple::vector(b(2.0), b(4.0), b(6.0))
    ))
}

#[test]
fn test_mul_scalar_float() {
    assert!(same(quad(1.0, -2.0, 3.0, -4.0).mul(b(0.5), &Floats), quad(0.5, -1.0, 1.5, -2.0)))
}

#[test]
fn magnitudes() {
    assert_eq!(f(Tuple::vector(b(1.0), b(0.0), b(0.0)).magnitude(&Floats)), 1.0);
    assert_eq!(f(Tuple::vector(b(0.0), b(1.0), b(0.0)).magnitude(&Floats)), 1.0);
    assert_eq!(f(Tuple::vector(b(0.0), b(0.0), b(1.0)).magnitude(&Floats)), 1.0);
    assert_eq!(f(Tuple::vector(b(1.0), b(2.0), b(3.0)).magnitude(&Floats)), 14.0_f64.sqrt());
    assert_eq!(f(Tuple::vector(b(-1.0), b(-2.0), b(-3.0)).magnitude(&Floats)), 14.0_f64.sqrt());
}

#[test]
fn normalizing() {
    assert!(same(
        Tuple::vector(b(3.0), b(0.0), b(0.0)).normalize(&Floats),
        Tuple::vectori(1, 0, 0, &Floats)
    ));
    assert!(same(
        Tuple::vectori(1, 2, 3, &Floats).normalize(&Floats),
        Tuple::vector(b(1.0 / 14_f64.sqrt()), b(2.0 / 14_f64.sqrt()), b(3.0 / 14_f64.sqrt()))
    ));
}

#[test]
fn verify_magnitude() {
    let vec = Tuple::vectori(1, 2, 3, &Floats);
    assert_eq!(f(vec.normalize(&Floats).magnitude(&Floats)), 1.0)
}

#[test]
fn normalizing_twice_changes_nothing() {
    for v in [
        Tuple::vectori(1, 2, 3, &Floats),
        Tuple::vector(b(-0.5), b(40.0), b(1e-3)),
        Tuple::vectori(0, 0, -7, &Floats),
    ] {
        let once = v.normalize(&Floats);
        assert!((f(once.magnitude(&Floats)) - 1.0).abs() < 0.00001);
        assert!(same(once.normalize(&Floats), once));
    }
}

#[test]
fn dot() {
    let a = Tuple::vectori(1, 2, 3, &Floats);
    let c = Tuple::vectori(2, 3, 4, &Floats);

    assert_eq!(f(a.dot(&c, &Floats)), 20.0);
}

#[test]
fn cross() {
    let a = Tuple::vectori(1, 2, 3, &Floats);
    let c = Tuple::vectori(2, 3, 4, &Floats);

    assert!(same(a.cross(&c, &Floats), Tuple::vectori(-1, 2, -1, &Floats)));
    assert!(same(c.cross(&a, &Floats), Tuple::vectori(1, -2, 1, &Floats)))
}

#[test]
fn reflecting() {
    let half = std::f64::consts::SQRT_2 / 2.0;
    let v = Tuple::vectori(1, -1, 0, &Floats);
    assert!(v.is_vector());
    assert!(same(v.reflect(&Tuple::vectori(0, 1, 0, &Floats), &Floats), Tuple::vectori(1, 1, 0, &Floats)));
    let v = Tuple::vectori(0, -1, 0, &Floats);
    assert!(same(
        v.reflect(&Tuple::vector(b(half), b(half), b(0.0)), &Floats),
        Tuple::vectori(1, 0, 0, &Floats)
    ));
}

#[test]
fn the_free_makers_make_the_same_tuples() {
    assert_eq!(tuple::point(b(1.0), b(2.0), b(3.0)), Tuple::point(b(1.0), b(2.0), b(3.0)));
    assert_eq!(tuple::vector(b(1.0), b(2.0), b(3.0)), Tuple::vector(b(1.0), b(2.0), b(3.0)));
    assert_eq!(tuple::pointi(1, 2, 3, &Floats), Tuple::point(b(1.0), b(2.0), b(3.0)));
    assert_eq!(tuple::vectori(1, 2, 3, &Floats), Tuple::vector(b(1.0), b(2.0), b(3.0)));
    assert_eq!(Tuple::new(1, 2, 3, 4).components(), vec![1, 2, 3, 4]);
}

#[test]
fn one_and_zero_are_the_encodings_of_the_numbers() {
    assert_eq!(ONE, 1.0f64.to_bits());
    assert_eq!(ZERO, 0.0f64.to_bits());
}

#[test]
fn points_and_vectors_are_told_apart_as_numbers_are_compared() {
    for w in [0.0, -0.0, 1.0, -1.0, 0.5, 2.0, 1.0 + f64::EPSILON, f64::NAN, f64::INFINITY, 5e-324] {
        assert_eq!(is_point(w.to_bits()), w == 1.0, "{w:?}");
        assert_eq!(is_vector(w.to_bits()), w == 0.0, "{w:?}");
    }
}
