use raytracer::colour::Colour;
use raytracer::lights::{Light, PointLight};
use raytracer::math::arithmetic::Arithmetic;
use raytracer::math::tuple::Tuple;

/// Arithmetic in floating point, on the bit patterns of the numbers.
struct Floats;

fn f(bits: u64) -> f64 {
    f64::from_bits(bits)
}

fn b(value: f64) -> u64 {
    value.to_bits()
}

impl Arithmetic<u64> for Floats {
    fn number(&self, n: i32) -> u64 {
        b(f64::from(n))
    }

    fn count(&self, n: usize) -> u64 {
        b(n as f64)
    }

    fn plus(&self, x: u64, y: u64) -> u64 {
        b(f(x) + f(y))
    }

    fn minus(&self, x: u64, y: u64) -> u64 {
        b(f(x) - f(y))
    }

    fn times(&self, x: u64, y: u64) -> u64 {
        b(f(x) * f(y))
    }

    fn over(&self, x: u64, y: u64) -> u64 {
        b(f(x) / f(y))
    }

    fn negate(&self, x: u64) -> u64 {
        b(-f(x))
    }

    fn is_zero(&self, x: u64) -> bool {
        f(x) == 0.0
    }

    fn sqrt(&self, x: u64) -> u64 {
        b(f(x).sqrt())
    }

    fn sin(&self, x: u64) -> u64 {
        b(f(x).sin())
    }

    fn cos(&self, x: u64) -> u64 {
        b(f(x).cos())
    }

    fn tan(&self, x: u64) -> u64 {
        b(f(x).tan())
    }

    fn powf(&self, x: u64, y: u64) -> u64 {
        b(f(x).powf(f(y)))
    }

    fn round(&self, x: u64) -> u64 {
        b(f(x).round())
    }

    fn byte(&self, x: u64) -> u8 {
        f(x) as u8
    }

    fn parse(&self, text: &Vec<u8>) -> Option<u64> {
        std::str::from_utf8(text).ok()?.parse::<f64>().ok().map(b)
    }
}

#[test]
fn lights_construction_works() {
    let zero = Tuple::new(b(0.0), b(0.0), b(0.0), b(0.0));
    let l = PointLight { intensity: Colour::black(), position: zero };

    assert_eq!(l.intensity, Colour::black());
    assert_eq!(l.position, zero)
}

#[test]
fn a_light_says_what_it_was_made_with() {
    let at = Tuple::pointi(-10, 10, -10, &Floats);
    let l = PointLight::new(Colour::white(), at);
    assert_eq!(*l.intensity(), Colour::white());
    assert_eq!(*l.position(), at);
}
