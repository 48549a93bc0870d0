use raytracer::canvas::Canvas;
use raytracer::colour::Colour;
use raytracer::math::arithmetic::Arithmetic;
use raytracer::ppm::text;

/// Arithmetic in floating point, on the bit patterns of the numbers.
struct Floats;

fn f(bits: u64) -> f64 {
    f64::from_bits(bits)
}

fn b(value: f64) -> u64 {
    value.to_bits()
}

impl Arithmetic<u64> for Floats {
    fn number(&self, n: i32) -> u64 {
        b(f64::from(n))
    }

    fn count(&self, n: usize) -> u64 {
        b(n as f64)
    }

    fn plus(&self, x: u64, y: u64) -> u64 {
        b(f(x) + f(y))
    }

    fn minus(&self, x: u64, y: u64) -> u64 {
        b(f(x) - f(y))
    }

    fn times(&self, x: u64, y: u64) -> u64 {
        b(f(x) * f(y))
    }

    fn over(&self, x: u64, y: u64) -> u64 {
        b(f(x) / f(y))
    }

    fn negate(&self, x: u64) -> u64 {
        b(-f(x))
    }

    fn is_zero(&self, x: u64) -> bool {
        f(x) == 0.0
    }

    fn sqrt(&self, x: u64) -> u64 {
        b(f(x).sqrt())
    }

    fn sin(&self, x: u64) -> u64 {
        b(f(x).sin())
    }

    fn cos(&self, x: u64) -> u64 {
        b(f(x).cos())
    }

    fn tan(&self, x: u64) -> u64 {
        b(f(x).tan())
    }

    fn powf(&self, x: u64, y: u64) -> u64 {
        b(f(x).powf(f(y)))
    }

    fn round(&self, x: u64) -> u64 {
        b(f(x).round())
    }

    fn byte(&self, x: u64) -> u8 {
        f(x) as u8
    }

    fn parse(&self, text: &Vec<u8>) -> Option<u64> {
        std::str::from_utf8(text).ok()?.parse::<f64>().ok().map(b)
    }
}

fn colour(red: f64, green: f64, blue: f64) -> Colour {
    Colour::new(b(red), b(green), b(blue))
}

#[test]
fn header() {
    let c: Canvas<Colour> = Canvas::new(5, 3);
    let ppm = c.into_ppm(&Floats);
    let header: Vec<_> = ppm.lines().take(3).collect();
    assert_eq!(header[0], "P3");
    assert_eq!(header[1], "5 3");
    assert_eq!(header[2], "255")
}

#[test]
fn data() {
    let mut c: Canvas<Colour> = Canvas::new(5, 3);
    c.set(0, 0, colour(1.5, 0.0, 0.0));
    c.set(2, 1, colour(0.0, 0.5, 0.0));
    c.set(4, 2, colour(-0.5, 0.0, 1.0));

    let ppm = c.into_ppm(&Floats);
    let data: Vec<_> = ppm.lines().skip(3).take(3).collect();

    assert_eq!(data[0], "255 0 0 0 0 0 0 0 0 0 0 0 0 0 0");
    assert_eq!(data[1], "0 0 0 0 0 0 0 128 0 0 0 0 0 0 0");
    assert_eq!(data[2], "0 0 0 0 0 0 0 0 0 0 0 0 0 0 255");
}

#[test]
fn complex_data() {
    let c = Canvas::new_with_colour(10, 2, colour(1.0, 0.8, 0.6));

    let ppm = c.into_ppm(&Floats);
    let data: Vec<_> = ppm.lines().skip(3).collect();
    let expected: Vec<&str> =
        "255 204 153 255 204 153 255 204 153 255 204 153 255 204 153 255 204          
                153 255 204 153 255 204 153 255 204 153 255 204 153          
                255 204 153 255 204 153 255 204 153 255 204 153 255 204 153 255 204          
                153 255 204 153 255 204 153 255 204 153 255 204 153"
            .lines()
            .map(&str::trim)
            .collect();

    assert_eq!(data, expected)
}

#[test]
fn text_is_exact() {
    let samples = vec![255, 0, 7, 10, 99, 100];
    assert_eq!(text(2, 1, &samples), "P3\n2 1\n255\n255 0 7 10 99 100");
    let rows = vec![1, 2, 3, 4, 5, 6];
    assert_eq!(text(1, 2, &rows), "P3\n1 2\n255\n1 2 3\n4 5 6");
}

#[test]
fn text_of_no_cells_is_the_header_alone() {
    assert_eq!(text(0, 0, &vec![]), "P3\n0 0\n255");
    assert_eq!(text(12, 0, &vec![]), "P3\n12 0\n255");
    assert_eq!(text(0, 340, &vec![]), "P3\n0 340\n255");
    let none: Canvas<Colour> = Canvas::new(0, 0);
    assert_eq!(none.into_ppm(&Floats), "P3\n0 0\n255");
}

#[test]
fn no_line_reaches_the_limit() {
    let samples = vec![200u8; 3 * 40 * 3];
    let ppm = text(40, 3, &samples);
    assert!(ppm.lines().all(|l| l.len() < 70));
    // Seventeen numerals of three digits, with the blanks between them, are
    // 67 characters; an eighteenth would make the line 71.
    let first = ppm.lines().nth(3).expect("a line of samples");
    assert_eq!(first.len(), 67);
    assert_eq!(ppm.lines().skip(3).count(), 3 * 8);
}
