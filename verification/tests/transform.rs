use raytracer::math::arithmetic::Arithmetic;
use raytracer::math::matrix::Matrix;
use raytracer::math::tuple::Tuple;
use std::f64::consts::{FRAC_PI_2, FRAC_PI_4};

/// Arithmetic in floating point, on the bit patterns of the numbers.
struct Floats;

fn f(bits: u64) -> f64 {
    f64::from_bits(bits)
}

fn b(value: f64) -> u64 {
    value.to_bits()
}

impl Arithmetic<u64> for Floats {
    fn number(&self, n: i32) -> u64 {
        b(f64::from(n))
    }

    fn count(&self, n: usize) -> u64 {
        b(n as f64)
    }

    fn plus(&self, x: u64, y: u64) -> u64 {
        b(f(x) + f(y))
    }

    fn minus(&self, x: u64, y: u64) -> u64 {
        b(f(x) - f(y))
    }

    fn times(&self, x: u64, y: u64) -> u64 {
        b(f(x) * f(y))
    }

    fn over(&self, x: u64, y: u64) -> u64 {
        b(f(x) / f(y))
    }

    fn negate(&self, x: u64) -> u64 {
        b(-f(x))
    }

    fn is_zero(&self, x: u64) -> bool {
        f(x) == 0.0
    }

    fn sqrt(&self, x: u64) -> u64 {
        b(f(x).sqrt())
    }

    fn sin(&self, x: u64) -> u64 {
        b(f(x).sin())
    }

    fn cos(&self, x: u64) -> u64 {
        b(f(x).cos())
    }

    fn tan(&self, x: u64) -> u64 {
        b(f(x).tan())
    }

    fn powf(&self, x: u64, y: u64) -> u64 {
        b(f(x).powf(f(y)))
    }

    fn round(&self, x: u64) -> u64 {
        b(f(x).round())
    }

    fn byte(&self, x: u64) -> u8 {
        f(x) as u8
    }

    fn parse(&self, text: &Vec<u8>) -> Option<u64> {
        std::str::from_utf8(text).ok()?.parse::<f64>().ok().map(b)
    }
}

fn same(a: Tuple<u64>, c: Tuple<u64>) -> bool {
    a.eq(&c, &Floats)
}

fn pointi(x: i32, y: i32, z: i32) -> Tuple<u64> {
    Tuple::pointi(x, y, z, &Floats)
}

fn vectori(x: i32, y: i32, z: i32) -> Tuple<u64> {
    Tuple::vectori(x, y, z, &Floats)
}

fn point(x: f64, y: f64, z: f64) -> Tuple<u64> {
    Tuple::point(b(x), b(y), b(z))
}

fn apply(m: &Matrix<u64>, t: Tuple<u64>) -> Tuple<u64> {
    m.mul_tuple(&t, &Floats)
}

fn inverse(m: &Matrix<u64>) -> Matrix<u64> {
    m.inverse(&Floats).expect("must be invertable")
}

#[test]
fn matrix_simple() {
    let t = Matrix::translationi(5, -3, 2, &Floats);
    let p = pointi(-3, 4, 5);

    assert!(same(apply(&t, p), pointi(2, 1, 7)));
    assert!(same(apply(&inverse(&t), p), pointi(-8, 7, 3)));
}

#[test]
fn chained_transforms() {
    let start = pointi(1, 0, 1);

    let rotx = &Matrix::rotation_x(b(FRAC_PI_2), &Floats);
    let scale = &Matrix::scalingi(5, 5, 5, &Floats);
    let trans = &Matrix::translationi(10, 5, 7, &Floats);

    let rotated = apply(rotx, start);
    let scaled = apply(scale, rotated);
    let translated = apply(trans, scaled);

    assert!(same(rotated, pointi(1, -1, 0)), "rotation not as expected");
    assert!(same(scaled, pointi(5, -5, 0)), "scale not as expected");
    assert!(same(translated, pointi(15, 0, 7)), "translation not as expected");

    let chained = trans.mul(scale, &Floats).mul(rotx, &Floats);
    assert!(same(apply(&chained, start), translated), "Chained did not result in the same result");

    let fluent = Matrix::identity()
        .rotate_x(b(FRAC_PI_2), &Floats)
        .scale(b(5.0), b(5.0), b(5.0), &Floats)
        .translate(b(10.0), b(5.0), b(7.0), &Floats);

    assert!(same(apply(&fluent, start), translated));
}

#[test]
fn transforms_move_points_as_they_should() {
    let half = 2.0f64.sqrt() / 2.0;
    let scaling = Matrix::scalingi(2, 3, 4, &Floats);
    assert!(same(apply(&scaling, pointi(-4, 6, 8)), pointi(-8, 18, 32)));
    assert!(same(apply(&scaling, vectori(-4, 6, 8)), vectori(-8, 18, 32)));
    assert!(same(apply(&Matrix::scalingi(-1, 1, 1, &Floats), pointi(2, 3, 4)), pointi(-2, 3, 4)));
    let eighth = b(FRAC_PI_4);
    let quarter = b(FRAC_PI_2);
    assert!(same(apply(&Matrix::rotation_x(eighth, &Floats), pointi(0, 1, 0)), point(0.0, half, half)));
    assert!(same(apply(&Matrix::rotation_x(quarter, &Floats), pointi(0, 1, 0)), pointi(0, 0, 1)));
    assert!(same(
        apply(&inverse(&Matrix::rotation_x(eighth, &Floats)), pointi(0, 1, 0)),
        point(0.0, half, -half)
    ));
    assert!(same(apply(&Matrix::rotation_y(eighth, &Floats), pointi(0, 0, 1)), point(half, 0.0, half)));
    assert!(same(apply(&Matrix::rotation_y(quarter, &Floats), pointi(0, 0, 1)), pointi(1, 0, 0)));
    assert!(same(
        apply(&Matrix::rotatation_z(eighth, &Floats), pointi(0, 1, 0)),
        point(-half, half, 0.0)
    ));
    assert!(same(apply(&Matrix::rotatation_z(quarter, &Floats), pointi(0, 1, 0)), pointi(-1, 0, 0)));
    let sheared = |x_y, x_z, y_x, y_z, z_x, z_y| {
        apply(&Matrix::shearingi(x_y, x_z, y_x, y_z, z_x, z_y, &Floats), pointi(2, 3, 4))
    };
    assert!(same(sheared(1, 0, 0, 0, 0, 0), pointi(5, 3, 4)));
    assert!(same(sheared(0, 1, 0, 0, 0, 0), pointi(6, 3, 4)));
    assert!(same(sheared(0, 0, 1, 0, 0, 0), pointi(2, 5, 4)));
    assert!(same(sheared(0, 0, 0, 1, 0, 0), pointi(2, 7, 4)));
    assert!(same(sheared(0, 0, 0, 0, 1, 0), pointi(2, 3, 6)));
    assert!(same(sheared(0, 0, 0, 0, 0, 1), pointi(2, 3, 7)));
}

#[test]
fn the_view_transform_turns_and_moves_the_world() {
    let unit = Matrix::view_transform(pointi(0, 0, 0), pointi(0, 0, -1), vectori(0, 1, 0), &Floats)
        .expect("a view");
    assert!(unit.eq(&Matrix::identity(), &Floats));
    let back = Matrix::view_transform(pointi(0, 0, 0), pointi(0, 0, 1), vectori(0, 1, 0), &Floats)
        .expect("a view");
    assert!(back.eq(&Matrix::scalingi(-1, 1, -1, &Floats), &Floats));
    let moved = Matrix::view_transform(pointi(0, 0, 8), pointi(0, 0, 0), vectori(0, 1, 0), &Floats)
        .expect("a view");
    assert!(moved.eq(&Matrix::translationi(0, 0, -8, &Floats), &Floats));
    let any = Matrix::view_transform(pointi(1, 3, 2), pointi(4, -2, 8), vectori(1, 1, 0), &Floats)
        .expect("a view");
    let want: Vec<u64> = [
        -0.50709, 0.50709, 0.67612, -2.36643, 0.76772, 0.60609, 0.12122, -2.82843, -0.35857,
        0.59761, -0.71714, 0.0, 0.0, 0.0, 0.0, 1.0,
    ]
    .into_iter()
    .map(b)
    .collect();
    assert!(any.eq(&Matrix::new_with_data(4, 4, want), &Floats));
    assert!(Matrix::view_transform(pointi(1, 3, 2), pointi(4, -2, 8), pointi(1, 1, 0), &Floats).is_none());
}

#[test]
fn matrices_are_equal_within_the_tolerance() {
    let a = Matrix::translation(b(1.0), b(2.0), b(3.0));
    let near = Matrix::translation(b(1.000001), b(2.0), b(3.0));
    let far = Matrix::translation(b(1.001), b(2.0), b(3.0));
    assert!(a.eq(&near, &Floats));
    assert!(!a.eq(&far, &Floats));
    assert!(!a.eq(&Matrix::new_with_data(2, 2, vec![b(1.0); 4]), &Floats));
    assert!(Matrix::<u64>::default().eq(&Matrix::identity(), &Floats));
}
