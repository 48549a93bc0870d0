use raytracer::math::arithmetic::Arithmetic;
use raytracer::math::matrix::text;
use raytracer::math::matrix::Matrix;
use raytracer::math::tuple::Tuple;

/// Arithmetic in floating point, on the bit patterns of the numbers.
struct Floats;

fn f(bits: u64) -> f64 {
    f64::from_bits(bits)
}

fn b(value: f64) -> u64 {
    value.to_bits()
}

impl Arithmetic<u64> for Floats {
    fn number(&self, n: i32) -> u64 {
        b(f64::from(n))
    }

    fn count(&self, n: usize) -> u64 {
        b(n as f64)
    }

    fn plus(&self, x: u64, y: u64) -> u64 {
        b(f(x) + f(y))
    }

    fn minus(&self, x: u64, y: u64) -> u64 {
        b(f(x) - f(y))
    }

    fn times(&self, x: u64, y: u64) -> u64 {
        b(f(x) * f(y))
    }

    fn over(&self, x: u64, y: u64) -> u64 {
        b(f(x) / f(y))
    }

    fn negate(&self, x: u64) -> u64 {
        b(-f(x))
    }

    fn is_zero(&self, x: u64) -> bool {
        f(x) == 0.0
    }

    fn sqrt(&self, x: u64) -> u64 {
        b(f(x).sqrt())
    }

    fn sin(&self, x: u64) -> u64 {
        b(f(x).sin())
    }

    fn cos(&self, x: u64) -> u64 {
        b(f(x).cos())
    }

    fn tan(&self, x: u64) -> u64 {
        b(f(x).tan())
    }

    fn powf(&self, x: u64, y: u64) -> u64 {
        b(f(x).powf(f(y)))
    }

    fn round(&self, x: u64) -> u64 {
        b(f(x).round())
    }

    fn byte(&self, x: u64) -> u8 {
        f(x) as u8
    }

    fn parse(&self, text: &Vec<u8>) -> Option<u64> {
        std::str::from_utf8(text).ok()?.parse::<f64>().ok().map(b)
    }
}

/// The matrix that a table of text stands for.
fn read(table: &str) -> Matrix<u64> {
    text::parse(&table.as_bytes().to_vec(), &Floats).unwrap()
}

/// Whether two matrices are equal within the tolerance.
fn alike(a: &Matrix<u64>, c: &Matrix<u64>) -> bool {
    a.eq(c, &Floats)
}

fn unit() -> Matrix<f64> {
    Matrix::identity_of(0.0, 1.0)
}

fn whole(width: usize, height: usize, data: Vec<i32>) -> Matrix<f64> {
    Matrix::new_with_data(width, height, data.into_iter().map(f64::from).collect())
}

#[test]
fn row2_test() {
    let m = Matrix::new_with_data(2, 2, vec![0.0, 1.0, 2.0, 3.0]);

    assert_eq!(m.row(0).iter(), vec![0.0, 1.0]);
    assert_eq!(m.row(1).iter(), vec![2.0, 3.0]);
}

#[test]
fn col2_test() {
    let m = Matrix::new_with_data(2, 2, vec![0.0, 1.0, 2.0, 3.0]);
    assert_eq!(m.col(0).iter(), vec![0.0, 2.0]);
    assert_eq!(m.col(1).iter(), vec![1.0, 3.0]);
}

#[test]
fn transpose_ident() {
    assert_eq!(unit().transpose(), unit())
}

#[test]
fn transpose() {
    let a = read(
        "\
| 0 | 9 | 3 | 0 |
| 9 | 8 | 0 | 8 |
| 1 | 8 | 5 | 3 |
| 0 | 0 | 5 | 8 |",
    );
    let expected = read(
        "\
| 0 | 9 | 1 | 0 |
| 9 | 8 | 8 | 0 |
| 3 | 0 | 5 | 5 |
| 0 | 8 | 3 | 8 |",
    );

    assert!(alike(&a.transpose(), &expected));
    assert_eq!(a.transpose(), expected)
}

#[test]
fn submatrix() {
    let m = whole(3, 3, vec![1, 5, 0, -3, 2, 7, 0, 6, -3]);
    let sub = whole(2, 2, vec![-3, 2, 0, 6]);

    assert_eq!(m.submatrix(0, 2), sub)
}

#[test]
fn submatrix_4x4() {
    let m = whole(4, 4, vec![-6, 1, 1, 6, -8, 5, 8, 6, -1, 0, 8, 2, -7, 1, -1, 1]);

    let expected = whole(3, 3, vec![-6, 1, 6, -8, 8, 6, -7, -1, 1]);

    assert_eq!(m.submatrix(2, 1), expected)
}

#[test]
fn entries_are_read_by_row_and_column() {
    let m = Matrix::new_with_data(
        4,
        4,
        vec![
            1.0, 2.0, 3.0, 4.0, 5.5, 6.5, 7.5, 8.5, 9.0, 10.0, 11.0, 12.0, 13.5, 14.5, 15.5, 16.5,
        ],
    );
    assert_eq!(m[(0, 0)], 1.0);
    assert_eq!(m[(0, 3)], 4.0);
    assert_eq!(m[(1, 0)], 5.5);
    assert_eq!(m[(1, 2)], 7.5);
    assert_eq!(m[(2, 2)], 11.0);
    assert_eq!(m[(3, 0)], 13.5);
    assert_eq!(m[(3, 2)], 15.5);
    assert_eq!(m[(3, 3)], 16.5);
    assert_eq!(m.width(), 4);
    assert_eq!(m.height(), 4);
}

#[test]
fn entries_are_read_by_place() {
    let m = whole(2, 2, vec![-3, 5, 1, -2]);
    assert_eq!(m[0], -3.0);
    assert_eq!(m[1], 5.0);
    assert_eq!(m[2], 1.0);
    assert_eq!(m[3], -2.0);

    assert_eq!(m[(1, 0)], 1.0)
}

#[test]
fn rows_and_columns_of_a_wide_matrix() {
    let m = Matrix::new_with_data(3, 2, vec![1, 2, 3, 4, 5, 6]);
    assert_eq!(m.row(0).iter(), vec![1, 2, 3]);
    assert_eq!(m.row(1).iter(), vec![4, 5, 6]);
    assert_eq!(m.col(0).iter(), vec![1, 4]);
    assert_eq!(m.col(2).iter(), vec![3, 6]);
    assert_eq!(m.col(1).len(), 2);
    assert_eq!(m.row(1).len(), 3);
    assert_eq!(m.col(1)[1], 5);
    assert_eq!(m.row(1)[2], 6);
}

#[test]
fn new_fills_with_the_default() {
    let m: Matrix<f64> = Matrix::new(4, 4);
    assert_eq!(m, Matrix::new_with_data(4, 4, vec![0.0; 16]));
    let empty: Matrix<u8> = Matrix::new(0, 3);
    assert_eq!(empty.width(), 0);
    assert_eq!(empty.height(), 3);
}

#[test]
fn set_changes_one_entry() {
    let mut m = unit();
    m.set(0, 3, 5.0);
    m.set(1, 3, -3.0);
    m.set(2, 3, 2.0);
    assert_eq!(
        m,
        Matrix::new_with_data(
            4,
            4,
            vec![1.0, 0.0, 0.0, 5.0, 0.0, 1.0, 0.0, -3.0, 0.0, 0.0, 1.0, 2.0, 0.0, 0.0, 0.0, 1.0]
        )
    );
}

#[test]
fn from_fn_asks_for_every_entry() {
    let m = Matrix::from_fn(3, 2, |row, col| 10 * row + col);
    assert_eq!(m, Matrix::new_with_data(3, 2, vec![0, 1, 2, 10, 11, 12]));
}

#[test]
fn transpose_twice_gives_the_matrix_back() {
    let a = whole(3, 3, vec![1, 2, 3, 4, 5, 6, 7, 8, 9]);
    assert_eq!(a.transpose(), whole(3, 3, vec![1, 4, 7, 2, 5, 8, 3, 6, 9]));
    assert_eq!(a.transpose().transpose(), a);
}

#[test]
fn submatrix_of_the_corners() {
    let m = whole(3, 3, vec![1, 2, 3, 4, 5, 6, 7, 8, 9]);
    assert_eq!(m.submatrix(0, 0), whole(2, 2, vec![5, 6, 8, 9]));
    assert_eq!(m.submatrix(2, 2), whole(2, 2, vec![1, 2, 4, 5]));
    assert_eq!(m.submatrix(1, 1), whole(2, 2, vec![1, 3, 7, 9]));
    let one = whole(1, 1, vec![4]);
    assert_eq!(one.submatrix(0, 0), whole(0, 0, vec![]));
}

#[test]
fn clone_is_equal() {
    let m = whole(2, 2, vec![1, 2, 3, 4]);
    assert_eq!(m.clone(), m);
}

#[test]
fn equal() {
    let left = read(
        "\
| 1 | 2 | 3 | 4 |
| 5 | 6 | 7 | 8 |
| 9 | 8 | 7 | 6 |
| 5 | 4 | 3 | 2 |\
",
    );

    let right = read(
        "\
| 1 | 2 | 3 | 4 |
| 5 | 6 | 7 | 8 |
| 9 | 8 | 7 | 6 |
| 5 | 4 | 3 | 2 |\
",
    );

    assert!(alike(&left, &right))
}

#[test]
fn neq() {
    let left = read(
        "\
| 1 | 2 | 3 | 4 |
| 5 | 6 | 7 | 8 |
| 9 | 8 | 7 | 6 |
| 5 | 4 | 3 | 2 |\
",
    );

    let right = read(
        "\
| 2 | 3 | 4 | 5 |
| 6 | 7 | 8 | 9 |
| 8 | 7 | 6 | 5 |
| 4 | 3 | 2 | 1 |\
",
    );

    assert!(!alike(&left, &right))
}

#[test]
fn mul() {
    let a = read(
        "\
| 1 | 2 | 3 | 4 |
| 5 | 6 | 7 | 8 |
| 9 | 8 | 7 | 6 |
| 5 | 4 | 3 | 2 |",
    );
    let c = read(
        "\
| -2 | 1 | 2 |  3 |
|  3 | 2 | 1 | -1 |
|  4 | 3 | 6 |  5 |
|  1 | 2 | 7 |  8 |",
    );
    let expected = read(
        "\
| 20|  22 |  50 |  48 |
| 44|  54 | 114 | 108 |
| 40|  58 | 110 | 102 |
| 16|  26 |  46 |  42 |",
    );

    assert!(alike(&a.mul(&c, &Floats), &expected));
    assert_eq!(f(a.mul(&c, &Floats)[(1, 2)]), 114.0);
}

#[test]
fn mul_tuple() {
    let a = read(
        "\
| 1 | 2 | 3 | 4 |
| 2 | 4 | 4 | 2 |
| 8 | 6 | 4 | 1 |
| 0 | 0 | 0 | 1 |",
    );

    let c = Tuple::pointi(1, 2, 3, &Floats); // 1

    assert!(a.mul_tuple(&c, &Floats).eq(&Tuple::pointi(18, 24, 33, &Floats), &Floats));
    assert_eq!(f(a.mul_tuple(&c, &Floats).x), 18.0);
}

#[test]
fn identity() {
    let m = read(
        "\
| 0 | 1 |  2 |  4 |
| 1 | 2 |  4 |  8 |
| 2 | 4 |  8 | 16 |
| 4 | 8 | 16 | 32 |",
    );
    let unit = Matrix::identity_of(b(0.0), b(1.0));

    assert!(alike(&m.mul(&unit, &Floats), &m));
    assert!(alike(&unit.mul(&m, &Floats), &m));
}

#[test]
fn matrices_of_different_sizes_are_not_equal() {
    let wide = Matrix::new_with_data(3, 2, vec![b(0.0); 6]);
    let tall = Matrix::new_with_data(2, 3, vec![b(0.0); 6]);
    assert!(!alike(&wide, &tall));
    assert!(alike(&wide, &wide.clone()));
    let close = Matrix::new_with_data(1, 1, vec![b(1.0)]);
    let closer = Matrix::new_with_data(1, 1, vec![b(1.000001)]);
    let apart = Matrix::new_with_data(1, 1, vec![b(1.001)]);
    assert!(alike(&close, &closer));
    assert!(!alike(&close, &apart));
}

#[test]
fn transforms_put_each_coefficient_in_its_place() {
    assert_eq!(
        Matrix::identity_of(0, 1),
        Matrix::new_with_data(4, 4, vec![1, 0, 0, 0, 0, 1, 0, 0, 0, 0, 1, 0, 0, 0, 0, 1])
    );
    assert_eq!(
        Matrix::translation_of(0, 1, 5, 6, 7),
        Matrix::new_with_data(4, 4, vec![1, 0, 0, 5, 0, 1, 0, 6, 0, 0, 1, 7, 0, 0, 0, 1])
    );
    assert_eq!(
        Matrix::scaling_of(0, 1, 5, 6, 7),
        Matrix::new_with_data(4, 4, vec![5, 0, 0, 0, 0, 6, 0, 0, 0, 0, 7, 0, 0, 0, 0, 1])
    );
    // With 2 for the sine, 3 for the cosine and -2 for the sine negated.
    assert_eq!(
        Matrix::rotation_x_of(0, 1, 2, 3, -2),
        Matrix::new_with_data(4, 4, vec![1, 0, 0, 0, 0, 3, -2, 0, 0, 2, 3, 0, 0, 0, 0, 1])
    );
    assert_eq!(
        Matrix::rotation_y_of(0, 1, 2, 3, -2),
        Matrix::new_with_data(4, 4, vec![3, 0, 2, 0, 0, 1, 0, 0, -2, 0, 3, 0, 0, 0, 0, 1])
    );
    assert_eq!(
        Matrix::rotatation_z_of(0, 1, 2, 3, -2),
        Matrix::new_with_data(4, 4, vec![3, -2, 0, 0, 2, 3, 0, 0, 0, 0, 1, 0, 0, 0, 0, 1])
    );
    assert_eq!(
        Matrix::shearing_of(0, 1, 2, 3, 4, 5, 6, 7),
        Matrix::new_with_data(4, 4, vec![1, 2, 3, 0, 4, 1, 5, 0, 6, 7, 1, 0, 0, 0, 0, 1])
    );
}

#[test]
fn zero_and_one_are_neutral_towards_finite_numbers() {
    for v in [0.0, -0.0, 1.0, -3.5, 0.1, 1e300, -5e-324] {
        let x = b(v);
        assert_eq!(Floats.times(b(1.0), x), x, "{v:?}");
        assert_eq!(Floats.times(x, b(1.0)), x, "{v:?}");
        assert_eq!(f(Floats.times(b(0.0), x)), 0.0, "{v:?}");
        assert_eq!(f(Floats.times(x, b(0.0))), 0.0, "{v:?}");
        assert_eq!(f(Floats.minus(x, x)), 0.0, "{v:?}");
        for z in [0.0, -0.0] {
            let before = Floats.plus(b(z), x);
            let after = Floats.plus(x, b(z));
            assert!(before == x || (v == 0.0 && f(before) == 0.0), "{z:?} + {v:?}");
            assert!(after == x || (v == 0.0 && f(after) == 0.0), "{v:?} + {z:?}");
        }
    }
}

#[test]
fn the_identity_gives_a_finite_matrix_back() {
    let unit = Matrix::identity_of(b(0.0), b(1.0));
    let m = Matrix::new_with_data(
        4,
        4,
        vec![
            -0.0, 1.5, -2.0, 1e300, 0.1, 0.0, -5e-324, 8.0, 2.0, -4.0, 8.0, 16.0, 4.0, 8.0, -16.0,
            32.0,
        ]
        .into_iter()
        .map(b)
        .collect(),
    );
    assert!(alike(&unit.mul(&m, &Floats), &m));
    assert!(alike(&m.mul(&unit, &Floats), &m));

    // Zero times infinity is no number, so an infinite entry spoils its
    // row and its column.
    let mut wild = unit.clone();
    wild.set(0, 1, b(f64::INFINITY));
    assert!(f(Floats.times(b(0.0), b(f64::INFINITY))).is_nan());
    assert!(!alike(&unit.mul(&wild, &Floats), &wild));
    assert!(!alike(&wild.mul(&unit, &Floats), &wild));
}
