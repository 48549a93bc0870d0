//! What is computed with the entries of a matrix: products, determinants
//! and inverses.
//!
//! The entries are of any type, and the arithmetic on them is the caller's:
//! it is handed in as an [`Arithmetic`]. What stands here is which entries
//! are combined with which, and in what order the caller's arithmetic is
//! asked; the contracts say what comes out in terms of what that arithmetic
//! answers, whatever it answers.
use super::{skip_over, Matrix};
use crate::math::arithmetic::{
    dot, dot_of, functional, is_dot, lemma_sum_of_products, pairs, Arithmetic,
};
use crate::math::tuple::Tuple;
use crate::math::layout::{cell_index, lemma_cell_index};
use vstd::prelude::*;

verus! {

/// Whether `c` can be `value` with the sign it has in a cofactor: changed
/// where `odd` holds, kept where it does not.
pub open spec fn is_signed<T, A: Arithmetic<T>>(arith: &A, value: T, odd: bool, c: T) -> bool {
    if odd {
        call_ensures(A::negate, (arith, value), c)
    } else {
        c == value
    }
}

/// Whether `d` can be the determinant of the two by two matrix with the
/// given entries: `e[0] * e[3] - e[1] * e[2]`.
pub open spec fn is_det2<T, A: Arithmetic<T>>(arith: &A, e: Seq<T>, d: T) -> bool {
    exists|ad: T, bc: T|
        call_ensures(A::times, (arith, e[0], e[3]), ad) && call_ensures(
            A::times,
            (arith, e[1], e[2]),
            bc,
        ) && #[trigger] call_ensures(A::minus, (arith, ad, bc), d)
}

/// The entries of a square matrix of `n` rows without row `row` and column
/// `col`.
pub open spec fn struck<T>(entries: Seq<T>, n: int, row: int, col: int) -> Seq<T> {
    Seq::new(
        ((n - 1) * (n - 1)) as nat,
        |i: int|
            entries[cell_index(n, skip_over(i % (n - 1), col), skip_over(i / (n - 1), row))],
    )
}

/// Whether the cofactors of the first row can be `cofactors`, given the
/// minors, and `d` the sum of the products of the first row with them.
pub open spec fn is_expansion<T, A: Arithmetic<T>>(
    arith: &A,
    entries: Seq<T>,
    n: nat,
    minors: Seq<T>,
    cofactors: Seq<T>,
    d: T,
) -> bool {
    &&& minors.len() == n
    &&& cofactors.len() == n
    &&& forall|col: int|
        0 <= col < n ==> is_signed(arith, minors[col], col % 2 == 1, #[trigger] cofactors[col])
    &&& is_dot(arith, entries.take(n as int), cofactors, d)
}

/// Whether `d` can be the determinant of the square matrix of `n` rows with
/// the given entries. For two rows that is the difference of the products
/// of the diagonals. Otherwise the matrix is expanded along its first row:
/// the minor of an entry is the determinant of the matrix without the
/// entry's row and column, its cofactor is the minor, with the sign changed
/// in the odd columns, and the determinant is the sum of the products of
/// the entries of the first row with their cofactors.
pub open spec fn is_determinant<T, A: Arithmetic<T>>(arith: &A, entries: Seq<T>, n: nat, d: T) -> bool
    decreases n,
{
    if n == 2 {
        is_det2(arith, entries, d)
    } else {
        exists|minors: Seq<T>, cofactors: Seq<T>|
            {
                &&& #[trigger] is_expansion(arith, entries, n, minors, cofactors, d)
                &&& forall|col: int|
                    0 <= col < n ==> is_determinant(
                        arith,
                        struck(entries, n as int, 0, col),
                        (n - 1) as nat,
                        #[trigger] minors[col],
                    )
            }
    }
}

/// Whether `m` can be the minor of the entry in row `row` and column `col`:
/// the determinant of the matrix without that row and column.
pub open spec fn is_minor<T, A: Arithmetic<T>>(
    arith: &A,
    entries: Seq<T>,
    n: nat,
    row: int,
    col: int,
    m: T,
) -> bool {
    is_determinant(arith, struck(entries, n as int, row, col), (n - 1) as nat, m)
}

/// Whether `c` can be the cofactor of the entry in row `row` and column
/// `col`: its minor, with the sign changed where row and column add up to
/// an odd number.
pub open spec fn is_cofactor<T, A: Arithmetic<T>>(
    arith: &A,
    entries: Seq<T>,
    n: nat,
    row: int,
    col: int,
    c: T,
) -> bool {
    exists|m: T|
        #[trigger] is_minor(arith, entries, n, row, col, m) && is_signed(
            arith,
            m,
            (row + col) % 2 == 1,
            c,
        )
}

/// Whether `q` can be the entry of the inverse that stands in row `col` and
/// column `row`: the cofactor of the entry in row `row` and column `col`,
/// divided by the determinant `d`.
pub open spec fn is_inverse_entry<T, A: Arithmetic<T>>(
    arith: &A,
    entries: Seq<T>,
    n: nat,
    row: int,
    col: int,
    d: T,
    q: T,
) -> bool {
    exists|c: T|
        #[trigger] is_cofactor(arith, entries, n, row, col, c) && call_ensures(
            A::over,
            (arith, c, d),
            q,
        )
}

/// Whether `image` can be what the matrix makes of `tuple`: each component
/// the sum of products of the tuple with one of the first four rows.
pub open spec fn is_image<T, A: Arithmetic<T>>(
    arith: &A,
    m: Matrix<T>,
    tuple: Tuple<T>,
    image: Tuple<T>,
) -> bool {
    &&& is_dot(arith, tuple@, m.spec_row(0), image.x)
    &&& is_dot(arith, tuple@, m.spec_row(1), image.y)
    &&& is_dot(arith, tuple@, m.spec_row(2), image.z)
    &&& is_dot(arith, tuple@, m.spec_row(3), image.w)
}

/// What the matrix makes of `tuple`, where the arithmetic answers in one
/// way only.
pub open spec fn image_of<T, A: Arithmetic<T>>(arith: &A, m: Matrix<T>, tuple: Tuple<T>) -> Tuple<T> {
    Tuple {
        x: dot_of(arith, tuple@, m.spec_row(0)),
        y: dot_of(arith, tuple@, m.spec_row(1)),
        z: dot_of(arith, tuple@, m.spec_row(2)),
        w: dot_of(arith, tuple@, m.spec_row(3)),
    }
}

/// Whether `product` can be the product of two matrices of one size: each
/// entry the sum of products of a row of `left` with a column of `right`.
pub open spec fn product_with<T, A: Arithmetic<T>>(
    arith: &A,
    left: Matrix<T>,
    right: Matrix<T>,
    product: Matrix<T>,
) -> bool {
    &&& product.spec_width() == left.spec_width()
    &&& product.spec_height() == left.spec_height()
    &&& product.wf()
    &&& forall|row: int, col: int|
        0 <= row < left.spec_height() && 0 <= col < left.spec_width() ==> is_dot(
            arith,
            left.spec_row(row),
            right.spec_col(col),
            #[trigger] product.spec_at(row, col),
        )
}

/// Whether `inverse` can be what inverting the square matrix `m` gives:
/// nothing where the determinant is zero, else the matrix whose entry in
/// row `col` and column `row` is the cofactor of the entry in row `row`
/// and column `col` of `m`, divided by the determinant.
pub open spec fn is_inverse<T, A: Arithmetic<T>>(
    arith: &A,
    m: Matrix<T>,
    inverse: Option<Matrix<T>>,
) -> bool {
    exists|d: T|
        #[trigger] is_determinant(arith, m@, m.spec_width() as nat, d) && match inverse {
            None => call_ensures(A::is_zero, (arith, d), true),
            Some(inv) => {
                &&& call_ensures(A::is_zero, (arith, d), false)
                &&& inv.spec_width() == m.spec_width()
                &&& inv.spec_height() == m.spec_height()
                &&& inv.wf()
                &&& forall|row: int, col: int|
                    0 <= row < m.spec_height() && 0 <= col < m.spec_width() ==> is_inverse_entry(
                        arith,
                        m@,
                        m.spec_width() as nat,
                        row,
                        col,
                        d,
                        #[trigger] inv.spec_at(col, row),
                    )
            },
        }
}

/// Whether the square matrix can be inverted whatever the arithmetic
/// answers: zero is no determinant of it.
pub open spec fn invertible<T, A: Arithmetic<T>>(arith: &A, m: Matrix<T>) -> bool {
    !is_inverse(arith, m, None)
}

/// Under an arithmetic that answers in one way only, a matrix has one
/// determinant.
pub proof fn lemma_determinant_unique<T, A: Arithmetic<T>>(
    arith: &A,
    entries: Seq<T>,
    n: nat,
    d1: T,
    d2: T,
)
    requires
        functional(arith),
        is_determinant(arith, entries, n, d1),
        is_determinant(arith, entries, n, d2),
    ensures
        d1 == d2,
    decreases n,
{
    if n == 2 {
        let (a1, b1) = choose|ad: T, bc: T|
            call_ensures(A::times, (arith, entries[0], entries[3]), ad) && call_ensures(
                A::times,
                (arith, entries[1], entries[2]),
                bc,
            ) && #[trigger] call_ensures(A::minus, (arith, ad, bc), d1);
        let (a2, b2) = choose|ad: T, bc: T|
            call_ensures(A::times, (arith, entries[0], entries[3]), ad) && call_ensures(
                A::times,
                (arith, entries[1], entries[2]),
                bc,
            ) && #[trigger] call_ensures(A::minus, (arith, ad, bc), d2);
        assert(a1 == a2 && b1 == b2);
    } else {
        let (m1, c1) = choose|minors: Seq<T>, cofactors: Seq<T>|
            {
                &&& #[trigger] is_expansion(arith, entries, n, minors, cofactors, d1)
                &&& forall|col: int|
                    0 <= col < n ==> is_determinant(
                        arith,
                        struck(entries, n as int, 0, col),
                        (n - 1) as nat,
                        #[trigger] minors[col],
                    )
            };
        let (m2, c2) = choose|minors: Seq<T>, cofactors: Seq<T>|
            {
                &&& #[trigger] is_expansion(arith, entries, n, minors, cofactors, d2)
                &&& forall|col: int|
                    0 <= col < n ==> is_determinant(
                        arith,
                        struck(entries, n as int, 0, col),
                        (n - 1) as nat,
                        #[trigger] minors[col],
                    )
            };
        assert forall|col: int| 0 <= col < n implies c1[col] == c2[col] by {
            lemma_determinant_unique(
                arith,
                struck(entries, n as int, 0, col),
                (n - 1) as nat,
                m1[col],
                m2[col],
            );
            assert(is_signed(arith, m1[col], col % 2 == 1, c1[col]));
            assert(is_signed(arith, m2[col], col % 2 == 1, c2[col]));
        }
        assert(c1 =~= c2);
        let row = entries.take(n as int);
        lemma_sum_of_products(arith, row, c1, pairs(row, c1), d1);
        lemma_sum_of_products(arith, row, c2, pairs(row, c2), d2);
    }
}

/// Under an arithmetic that answers in one way only, a matrix that was
/// found to have a determinant other than zero can be inverted, and one
/// that was found to have the determinant zero cannot.
pub proof fn lemma_invertible<T, A: Arithmetic<T>>(arith: &A, m: Matrix<T>, d: T, zero: bool)
    requires
        functional(arith),
        is_determinant(arith, m@, m.spec_width() as nat, d),
        call_ensures(A::is_zero, (arith, d), zero),
    ensures
        zero <==> !invertible(arith, m),
{
    if !invertible(arith, m) {
        let d2 = choose|d2: T|
            #[trigger] is_determinant(arith, m@, m.spec_width() as nat, d2) && call_ensures(
                A::is_zero,
                (arith, d2),
                true,
            );
        lemma_determinant_unique(arith, m@, m.spec_width() as nat, d, d2);
    }
    if zero {
        assert(is_determinant(arith, m@, m.spec_width() as nat, d) && call_ensures(
            A::is_zero,
            (arith, d),
            true,
        ));
    }
}

/// The matrix without a row and a column holds the entries that `struck`
/// names.
proof fn lemma_struck<T>(whole: Matrix<T>, sub: Matrix<T>, row: int, col: int)
    requires
        whole.spec_width() == whole.spec_height(),
        0 <= row < whole.spec_height(),
        0 <= col < whole.spec_width(),
        sub.wf(),
        sub.spec_width() == whole.spec_width() - 1,
        sub.spec_height() == whole.spec_height() - 1,
        forall|i: int, j: int|
            0 <= i < whole.spec_height() - 1 && 0 <= j < whole.spec_width() - 1
                ==> #[trigger] sub.spec_at(i, j) == whole.spec_at(
                skip_over(i, row),
                skip_over(j, col),
            ),
    ensures
        sub@ == struck(whole@, whole.spec_width(), row, col),
{
    let n = whole.spec_width();
    let m = n - 1;
    let want = struck(whole@, n, row, col);
    assert(sub@.len() == m * m);
    assert forall|p: int| 0 <= p < sub@.len() implies sub@[p] == want[p] by {
        assert(m > 0) by (nonlinear_arith)
            requires
                0 <= p < m * m,
                m >= 0,
        ;
        vstd::arithmetic::div_mod::lemma_fundamental_div_mod(p, m);
        vstd::arithmetic::div_mod::lemma_mod_bound(p, m);
        vstd::arithmetic::div_mod::lemma_div_pos_is_pos(p, m);
        assert(p / m < m) by (nonlinear_arith)
            requires
                p == m * (p / m) + p % m,
                0 <= p % m < m,
                p < m * m,
                m > 0,
        ;
        assert(cell_index(m, p % m, p / m) == p);
        assert(sub.spec_at(p / m, p % m) == whole.spec_at(
            skip_over(p / m, row),
            skip_over(p % m, col),
        ));
    }
    assert(sub@ =~= want);
}

impl<T: Copy> Matrix<T> {
    /// The product of two matrices of one size: the entry in row `row` and
    /// column `col` is the sum of products of row `row` of this matrix
    /// with column `col` of `rhs`.
    pub fn mul<A: Arithmetic<T>>(&self, rhs: &Self, arith: &A) -> (product: Self)
        requires
            self.spec_width() == rhs.spec_width(),
            self.spec_height() == rhs.spec_height(),
        ensures
            product_with(arith, *self, *rhs, product),
    {
        let width = self.width();
        let height = self.height();
        proof {
            use_type_invariant(self);
        }
        let product = Self::from_fn(
            width,
            height,
            |row: usize, col: usize| -> (entry: T)
                requires
                    row < height,
                    col < width,
                    width == self.spec_width(),
                    height == self.spec_height(),
                    width == rhs.spec_width(),
                    height == rhs.spec_height(),
                ensures
                    is_dot(arith, self.spec_row(row as int), rhs.spec_col(col as int), entry)
                {
                    let left = self.row(row).iter();
                    let right = rhs.col(col).iter();
                    dot(&left, &right, arith)
                },
        );
        proof {
            assert forall|row: int, col: int|
                0 <= row < self.spec_height() && 0 <= col < self.spec_width() implies is_dot(
                arith,
                self.spec_row(row),
                rhs.spec_col(col),
                #[trigger] product.spec_at(row, col),
            ) by {
                let e = product.spec_at(row as usize as int, col as usize as int);
                assert(is_dot(arith, self.spec_row(row), rhs.spec_col(col), e));
            }
        }
        product
    }

    /// The matrix applied to a tuple: each component of the result is the
    /// sum of products of the tuple with one of the first four rows.
    pub fn mul_tuple<A: Arithmetic<T>>(&self, tuple: &Tuple<T>, arith: &A) -> (image: Tuple<T>)
        requires
            self.spec_height() == 4,
        ensures
            is_image(arith, *self, *tuple, image),
            functional(arith) ==> image == image_of(arith, *self, *tuple),
    {
        let t = tuple.components();
        let r0 = self.row(0).iter();
        let r1 = self.row(1).iter();
        let r2 = self.row(2).iter();
        let r3 = self.row(3).iter();
        Tuple {
            x: dot(&t, &r0, arith),
            y: dot(&t, &r1, arith),
            z: dot(&t, &r2, arith),
            w: dot(&t, &r3, arith),
        }
    }
}

impl<T: Copy> Matrix<T> {
    /// The determinant of a square matrix.
    pub fn determinate<A: Arithmetic<T>>(&self, arith: &A) -> (d: T)
        requires
            self.spec_width() == self.spec_height(),
        ensures
            is_determinant(arith, self@, self.spec_width() as nat, d),
        decreases self.spec_width(), 2int,
    {
        proof {
            use_type_invariant(self);
        }
        let n = self.width();
        proof {
            assert(self@.len() == n * n);
            assert(n * n >= n) by (nonlinear_arith)
                requires
                    n >= 0,
            ;
        }
        if n == 2 {
            let ad = arith.times(self[0], self[3]);
            let bc = arith.times(self[1], self[2]);
            let d = arith.minus(ad, bc);
            proof {
                assert(call_ensures(A::minus, (arith, ad, bc), d));
                assert(is_det2(arith, self@, d));
            }
            d
        } else {
            let mut cofactors: Vec<T> = Vec::new();
            let ghost mut minors: Seq<T> = Seq::empty();
            let mut col: usize = 0;
            while col < n
                invariant
                    col <= n,
                    n == self.spec_width(),
                    n == self.spec_height(),
                    cofactors.len() == col,
                    minors.len() == col,
                    forall|c: int|
                        0 <= c < col ==> is_determinant(
                            arith,
                            struck(self@, n as int, 0, c),
                            (n - 1) as nat,
                            #[trigger] minors[c],
                        ),
                    forall|c: int|
                        0 <= c < col ==> is_signed(
                            arith,
                            minors[c],
                            c % 2 == 1,
                            #[trigger] cofactors@[c],
                        ),
                decreases n - col,
            {
                let cofactor = self.cofactor(0, col, arith);
                proof {
                    let m = choose|m: T|
                        #[trigger] is_minor(arith, self@, n as nat, 0, col as int, m) && is_signed(
                            arith,
                            m,
                            (0 + col) % 2 == 1,
                            cofactor,
                        );
                    minors = minors.push(m);
                }
                cofactors.push(cofactor);
                col += 1;
            }
            let first = self.row(0).iter();
            let d = dot(&first, &cofactors, arith);
            proof {
                assert(first@ =~= self@.take(n as int)) by {
                    assert forall|c: int| 0 <= c < n implies first@[c] == self@[c] by {
                        assert(cell_index(n as int, c, 0) == c);
                    }
                    if n > 0 {
                        lemma_cell_index(n as int, n as int, n - 1, 0);
                    }
                }
                assert(is_dot(arith, self@.take(n as int), cofactors@, d));
                assert(is_expansion(arith, self@, n as nat, minors, cofactors@, d));
            }
            d
        }
    }

    /// The minor of the entry in row `row` and column `col` of a square
    /// matrix: the determinant of the matrix without that row and column.
    pub fn minor<A: Arithmetic<T>>(&self, row: usize, col: usize, arith: &A) -> (m: T)
        requires
            self.spec_width() == self.spec_height(),
            row < self.spec_height(),
            col < self.spec_width(),
        ensures
            is_minor(arith, self@, self.spec_width() as nat, row as int, col as int, m),
        decreases self.spec_width(), 0int,
    {
        let sub = self.submatrix(row, col);
        proof {
            lemma_struck(*self, sub, row as int, col as int);
        }
        sub.determinate(arith)
    }

    /// The cofactor of the entry in row `row` and column `col` of a square
    /// matrix: its minor, with the sign changed where row and column add up
    /// to an odd number.
    pub fn cofactor<A: Arithmetic<T>>(&self, row: usize, col: usize, arith: &A) -> (c: T)
        requires
            self.spec_width() == self.spec_height(),
            row < self.spec_height(),
            col < self.spec_width(),
        ensures
            is_cofactor(arith, self@, self.spec_width() as nat, row as int, col as int, c),
        decreases self.spec_width(), 1int,
    {
        let minor = self.minor(row, col, arith);
        let odd = row % 2 != col % 2;
        proof {
            assert(odd == ((row + col) % 2 == 1));
        }
        let c = if odd {
            arith.negate(minor)
        } else {
            minor
        };
        proof {
            assert(is_minor(arith, self@, self.spec_width() as nat, row as int, col as int, minor)
                && is_signed(arith, minor, (row + col) % 2 == 1, c));
        }
        c
    }

    /// Whether a square matrix can be inverted: its determinant is not
    /// zero.
    pub fn can_invert<A: Arithmetic<T>>(&self, arith: &A) -> (can: bool)
        requires
            self.spec_width() == self.spec_height(),
        ensures
            exists|d: T|
                #[trigger] is_determinant(arith, self@, self.spec_width() as nat, d) && call_ensures(
                    A::is_zero,
                    (arith, d),
                    !can,
                ),
            functional(arith) ==> (can <==> invertible(arith, *self)),
    {
        let d = self.determinate(arith);
        let zero = arith.is_zero(d);
        proof {
            if functional(arith) {
                lemma_invertible(arith, *self, d, zero);
            }
            assert(is_determinant(arith, self@, self.spec_width() as nat, d) && call_ensures(
                A::is_zero,
                (arith, d),
                zero,
            ));
        }
        !zero
    }

    /// The inverse of a square matrix, where its determinant is not zero.
    /// The entry in row `col` and column `row` of the inverse is the
    /// cofactor of the entry in row `row` and column `col`, divided by the
    /// determinant.
    pub fn inverse<A: Arithmetic<T>>(&self, arith: &A) -> (inverse: Option<Self>)
        requires
            self.spec_width() == self.spec_height(),
        ensures
            is_inverse(arith, *self, inverse),
            invertible(arith, *self) ==> inverse is Some,
            functional(arith) ==> (inverse is Some <==> invertible(arith, *self)),
    {
        proof {
            use_type_invariant(self);
        }
        let determinate = self.determinate(arith);
        let singular = arith.is_zero(determinate);
        proof {
            if functional(arith) {
                lemma_invertible(arith, *self, determinate, singular);
            }
        }
        if singular {
            proof {
                assert(is_determinant(arith, self@, self.spec_width() as nat, determinate)
                    && call_ensures(A::is_zero, (arith, determinate), true));
            }
            return None;
        }
        let n = self.width();
        let inv = Self::from_fn(
            n,
            n,
            |row: usize, col: usize| -> (entry: T)
                requires
                    row < n,
                    col < n,
                    n == self.spec_width(),
                    n == self.spec_height(),
                ensures
                    is_inverse_entry(
                        arith,
                        self@,
                        n as nat,
                        col as int,
                        row as int,
                        determinate,
                        entry,
                    )
                {
                    let cofactor = self.cofactor(col, row, arith);
                    let entry = arith.over(cofactor, determinate);
                    proof {
                        assert(is_cofactor(arith, self@, n as nat, col as int, row as int, cofactor)
                            && call_ensures(A::over, (arith, cofactor, determinate), entry));
                    }
                    entry
                },
        );
        proof {
            assert forall|row: int, col: int|
                0 <= row < self.spec_height() && 0 <= col < self.spec_width() implies is_inverse_entry(
                arith,
                self@,
                self.spec_width() as nat,
                row,
                col,
                determinate,
                #[trigger] inv.spec_at(col, row),
            ) by {
                let e = inv.spec_at(col as usize as int, row as usize as int);
                assert(is_inverse_entry(arith, self@, n as nat, row, col, determinate, e));
            }
            assert(is_determinant(arith, self@, self.spec_width() as nat, determinate));
        }
        Some(inv)
    }
}

impl<T: Copy> Matrix<T> {
    /// The inverse of a square matrix that can be inverted.
    pub(crate) fn inverted<A: Arithmetic<T>>(&self, arith: &A) -> (inverse: Self)
        requires
            self.spec_width() == self.spec_height(),
            invertible(arith, *self),
        ensures
            is_inverse(arith, *self, Some(inverse)),
            inverse.spec_width() == self.spec_width(),
            inverse.spec_height() == self.spec_height(),
    {
        match self.inverse(arith) {
            Some(inverse) => inverse,
            None => vstd::pervasive::unreached(),
        }
    }
}

} // verus!
