//! Matrices as grids of entries: how the entries are laid out and read, and
//! the operations that only move entries about. What is computed with the
//! entries is the caller's business: the entries are of any type.
use crate::math::layout::{cell_index, lemma_cell_index};
use vstd::prelude::*;

pub mod algebra;
pub mod neutral;
pub mod text;
pub mod transform;

verus! {

/// The row or column of the matrix that takes the place of row or column
/// `i` once `struck` has been struck out.
pub open spec fn skip_over(i: int, struck: int) -> int {
    if i < struck {
        i
    } else {
        i + 1
    }
}

/// A matrix of `height` rows and `width` columns, stored row after row.
#[derive(Debug, PartialEq)]
pub struct Matrix<T> {
    data: Vec<T>,
    width: usize,
    height: usize,
}

impl<T> View for Matrix<T> {
    type V = Seq<T>;

    /// The entries, row after row, each row from left to right.
    closed spec fn view(&self) -> Seq<T> {
        self.data@
    }
}

/// One row or one column of a matrix: every `stride`th entry of a stretch of
/// the matrix, `count` of them.
pub struct Ref<'a, T> {
    data: &'a [T],
    stride: usize,
    count: usize,
}

impl<'a, T> View for Ref<'a, T> {
    type V = Seq<T>;

    /// The entries of the row or column, in order.
    closed spec fn view(&self) -> Seq<T> {
        Seq::new(self.count as nat, |i: int| self.data@[i * self.stride])
    }
}

impl<'a, T> Ref<'a, T> {
    /// Kept by every row and column: its last entry lies inside the
    /// stretch.
    #[verifier::type_invariant]
    spec fn in_reach(self) -> bool {
        self.count == 0 || (self.count - 1) * self.stride < self.data@.len()
    }

    /// The number of entries.
    pub fn len(&self) -> (n: usize)
        ensures
            n == self@.len(),
    {
        self.count
    }
}

impl<'a, T: Copy> Ref<'a, T> {
    /// The entries, in order, as a list of their own.
    pub fn iter(&self) -> (entries: Vec<T>)
        ensures
            entries@ == self@,
    {
        let mut entries: Vec<T> = Vec::new();
        let mut i: usize = 0;
        while i < self.count
            invariant
                i <= self.count,
                entries.len() == i,
                forall|j: int| 0 <= j < i ==> entries@[j] == #[trigger] self@[j],
            decreases self.count - i,
        {
            entries.push(self[i]);
            i += 1;
        }
        proof {
            assert(entries@ =~= self@);
        }
        entries
    }
}

impl<'a, T> core::ops::Index<usize> for Ref<'a, T> {
    type Output = T;

    /// Entry `index` of the row or column.
    fn index(&self, index: usize) -> (entry: &T)
        ensures
            *entry == self@[index as int],
    {
        let reach = self.data.len();
        proof {
            use_type_invariant(self);
            assert(0 <= index * self.stride <= (self.count - 1) * self.stride) by (nonlinear_arith)
                requires
                    0 <= index <= self.count - 1,
                    self.stride >= 0,
            ;
            assert(index * self.stride < reach);
        }
        &self.data[index * self.stride]
    }
}

impl<'a, T> vstd::std_specs::core::IndexSpecImpl<usize> for Ref<'a, T> {
    /// An entry can be read where the row or column has it.
    open spec fn index_req(&self, index: &usize) -> bool {
        *index < self@.len()
    }
}

impl<T> Matrix<T> {
    /// Kept by every matrix: it holds as many entries as its width and
    /// height say.
    #[verifier::type_invariant]
    spec fn all_entries_stored(self) -> bool {
        self.data.len() == self.width * self.height
    }

    /// The number of columns.
    pub closed spec fn spec_width(&self) -> int {
        self.width as int
    }

    /// The number of rows.
    pub closed spec fn spec_height(&self) -> int {
        self.height as int
    }

    /// Whether the matrix holds every one of its entries.
    pub open spec fn wf(&self) -> bool {
        self@.len() == self.spec_width() * self.spec_height()
    }

    /// The entry in row `row` and column `col`.
    pub open spec fn spec_at(&self, row: int, col: int) -> T {
        self@[cell_index(self.spec_width(), col, row)]
    }

    /// Row `row`, from left to right.
    pub open spec fn spec_row(&self, row: int) -> Seq<T> {
        Seq::new(self.spec_width() as nat, |col: int| self.spec_at(row, col))
    }

    /// Column `col`, from top to bottom.
    pub open spec fn spec_col(&self, col: int) -> Seq<T> {
        Seq::new(self.spec_height() as nat, |row: int| self.spec_at(row, col))
    }

    /// The number of columns.
    pub fn width(&self) -> (w: usize)
        ensures
            w == self.spec_width(),
    {
        self.width
    }

    /// The number of rows.
    pub fn height(&self) -> (h: usize)
        ensures
            h == self.spec_height(),
    {
        self.height
    }

    /// The matrix of the given size whose entries are `data`, row after row.
    pub fn new_with_data(width: usize, height: usize, data: Vec<T>) -> (m: Self)
        requires
            width * height == data.len(),
        ensures
            m.spec_width() == width,
            m.spec_height() == height,
            m@ == data@,
            m.wf(),
    {
        Matrix { width, height, data }
    }

    /// The place of the entry in row `row` and column `col` of a matrix
    /// `width` wide.
    fn make_index(width: usize, col: usize, row: usize) -> (i: usize)
        requires
            width * row + col <= usize::MAX,
        ensures
            i == cell_index(width as int, col as int, row as int),
    {
        assert(width * row <= width * row + col) by (nonlinear_arith)
            requires
                col >= 0,
        ;
        (width * row) + col
    }

    /// The matrix of the given size whose entry in row `row` and column
    /// `col` is what `entry` gives for them. The entries are asked for row
    /// after row.
    pub fn from_fn<F: Fn(usize, usize) -> T>(width: usize, height: usize, entry: F) -> (m: Self)
        requires
            width * height <= usize::MAX,
            forall|row: usize, col: usize|
                row < height && col < width ==> call_requires(entry, (row, col)),
        ensures
            m.spec_width() == width,
            m.spec_height() == height,
            m.wf(),
            forall|row: usize, col: usize|
                row < height && col < width ==> call_ensures(
                    entry,
                    (row, col),
                    #[trigger] m.spec_at(row as int, col as int),
                ),
    {
        let mut data: Vec<T> = Vec::new();
        let mut row: usize = 0;
        let ghost w = width as int;
        while row < height
            invariant
                row <= height,
                w == width,
                width * height <= usize::MAX,
                data.len() == width * row,
                forall|r: usize, c: usize|
                    r < height && c < width ==> call_requires(entry, (r, c)),
                forall|r: usize, c: usize|
                    r < row && c < width ==> call_ensures(
                        entry,
                        (r, c),
                        data@[#[trigger] cell_index(w, c as int, r as int)],
                    ),
            decreases height - row,
        {
            let mut col: usize = 0;
            while col < width
                invariant
                    row < height,
                    col <= width,
                    w == width,
                    width * height <= usize::MAX,
                    data.len() == width * row + col,
                    forall|r: usize, c: usize|
                        r < height && c < width ==> call_requires(entry, (r, c)),
                    forall|r: usize, c: usize|
                        (r < row && c < width) || (r == row && c < col) ==> call_ensures(
                            entry,
                            (r, c),
                            data@[#[trigger] cell_index(w, c as int, r as int)],
                        ),
                decreases width - col,
            {
                let value = entry(row, col);
                let ghost before = data@;
                data.push(value);
                proof {
                    assert forall|r: usize, c: usize|
                        (r < row && c < width) || (r == row && c < col + 1) implies call_ensures(
                        entry,
                        (r, c),
                        data@[#[trigger] cell_index(w, c as int, r as int)],
                    ) by {
                        if r == row && c == col {
                        } else {
                            lemma_cell_index(w, row + 1, c as int, r as int);
                            if r < row {
                                lemma_cell_index(w, row as int, c as int, r as int);
                            }
                            assert(data@[cell_index(w, c as int, r as int)] == before[cell_index(
                                w,
                                c as int,
                                r as int,
                            )]);
                        }
                    }
                }
                col += 1;
            }
            proof {
                assert(width * row + width == width * (row + 1)) by (nonlinear_arith);
            }
            row += 1;
        }
        Matrix { width, height, data }
    }

    /// Puts `value` into row `row` and column `col`. No other entry changes.
    pub fn set(&mut self, row: usize, col: usize, value: T)
        requires
            row < old(self).spec_height(),
            col < old(self).spec_width(),
        ensures
            final(self).spec_width() == old(self).spec_width(),
            final(self).spec_height() == old(self).spec_height(),
            final(self)@ == old(self)@.update(
                cell_index(old(self).spec_width(), col as int, row as int),
                value,
            ),
            final(self).wf(),
    {
        proof {
            use_type_invariant(&*self);
            lemma_cell_index(self.width as int, self.height as int, col as int, row as int);
        }
        let i = Self::make_index(self.width, col, row);
        self.data[i] = value;
    }

    /// Column `col`, from top to bottom.
    pub fn col(&self, col: usize) -> (column: Ref<'_, T>)
        requires
            col < self.spec_width(),
            self.spec_height() > 0 || col == 0,
        ensures
            column@ == self.spec_col(col as int),
    {
        proof {
            use_type_invariant(self);
            if self.height > 0 {
                lemma_cell_index(self.width as int, self.height as int, col as int, self.height - 1);
                assert((self.height - 1) * self.width == self.width * (self.height - 1))
                    by (nonlinear_arith);
            }
        }
        let all: &[T] = self.data.as_slice();
        let column = Ref { data: &all[col..all.len()], stride: self.width, count: self.height };
        proof {
            assert forall|i: int| 0 <= i < self.height implies column@[i] == self.spec_at(
                i,
                col as int,
            ) by {
                lemma_cell_index(self.width as int, self.height as int, col as int, i);
                assert(i * self.width == self.width * i) by (nonlinear_arith);
            }
            assert(column@ =~= self.spec_col(col as int));
        }
        column
    }

    /// Row `row`, from left to right.
    pub fn row(&self, row: usize) -> (entries: Ref<'_, T>)
        requires
            row < self.spec_height() || self.spec_width() == 0,
        ensures
            entries@ == self.spec_row(row as int),
    {
        proof {
            use_type_invariant(self);
            if self.width > 0 {
                lemma_cell_index(self.width as int, self.height as int, self.width - 1, row as int);
            } else {
                assert(self.width * row == 0) by (nonlinear_arith)
                    requires
                        self.width == 0,
                ;
            }
        }
        let start = self.width * row;
        let all: &[T] = self.data.as_slice();
        let entries = Ref { data: &all[start..start + self.width], stride: 1, count: self.width };
        proof {
            assert(entries@ =~= self.spec_row(row as int));
        }
        entries
    }
}

impl<T: Copy> Matrix<T> {
    /// The matrix of the given size with the default value of the entry type
    /// in every place.
    pub fn new(width: usize, height: usize) -> (m: Self) where T: Default
        requires
            width * height <= usize::MAX,
        ensures
            m.spec_width() == width,
            m.spec_height() == height,
            m.wf(),
            exists|zero: T|
                call_ensures(T::default, (), zero) && m@ == Seq::new(
                    (width * height) as nat,
                    |i: int| zero,
                ),
    {
        let zero = T::default();
        let n: usize = width * height;
        let mut data: Vec<T> = Vec::new();
        let mut i: usize = 0;
        while i < n
            invariant
                i <= n,
                data.len() == i,
                forall|j: int| 0 <= j < i ==> data@[j] == zero,
            decreases n - i,
        {
            data.push(zero);
            i += 1;
        }
        proof {
            assert(call_ensures(T::default, (), zero) && data@ =~= Seq::new(
                (width * height) as nat,
                |i: int| zero,
            ));
        }
        Self::new_with_data(width, height, data)
    }

    /// The transpose of a square matrix: rows and columns change places.
    pub fn transpose(&self) -> (t: Self)
        requires
            self.spec_width() == self.spec_height(),
        ensures
            t.spec_width() == self.spec_width(),
            t.spec_height() == self.spec_height(),
            t.wf(),
            forall|row: int, col: int|
                0 <= row < self.spec_height() && 0 <= col < self.spec_width() ==> #[trigger] t.spec_at(
                    row,
                    col,
                ) == self.spec_at(col, row),
    {
        proof {
            use_type_invariant(self);
        }
        let width = self.width;
        let height = self.height;
        let t = Self::from_fn(
            width,
            height,
            |row: usize, col: usize| -> (entry: T)
                requires
                    row < height,
                    col < width,
                    width == height,
                    width == self.spec_width(),
                    height == self.spec_height(),
                ensures
                    self.spec_at(col as int, row as int) == entry
                {
                    self[(col, row)]
                },
        );
        proof {
            assert forall|row: int, col: int|
                0 <= row < self.spec_height() && 0 <= col < self.spec_width() implies #[trigger] t.spec_at(
                row,
                col,
            ) == self.spec_at(col, row) by {
                assert(t.spec_at(row as usize as int, col as usize as int) == self.spec_at(col, row));
            }
        }
        t
    }

    /// The matrix without row `row` and column `col`: the entries that are
    /// left keep their order.
    pub fn submatrix(&self, row: usize, col: usize) -> (sub: Self)
        requires
            row < self.spec_height(),
            col < self.spec_width(),
        ensures
            sub.spec_width() == self.spec_width() - 1,
            sub.spec_height() == self.spec_height() - 1,
            sub.wf(),
            forall|i: int, j: int|
                0 <= i < self.spec_height() - 1 && 0 <= j < self.spec_width() - 1 ==> #[trigger] sub.spec_at(
                    i,
                    j,
                ) == self.spec_at(skip_over(i, row as int), skip_over(j, col as int)),
    {
        proof {
            use_type_invariant(self);
            assert((self.width - 1) * (self.height - 1) <= self.width * self.height)
                by (nonlinear_arith)
                requires
                    self.width >= 1,
                    self.height >= 1,
            ;
        }
        let width = self.width - 1;
        let height = self.height - 1;
        let sub = Self::from_fn(
            width,
            height,
            |i: usize, j: usize| -> (entry: T)
                requires
                    i < height,
                    j < width,
                    width == self.spec_width() - 1,
                    height == self.spec_height() - 1,
                ensures
                    self.spec_at(skip_over(i as int, row as int), skip_over(j as int, col as int))
                        == entry
                {
                    let r = if i < row { i } else { i + 1 };
                    let c = if j < col { j } else { j + 1 };
                    self[(r, c)]
                },
        );
        proof {
            assert forall|i: int, j: int|
                0 <= i < self.spec_height() - 1 && 0 <= j < self.spec_width() - 1 implies #[trigger] sub.spec_at(
                i,
                j,
            ) == self.spec_at(skip_over(i, row as int), skip_over(j, col as int)) by {
                assert(sub.spec_at(i as usize as int, j as usize as int) == self.spec_at(
                    skip_over(i, row as int),
                    skip_over(j, col as int),
                ));
            }
        }
        sub
    }
}

impl<T: Clone> Clone for Matrix<T> {
    /// A matrix of the same size whose entries are clones of the entries.
    fn clone(&self) -> (copy: Self)
        ensures
            copy.spec_width() == self.spec_width(),
            copy.spec_height() == self.spec_height(),
            copy@.len() == self@.len(),
            forall|i: int| 0 <= i < self@.len() ==> cloned(#[trigger] self@[i], copy@[i]),
    {
        proof {
            use_type_invariant(self);
        }
        Matrix { width: self.width, height: self.height, data: self.data.clone() }
    }
}

impl<T> core::ops::Index<(usize, usize)> for Matrix<T> {
    type Output = T;

    /// The entry in row `index.0` and column `index.1`.
    fn index(&self, index: (usize, usize)) -> (entry: &T)
        ensures
            *entry == self.spec_at(index.0 as int, index.1 as int),
    {
        proof {
            use_type_invariant(self);
            lemma_cell_index(self.width as int, self.height as int, index.1 as int, index.0 as int);
        }
        &self.data[Self::make_index(self.width, index.1, index.0)]
    }
}

impl<T> vstd::std_specs::core::IndexSpecImpl<(usize, usize)> for Matrix<T> {
    /// An entry can be read where its row and its column are in the matrix.
    open spec fn index_req(&self, index: &(usize, usize)) -> bool {
        index.0 < self.spec_height() && index.1 < self.spec_width()
    }
}

impl<T> core::ops::Index<usize> for Matrix<T> {
    type Output = T;

    /// Entry `index`, counting row after row.
    fn index(&self, index: usize) -> (entry: &T)
        ensures
            *entry == self@[index as int],
    {
        &self.data[index]
    }
}

impl<T> vstd::std_specs::core::IndexSpecImpl<usize> for Matrix<T> {
    /// An entry can be read where the matrix has it.
    open spec fn index_req(&self, index: &usize) -> bool {
        *index < self@.len()
    }
}

/// Transposing a square matrix twice gives the matrix back.
pub proof fn lemma_transpose_twice<T>(m: Matrix<T>, once: Matrix<T>, twice: Matrix<T>)
    requires
        m.wf(),
        once.wf(),
        twice.wf(),
        m.spec_width() == m.spec_height(),
        is_transpose_of(once, m),
        is_transpose_of(twice, once),
    ensures
        twice@ == m@,
{
    let n = m.spec_width();
    assert forall|i: int| 0 <= i < m@.len() implies twice@[i] == m@[i] by {
        assert(n > 0) by (nonlinear_arith)
            requires
                0 <= i < n * n,
                n >= 0,
        ;
        vstd::arithmetic::div_mod::lemma_fundamental_div_mod(i, n);
        vstd::arithmetic::div_mod::lemma_mod_bound(i, n);
        vstd::arithmetic::div_mod::lemma_div_pos_is_pos(i, n);
        assert(i / n < n) by (nonlinear_arith)
            requires
                i == n * (i / n) + i % n,
                0 <= i % n < n,
                i < n * n,
                n > 0,
        ;
        let row = i / n;
        let col = i % n;
        assert(cell_index(n, col, row) == i);
        assert(twice.spec_at(row, col) == once.spec_at(col, row));
        assert(once.spec_at(col, row) == m.spec_at(row, col));
    }
    assert(twice@ =~= m@);
}

/// Whether `t` is the transpose of the square matrix `m`.
pub open spec fn is_transpose_of<T>(t: Matrix<T>, m: Matrix<T>) -> bool {
    &&& t.spec_width() == m.spec_width()
    &&& t.spec_height() == m.spec_height()
    &&& forall|row: int, col: int|
        0 <= row < m.spec_height() && 0 <= col < m.spec_width() ==> #[trigger] t.spec_at(row, col)
            == m.spec_at(col, row)
}

/// A square matrix that is symmetric about its diagonal is its own
/// transpose. The identity matrix is one such.
pub proof fn lemma_transpose_symmetric<T>(m: Matrix<T>, t: Matrix<T>)
    requires
        m.wf(),
        t.wf(),
        m.spec_width() == m.spec_height(),
        is_transpose_of(t, m),
        forall|row: int, col: int|
            0 <= row < m.spec_height() && 0 <= col < m.spec_width() ==> #[trigger] m.spec_at(row, col)
                == m.spec_at(col, row),
    ensures
        t@ == m@,
{
    let n = m.spec_width();
    assert forall|i: int| 0 <= i < m@.len() implies t@[i] == m@[i] by {
        assert(n > 0) by (nonlinear_arith)
            requires
                0 <= i < n * n,
                n >= 0,
        ;
        vstd::arithmetic::div_mod::lemma_fundamental_div_mod(i, n);
        vstd::arithmetic::div_mod::lemma_mod_bound(i, n);
        vstd::arithmetic::div_mod::lemma_div_pos_is_pos(i, n);
        assert(i / n < n) by (nonlinear_arith)
            requires
                i == n * (i / n) + i % n,
                0 <= i % n < n,
                i < n * n,
                n > 0,
        ;
        let row = i / n;
        let col = i % n;
        assert(cell_index(n, col, row) == i);
        assert(t.spec_at(row, col) == m.spec_at(col, row));
        assert(m.spec_at(row, col) == m.spec_at(col, row));
    }
    assert(t@ =~= m@);
}

} // verus!
