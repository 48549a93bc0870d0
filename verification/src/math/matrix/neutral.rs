//! The identity matrix in a product.
//!
//! Multiplying by the identity matrix gives the matrix back, within the
//! tolerance, as long as the arithmetic treats zero and one towards the
//! entries of the matrix as the numbers zero and one: one times an entry is
//! the entry, zero times an entry is a zero, and a zero added to a number
//! leaves the number. Arithmetic in floating point does so for every entry
//! that is finite; an entry that is infinite, or no number, makes no
//! number of zero times itself.
use super::algebra::product_with;
use super::Matrix;
use crate::math::arithmetic::{
    difference, dot_of, functional, lemma_sum_of_products, product, sum, sum_of_products,
    Arithmetic,
};
use crate::math::float::{spec_equal, ONE, ZERO};
use crate::math::layout::{cell_index, lemma_cell_index};
use crate::math::order::spec_is_zero;
use vstd::prelude::*;

verus! {

/// Whether two encodings stand for one number: they are the same, or they
/// are the two zeros.
pub open spec fn same_number(a: u64, b: u64) -> bool {
    a == b || (spec_is_zero(a) && spec_is_zero(b))
}

/// Whether the arithmetic treats zero and one towards `x` as the numbers
/// zero and one: one times `x` is `x`, zero times `x` is a zero, a zero
/// added to `x` leaves `x`, and `x` differs from itself by a zero.
pub open spec fn keeps<A: Arithmetic<u64>>(arith: &A, x: u64) -> bool {
    &&& product(arith, ONE, x) == x
    &&& product(arith, x, ONE) == x
    &&& spec_is_zero(product(arith, ZERO, x))
    &&& spec_is_zero(product(arith, x, ZERO))
    &&& forall|z: u64| spec_is_zero(z) ==> same_number(#[trigger] sum(arith, z, x), x)
    &&& forall|z: u64| spec_is_zero(z) ==> same_number(#[trigger] sum(arith, x, z), x)
    &&& forall|y: u64| same_number(y, x) ==> spec_is_zero(#[trigger] difference(arith, y, x))
}

/// Whether zeros add up to a zero.
pub open spec fn zeros_add_up<A: Arithmetic<u64>>(arith: &A) -> bool {
    forall|z: u64, w: u64|
        spec_is_zero(z) && spec_is_zero(w) ==> spec_is_zero(#[trigger] sum(arith, z, w))
}

/// A sum of four products of which one is `x` and the others are zeros is
/// `x`.
proof fn lemma_one_term<A: Arithmetic<u64>>(
    arith: &A,
    left: Seq<u64>,
    right: Seq<u64>,
    at: int,
    x: u64,
)
    requires
        0 <= at < 4,
        keeps(arith, x),
        zeros_add_up(arith),
        product(arith, left[at], right[at]) == x,
        forall|k: int| 0 <= k < 4 && k != at ==> spec_is_zero(#[trigger] product(arith, left[k], right[k])),
    ensures
        same_number(sum_of_products(arith, left, right, 4), x),
{
    reveal_with_fuel(sum_of_products, 5);
    let term0 = product(arith, left[0], right[0]);
    let term1 = product(arith, left[1], right[1]);
    let term2 = product(arith, left[2], right[2]);
    let term3 = product(arith, left[3], right[3]);
    let first2 = sum(arith, term0, term1);
    let first3 = sum(arith, first2, term2);
    let first4 = sum(arith, first3, term3);
    assert(sum_of_products(arith, left, right, 4) == first4);
    if at == 0 {
        assert(same_number(first2, x));
        assert(same_number(first3, x));
        assert(same_number(first4, x));
    } else if at == 1 {
        assert(same_number(first2, x));
        assert(same_number(first3, x));
        assert(same_number(first4, x));
    } else if at == 2 {
        assert(spec_is_zero(first2));
        assert(same_number(first3, x));
        assert(same_number(first4, x));
    } else {
        assert(spec_is_zero(first2));
        assert(spec_is_zero(first3));
        assert(same_number(first4, x));
    }
}

/// Entry `i` of either product with the identity matrix is the number that
/// entry `i` of the matrix is.
proof fn lemma_entry_kept<A: Arithmetic<u64>>(
    arith: &A,
    identity: Matrix<u64>,
    m: Matrix<u64>,
    left: Matrix<u64>,
    right: Matrix<u64>,
    i: int,
)
    requires
        functional(arith),
        zeros_add_up(arith),
        identity.wf(),
        identity.spec_width() == 4,
        identity.spec_height() == 4,
        identity@ == super::transform::spec_identity(ZERO, ONE),
        m.wf(),
        m.spec_width() == 4,
        m.spec_height() == 4,
        forall|i: int| 0 <= i < 16 ==> keeps(arith, #[trigger] m@[i]),
        product_with(arith, identity, m, left),
        product_with(arith, m, identity, right),
        0 <= i < 16,
    ensures
        same_number(left@[i], m@[i]),
        same_number(right@[i], m@[i]),
{
    let row = i / 4;
    let col = i % 4;
    assert(i == cell_index(4, col, row));
    let x = m@[i];
    assert(keeps(arith, x));
    assert forall|k: int| 0 <= k < 4 implies {
        &&& #[trigger] identity.spec_at(row, k) == if k == row {
            ONE
        } else {
            ZERO
        }
        &&& identity.spec_at(k, col) == if k == col {
            ONE
        } else {
            ZERO
        }
        &&& keeps(arith, m.spec_at(k, col))
        &&& keeps(arith, m.spec_at(row, k))
    } by {
        lemma_cell_index(4, 4, k, row);
        lemma_cell_index(4, 4, col, k);
    }
    // The identity on the left: row `row` of the identity against
    // column `col` of the matrix.
    let e = identity.spec_row(row);
    let c = m.spec_col(col);
    assert(left.spec_at(row, col) == left@[i]);
    assert(m.spec_at(row, col) == x);
    lemma_sum_of_products(arith, e, c, 4, left.spec_at(row, col));
    assert forall|k: int| 0 <= k < 4 && k != row implies spec_is_zero(
        #[trigger] product(arith, e[k], c[k]),
    ) by {
        assert(e[k] == identity.spec_at(row, k));
        assert(c[k] == m.spec_at(k, col));
    }
    assert(e[row] == identity.spec_at(row, row));
    assert(c[row] == x);
    lemma_one_term(arith, e, c, row, x);
    assert(same_number(left@[i], x));
    // The identity on the right: row `row` of the matrix against
    // column `col` of the identity.
    let r = m.spec_row(row);
    let d = identity.spec_col(col);
    assert(right.spec_at(row, col) == right@[i]);
    lemma_sum_of_products(arith, r, d, 4, right.spec_at(row, col));
    assert forall|k: int| 0 <= k < 4 && k != col implies spec_is_zero(
        #[trigger] product(arith, r[k], d[k]),
    ) by {
        assert(r[k] == m.spec_at(row, k));
        assert(d[k] == identity.spec_at(k, col));
    }
    assert(r[col] == x);
    assert(d[col] == identity.spec_at(col, col));
    lemma_one_term(arith, r, d, col, x);
    assert(same_number(right@[i], x));
}

/// The identity matrix is neutral in a product: the products of a matrix of
/// four rows and columns with the identity matrix, on either side, are
/// equal to the matrix within the tolerance, entry by entry. This holds of
/// an arithmetic that answers in one way only and treats zero and one
/// towards the entries as the numbers zero and one.
pub proof fn lemma_identity_is_neutral<A: Arithmetic<u64>>(
    arith: &A,
    identity: Matrix<u64>,
    m: Matrix<u64>,
    left: Matrix<u64>,
    right: Matrix<u64>,
)
    requires
        functional(arith),
        zeros_add_up(arith),
        identity.wf(),
        identity.spec_width() == 4,
        identity.spec_height() == 4,
        identity@ == super::transform::spec_identity(ZERO, ONE),
        m.wf(),
        m.spec_width() == 4,
        m.spec_height() == 4,
        forall|i: int| 0 <= i < 16 ==> keeps(arith, #[trigger] m@[i]),
        product_with(arith, identity, m, left),
        product_with(arith, m, identity, right),
    ensures
        left.spec_width() == m.spec_width(),
        left.spec_height() == m.spec_height(),
        right.spec_width() == m.spec_width(),
        right.spec_height() == m.spec_height(),
        forall|i: int| 0 <= i < 16 ==> spec_equal(arith, #[trigger] left@[i], m@[i]),
        forall|i: int| 0 <= i < 16 ==> spec_equal(arith, #[trigger] right@[i], m@[i]),
{
    assert forall|i: int| 0 <= i < 16 implies spec_equal(arith, #[trigger] left@[i], m@[i]) by {
        lemma_entry_kept(arith, identity, m, left, right, i);
        assert(keeps(arith, m@[i]));
    }
    assert forall|i: int| 0 <= i < 16 implies spec_equal(arith, #[trigger] right@[i], m@[i]) by {
        lemma_entry_kept(arith, identity, m, left, right, i);
        assert(keeps(arith, m@[i]));
    }
}

} // verus!
