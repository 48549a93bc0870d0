//! How a rectangle of cells is laid out in a list: row after row.
use vstd::prelude::*;

verus! {

/// The place of cell `(x, y)` in a rectangle `width` cells wide that is
/// stored row after row: `x` counts the columns, `y` the rows.
pub open spec fn cell_index(width: int, x: int, y: int) -> int {
    width * y + x
}

/// Cell `(x, y)` of a rectangle `width` wide and `height` high has a place of its
/// own among the `width * height` places, and no other cell shares it.
pub proof fn lemma_cell_index(width: int, height: int, x: int, y: int)
    requires
        0 <= x < width,
        0 <= y < height,
    ensures
        0 <= cell_index(width, x, y) < width * height,
        cell_index(width, x, y) % width == x,
        cell_index(width, x, y) / width == y,
{
    assert(0 <= width * y + x < width * height) by (nonlinear_arith)
        requires
            0 <= x < width,
            0 <= y < height,
    ;
    assert(width * y + x == y * width + x) by (nonlinear_arith);
    vstd::arithmetic::div_mod::lemma_fundamental_div_mod_converse(width * y + x, width, y, x);
}

/// Two cells in one place are the same cell.
pub proof fn lemma_cell_index_injective(width: int, x1: int, y1: int, x2: int, y2: int)
    requires
        0 <= x1 < width,
        0 <= x2 < width,
        0 <= y1,
        0 <= y2,
        cell_index(width, x1, y1) == cell_index(width, x2, y2),
    ensures
        x1 == x2,
        y1 == y2,
{
    lemma_cell_index(width, y1 + 1, x1, y1);
    lemma_cell_index(width, y2 + 1, x2, y2);
}

} // verus!
