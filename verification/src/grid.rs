//! Arithmetic facts about row-major grids, shared by the pixel transforms.

use vstd::prelude::*;
use vstd::arithmetic::div_mod::{lemma_fundamental_div_mod, lemma_fundamental_div_mod_converse};

verus! {

/// Index of cell `(row, col)` in a row-major grid whose rows hold `width` cells.
pub open spec fn cell_index(row: int, col: int, width: int) -> int {
    row * width + col
}

/// Every index in range splits into a row and a column.
pub proof fn lemma_cell_split(i: int, width: int)
    requires
        0 <= i,
        0 < width,
    ensures
        i == cell_index(i / width, i % width, width),
        0 <= i / width,
        0 <= i % width < width,
{
    lemma_fundamental_div_mod(i, width);
    assert(width * (i / width) == (i / width) * width) by (nonlinear_arith);
    assert(0 <= i / width) by (nonlinear_arith)
        requires 0 <= i, 0 < width;
}

/// Row and column of a cell can be read back from its index.
pub proof fn lemma_cell_join(row: int, col: int, width: int)
    requires
        0 <= col < width,
    ensures
        cell_index(row, col, width) / width == row,
        cell_index(row, col, width) % width == col,
{
    lemma_fundamental_div_mod_converse(cell_index(row, col, width), width, row, col);
}

/// A cell inside an `height` by `width` grid has an index below `height * width`.
pub proof fn lemma_cell_in_grid(row: int, col: int, width: int, height: int)
    requires
        0 <= row < height,
        0 <= col < width,
    ensures
        0 <= cell_index(row, col, width) < height * width,
{
    assert(0 <= row * width + col < height * width) by (nonlinear_arith)
        requires 0 <= row < height, 0 <= col < width;
}

/// An index below `height * width` lies in a row below `height`.
pub proof fn lemma_row_in_grid(i: int, width: int, height: int)
    requires
        0 <= i < height * width,
        0 < width,
    ensures
        i / width < height,
{
    lemma_cell_split(i, width);
    if i / width >= height {
        assert((i / width) * width >= height * width) by (nonlinear_arith)
            requires i / width >= height, 0 < width;
    }
}

} // verus!
