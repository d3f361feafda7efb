//! Arithmetic facts about row-major pixel grids.

use vstd::prelude::*;
use vstd::arithmetic::div_mod::lemma_fundamental_div_mod_converse;

verus! {

/// Index `(cell * n + k)` of a grid whose cells hold `n` bytes splits back
/// into its cell and its byte within the cell; and a cell index `row * w + col`
/// splits back into its row and column.
pub proof fn lemma_grid_index(row: int, col: int, w: int, k: int, n: int)
    requires
        0 <= row,
        0 <= col < w,
        0 <= k < n,
    ensures
        ((row * w + col) * n + k) / n == row * w + col,
        ((row * w + col) * n + k) % n == k,
        (row * w + col) / w == row,
        (row * w + col) % w == col,
{
    lemma_fundamental_div_mod_converse((row * w + col) * n + k, n, row * w + col, k);
    lemma_fundamental_div_mod_converse(row * w + col, w, row, col);
}

/// A cell inside an `h` by `w` grid has a byte index below `h * w * n`.
pub proof fn lemma_grid_bound(row: int, col: int, w: int, h: int, k: int, n: int)
    requires
        0 <= row < h,
        0 <= col < w,
        0 <= k < n,
    ensures
        0 <= row * w + col < h * w,
        0 <= (row * w + col) * n + k < h * w * n,
{
    assert(0 <= row * w + col < h * w) by (nonlinear_arith)
        requires 0 <= row < h, 0 <= col < w;
    assert(0 <= (row * w + col) * n + k < h * w * n) by (nonlinear_arith)
        requires 0 <= row * w + col < h * w, 0 <= k < n;
}

} // verus!
