//! Flat row-major grids: the correspondence between a cell coordinate
//! `(x, y)` and its index `y * width + x` in a flat array.

use vstd::prelude::*;

verus! {

/// The value stored at cell `(cx, cy)` of a flat row-major grid of the given
/// width.
pub open spec fn grid_cell<T>(s: Seq<T>, width: int, cx: int, cy: int) -> T {
    s[cy * width + cx]
}

/// Whether `(cx, cy)` lies in the axis-aligned rectangle anchored at
/// `(px, py)` with extent `w` by `h`. Anchors may be negative and extents
/// non-positive; an empty rectangle contains nothing.
pub open spec fn in_rect(px: int, py: int, w: int, h: int, cx: int, cy: int) -> bool {
    px <= cx && cx < px + w && py <= cy && cy < py + h
}

/// A cell inside the grid has a flat index inside the array.
pub proof fn lemma_grid_index(width: int, height: int, x: int, y: int)
    by (nonlinear_arith)
    requires
        0 <= x < width,
        0 <= y < height,
    ensures
        0 <= y * width + x < width * height,
{
}

/// Distinct cells of one grid have distinct flat indices.
pub proof fn lemma_grid_index_injective(width: int, x1: int, y1: int, x2: int, y2: int)
    by (nonlinear_arith)
    requires
        0 <= x1 < width,
        0 <= x2 < width,
        0 <= y1,
        0 <= y2,
        y1 * width + x1 == y2 * width + x2,
    ensures
        x1 == x2,
        y1 == y2,
{
}

/// Every flat index inside the array is the index of exactly one cell,
/// recovered by division and remainder.
pub proof fn lemma_grid_index_decompose(width: int, height: int, i: int)
    requires
        0 < width,
        0 <= i < width * height,
    ensures
        0 <= i % width < width,
        0 <= i / width < height,
        (i / width) * width + (i % width) == i,
{
    vstd::arithmetic::div_mod::lemma_fundamental_div_mod(i, width);
    vstd::arithmetic::div_mod::lemma_mod_division_less_than_divisor(i, width);
    vstd::arithmetic::mul::lemma_mul_is_commutative(i / width, width);
    assert(0 <= i / width) by (nonlinear_arith)
        requires 0 < width, 0 <= i, i == width * (i / width) + i % width, 0 <= i % width < width;
    assert(i / width < height) by (nonlinear_arith)
        requires 0 < width, i < width * height, i == width * (i / width) + i % width, 0 <= i % width;
}

} // verus!
