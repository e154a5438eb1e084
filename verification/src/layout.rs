//! Row-major layout: the correspondence between the coordinates of a cell
//! and its position in the backing sequence of a grid.
//!
//! A grid that is `width` cells wide stores the cell at column `c`, row `r`
//! at position `r * width + c`.

use vstd::prelude::*;

verus! {

/// Position in the backing sequence of the cell at column `c`, row `r`
/// of a grid that is `width` cells wide.
pub open spec fn linear_index(width: nat, c: int, r: int) -> int {
    r * width + c
}

/// Every cell of a `width` by `height` grid has a position below `width * height`.
pub proof fn lemma_index_in_range(width: nat, height: nat, c: int, r: int)
    requires
        0 <= c < width,
        0 <= r < height,
    ensures
        0 <= linear_index(width, c, r) < width * height,
{
    assert(0 <= r * width && r * width + width <= height * width) by (nonlinear_arith)
        requires
            0 <= r < height,
    ;
    assert(height * width == width * height) by (nonlinear_arith);
}

/// Dividing the position of a cell by the width gives back its row, and the
/// remainder gives back its column.
pub proof fn lemma_coordinates_of_index(width: nat, c: int, r: int)
    requires
        0 <= c < width,
        0 <= r,
    ensures
        linear_index(width, c, r) % (width as int) == c,
        linear_index(width, c, r) / (width as int) == r,
{
    vstd::arithmetic::div_mod::lemma_fundamental_div_mod_converse(
        linear_index(width, c, r),
        width as int,
        r,
        c,
    );
}

/// Every position below `width * height` is the position of exactly the cell
/// at column `k % width`, row `k / width`, which lies inside the grid.
pub proof fn lemma_index_of_coordinates(width: nat, height: nat, k: int)
    requires
        0 <= k < width * height,
    ensures
        0 <= k % (width as int) < width,
        0 <= k / (width as int) < height,
        linear_index(width, k % (width as int), k / (width as int)) == k,
{
    let w = width as int;
    assert(w > 0) by (nonlinear_arith)
        requires
            0 <= k < w * height,
            0 <= w,
    ;
    vstd::arithmetic::div_mod::lemma_fundamental_div_mod(k, w);
    vstd::arithmetic::div_mod::lemma_mod_pos_bound(k, w);
    let q = k / w;
    assert(w * q == q * w) by (nonlinear_arith);
    assert(0 <= q < height) by (nonlinear_arith)
        requires
            0 <= k < w * height,
            w > 0,
            k == q * w + k % w,
            0 <= k % w < w,
    ;
}

/// Two cells of a grid that differ in column or row have different positions.
pub proof fn lemma_index_injective(width: nat, c1: int, r1: int, c2: int, r2: int)
    requires
        0 <= c1 < width,
        0 <= c2 < width,
        0 <= r1,
        0 <= r2,
        linear_index(width, c1, r1) == linear_index(width, c2, r2),
    ensures
        c1 == c2,
        r1 == r2,
{
    lemma_coordinates_of_index(width, c1, r1);
    lemma_coordinates_of_index(width, c2, r2);
}

} // verus!
