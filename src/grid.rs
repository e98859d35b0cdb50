//! Row-major index arithmetic shared by the cell buffers and hit grids.
use vstd::prelude::*;
use vstd::arithmetic::div_mod::{lemma_fundamental_div_mod, lemma_fundamental_div_mod_converse};

verus! {

/// Position `(x, y)` of a `w`-wide grid lies at index `y * w + x`, inside a `w * h` grid,
/// and that index gives `(x, y)` back.
pub proof fn lemma_grid_index(x: int, y: int, w: int, h: int)
    requires
        0 <= x < w,
        0 <= y < h,
    ensures
        0 <= y * w + x < w * h,
        (y * w + x) / w == y,
        (y * w + x) % w == x,
{
    assert(0 <= y * w + x < w * h) by (nonlinear_arith)
        requires
            0 <= x < w,
            0 <= y < h,
    ;
    lemma_fundamental_div_mod_converse(y * w + x, w, y, x);
}

/// Each index of a `w * h` grid is the position `(i % w, i / w)`.
pub proof fn lemma_grid_split(i: int, w: int, h: int)
    requires
        0 <= i < w * h,
        0 <= w,
        0 <= h,
    ensures
        w > 0,
        0 <= i % w < w,
        0 <= i / w < h,
        i == (i / w) * w + i % w,
{
    assert(w > 0) by (nonlinear_arith)
        requires
            0 <= i < w * h,
            0 <= w,
            0 <= h,
    ;
    lemma_fundamental_div_mod(i, w);
    assert(0 <= i / w < h) by (nonlinear_arith)
        requires
            0 <= i < w * h,
            w > 0,
            i == w * (i / w) + i % w,
            0 <= i % w < w,
    ;
    assert((i / w) * w == w * (i / w)) by (nonlinear_arith);
}

/// Two positions of a `w`-wide grid share an index exactly when they are the same position.
pub proof fn lemma_grid_same(x1: int, y1: int, x2: int, y2: int, w: int, h: int)
    requires
        0 <= x1 < w,
        0 <= y1 < h,
        0 <= x2 < w,
        0 <= y2 < h,
    ensures
        (y1 * w + x1 == y2 * w + x2) <==> (x1 == x2 && y1 == y2),
{
    lemma_grid_index(x1, y1, w, h);
    lemma_grid_index(x2, y2, w, h);
}

} // verus!
