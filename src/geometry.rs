//! Clip rectangles for hit-grid scissoring.
use vstd::prelude::*;

verus! {

/// An axis-aligned rectangle: columns `[x, x + width)`, rows `[y, y + height)`.
#[derive(Clone, Copy, Debug, PartialEq, Eq, Structural)]
pub struct ClipRect {
    pub x: i32,
    pub y: i32,
    pub width: u32,
    pub height: u32,
}

/// Cell `(col, row)` lies in the rectangle at `(x, y)` of size `w × h`.
pub open spec fn in_rect(x: int, y: int, w: int, h: int, col: int, row: int) -> bool {
    x <= col < x + w && y <= row < y + h
}

/// Cell `(col, row)` lies in `r`.
pub open spec fn in_clip(r: ClipRect, col: int, row: int) -> bool {
    in_rect(r.x as int, r.y as int, r.width as int, r.height as int, col, row)
}

pub open spec fn max_int(a: int, b: int) -> int {
    if a >= b { a } else { b }
}

pub open spec fn min_int(a: int, b: int) -> int {
    if a <= b { a } else { b }
}

/// The intersection of `a` with the rectangle at `(x, y)` of size `w × h`, or `None`
/// when it is empty.
pub open spec fn intersect(a: ClipRect, x: int, y: int, w: int, h: int) -> Option<ClipRect> {
    let x0 = max_int(x, a.x as int);
    let y0 = max_int(y, a.y as int);
    let x1 = min_int(x + w, a.x + a.width);
    let y1 = min_int(y + h, a.y + a.height);
    if x0 >= x1 || y0 >= y1 {
        None
    } else {
        Some(ClipRect { x: x0 as i32, y: y0 as i32, width: (x1 - x0) as u32, height: (y1 - y0) as u32 })
    }
}

/// The exact intersection of `a` with the rectangle at `(x, y)` of size `w × h`.
pub fn intersect_exec(a: ClipRect, x: i32, y: i32, w: u32, h: u32) -> (r: Option<ClipRect>)
    ensures
        r == intersect(a, x as int, y as int, w as int, h as int),
{
    let x0: i64 = if (x as i64) >= (a.x as i64) { x as i64 } else { a.x as i64 };
    let y0: i64 = if (y as i64) >= (a.y as i64) { y as i64 } else { a.y as i64 };
    let xe: i64 = x as i64 + w as i64;
    let ye: i64 = y as i64 + h as i64;
    let ae: i64 = a.x as i64 + a.width as i64;
    let be: i64 = a.y as i64 + a.height as i64;
    let x1: i64 = if xe <= ae { xe } else { ae };
    let y1: i64 = if ye <= be { ye } else { be };
    if x0 >= x1 || y0 >= y1 {
        None
    } else {
        Some(ClipRect { x: x0 as i32, y: y0 as i32, width: (x1 - x0) as u32, height: (y1 - y0) as u32 })
    }
}

/// A cell lies in an intersection exactly when it lies in both rectangles.
pub proof fn lemma_intersect_membership(a: ClipRect, x: int, y: int, w: int, h: int, col: int, row: int)
    requires
        i32::MIN <= x <= i32::MAX,
        i32::MIN <= y <= i32::MAX,
        0 <= w <= u32::MAX,
        0 <= h <= u32::MAX,
    ensures
        (intersect(a, x, y, w, h) is Some && in_clip(intersect(a, x, y, w, h)->0, col, row)) <==> (
        in_clip(a, col, row) && in_rect(x, y, w, h, col, row)),
{
}

} // verus!
