//! Axis-aligned rectangle geometry: the overlap-area computation that
//! the occlusion heuristic is built on.

use vstd::prelude::*;

verus! {

/// A window's on-screen footprint: top-left corner and extent, in
/// screen coordinates.  A zero width or height is a valid, degenerate
/// rectangle that overlaps nothing.
#[derive(Clone, Copy, PartialEq, Eq, Structural, Debug)]
pub struct Rect {
    pub x: i32,
    pub y: i32,
    pub width: u32,
    pub height: u32,
}

/// Total area of a rectangle.
pub open spec fn rect_area(r: Rect) -> int {
    r.width * r.height
}

/// The greater of two integers.
pub open spec fn spec_max(a: int, b: int) -> int {
    if a >= b {
        a
    } else {
        b
    }
}

/// The lesser of two integers.
pub open spec fn spec_min(a: int, b: int) -> int {
    if a <= b {
        a
    } else {
        b
    }
}

/// Area of the intersection of two axis-aligned rectangles: the
/// product of the horizontal and vertical extents of the common
/// region, each clamped at zero.
pub open spec fn overlap_area_spec(a: Rect, b: Rect) -> int {
    let ox1 = spec_max(a.x as int, b.x as int);
    let oy1 = spec_max(a.y as int, b.y as int);
    let ox2 = spec_min(a.x + a.width, b.x + b.width);
    let oy2 = spec_min(a.y + a.height, b.y + b.height);
    spec_max(0, ox2 - ox1) * spec_max(0, oy2 - oy1)
}

/// Two rectangles are disjoint when their common region is empty on
/// at least one axis.
pub open spec fn disjoint(a: Rect, b: Rect) -> bool {
    spec_min(a.x + a.width, b.x + b.width) <= spec_max(a.x as int, b.x as int)
        || spec_min(a.y + a.height, b.y + b.height) <= spec_max(a.y as int, b.y as int)
}

/// Overlap area is never negative.
pub proof fn lemma_overlap_area_nonneg(a: Rect, b: Rect)
    ensures
        overlap_area_spec(a, b) >= 0,
{
    let w = spec_max(0, spec_min(a.x + a.width, b.x + b.width) - spec_max(a.x as int, b.x as int));
    let h = spec_max(
        0,
        spec_min(a.y + a.height, b.y + b.height) - spec_max(a.y as int, b.y as int),
    );
    assert(w * h >= 0) by (nonlinear_arith)
        requires
            w >= 0,
            h >= 0,
    ;
}

/// Overlap area is commutative: the intersection of `a` and `b` is
/// the intersection of `b` and `a`.
pub proof fn lemma_overlap_area_commutative(a: Rect, b: Rect)
    ensures
        overlap_area_spec(a, b) == overlap_area_spec(b, a),
{
}

/// A rectangle overlaps itself in its whole area.
pub proof fn lemma_overlap_area_self(a: Rect)
    ensures
        overlap_area_spec(a, a) == rect_area(a),
{
}

/// Disjoint rectangles have zero overlap area.
pub proof fn lemma_overlap_area_disjoint(a: Rect, b: Rect)
    requires
        disjoint(a, b),
    ensures
        overlap_area_spec(a, b) == 0,
{
    let w = spec_max(0, spec_min(a.x + a.width, b.x + b.width) - spec_max(a.x as int, b.x as int));
    let h = spec_max(
        0,
        spec_min(a.y + a.height, b.y + b.height) - spec_max(a.y as int, b.y as int),
    );
    assert(w == 0 || h == 0);
    assert(w * h == 0) by (nonlinear_arith)
        requires
            w == 0 || h == 0,
    ;
}

/// Computes the overlap area of two rectangles.  Total: every pair of
/// rectangles, degenerate ones included, has a well-defined area, and
/// the result always fits in a `u64`.
pub fn overlap_area(a: &Rect, b: &Rect) -> (r: u64)
    ensures
        r == overlap_area_spec(*a, *b),
{
    let ax2: i64 = a.x as i64 + a.width as i64;
    let bx2: i64 = b.x as i64 + b.width as i64;
    let ay2: i64 = a.y as i64 + a.height as i64;
    let by2: i64 = b.y as i64 + b.height as i64;

    let ox1: i64 = if a.x >= b.x {
        a.x as i64
    } else {
        b.x as i64
    };
    let oy1: i64 = if a.y >= b.y {
        a.y as i64
    } else {
        b.y as i64
    };
    let ox2: i64 = if ax2 <= bx2 {
        ax2
    } else {
        bx2
    };
    let oy2: i64 = if ay2 <= by2 {
        ay2
    } else {
        by2
    };

    let ow: i64 = if ox2 - ox1 >= 0 {
        ox2 - ox1
    } else {
        0
    };
    let oh: i64 = if oy2 - oy1 >= 0 {
        oy2 - oy1
    } else {
        0
    };

    assert(ow <= u32::MAX && oh <= u32::MAX);
    assert(ow * oh <= u32::MAX * u32::MAX) by (nonlinear_arith)
        requires
            0 <= ow <= u32::MAX,
            0 <= oh <= u32::MAX,
    ;
    (ow as u64) * (oh as u64)
}

} // verus!
