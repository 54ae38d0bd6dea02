use vstd::prelude::*;

verus! {

/// A point of the plane with integer coordinates; it may lie outside a canvas.
#[derive(Clone, Copy, Debug, PartialEq, Eq, Structural)]
pub struct Point {
    pub x: i32,
    pub y: i32,
}

impl Point {
    pub fn new(x: i32, y: i32) -> (r: Point)
        ensures
            r.x == x,
            r.y == y,
    {
        Point { x, y }
    }
}

/// Squared Euclidean distance between `(ax, ay)` and `(bx, by)`.
pub open spec fn sq_dist(ax: int, ay: int, bx: int, by: int) -> int {
    (ax - bx) * (ax - bx) + (ay - by) * (ay - by)
}

/// Squared distance between `(x, y)` and `(x1, y1)`, computed exactly in a
/// width that no pair of `i32` coordinates can overflow.
pub fn sqr_dist(x: i32, x1: i32, y: i32, y1: i32) -> (r: u128)
    ensures
        r as int == sq_dist(x as int, y as int, x1 as int, y1 as int),
{
    let dx: i64 = x as i64 - x1 as i64;
    let dy: i64 = y as i64 - y1 as i64;
    let bound: i64 = 0xffff_ffff;
    assert(dx * dx <= bound * bound && 0 <= dx * dx) by (nonlinear_arith)
        requires
            -bound <= dx <= bound,
            bound == 0xffff_ffff,
    ;
    assert(dy * dy <= bound * bound && 0 <= dy * dy) by (nonlinear_arith)
        requires
            -bound <= dy <= bound,
            bound == 0xffff_ffff,
    ;
    let dx2: i128 = dx as i128 * dx as i128;
    let dy2: i128 = dy as i128 * dy as i128;
    (dx2 + dy2) as u128
}

} // verus!
