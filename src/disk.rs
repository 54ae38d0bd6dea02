use vstd::prelude::*;

use crate::canvas::{Canvas, CanvasView, MAX_SIDE};
use crate::geometry::{sq_dist, sqr_dist, Point};

verus! {

/// Pixel `(x, y)` belongs to the disk of `radius` around `(cx, cy)`: it lies in
/// the half-open square `[cx - radius, cx + radius) x [cy - radius, cy + radius)`
/// and within `radius` of the center.
pub open spec fn in_disk(cx: int, cy: int, radius: int, x: int, y: int) -> bool {
    &&& cx - radius <= x < cx + radius
    &&& cy - radius <= y < cy + radius
    &&& sq_dist(cx, cy, x, y) <= radius * radius
}

/// `after` is `before` with the disk of `radius` around `center` painted `color`.
pub open spec fn disk_painted(
    before: CanvasView,
    center: Point,
    radius: int,
    color: u32,
    after: CanvasView,
) -> bool {
    &&& after.wf()
    &&& after.same_size(before)
    &&& forall|x: int, y: int| #[trigger]
        after.in_bounds(x, y) ==> after.pixel(x, y) == if in_disk(
            center.x as int,
            center.y as int,
            radius,
            x,
            y,
        ) {
            color
        } else {
            before.pixel(x, y)
        }
}

/// Pixel `(x, y)` lies in the disk of one of the first `n` markers.
pub open spec fn covered(ms: Seq<Point>, radius: int, n: int, x: int, y: int) -> bool {
    exists|k: int| 0 <= k < n && #[trigger] in_disk(ms[k].x as int, ms[k].y as int, radius, x, y)
}

/// `after` is `before` with the disk of `radius` around every marker painted
/// `color`.
pub open spec fn markers_painted(
    before: CanvasView,
    ms: Seq<Point>,
    radius: int,
    color: u32,
    after: CanvasView,
) -> bool {
    &&& after.wf()
    &&& after.same_size(before)
    &&& forall|x: int, y: int| #[trigger]
        after.in_bounds(x, y) ==> after.pixel(x, y) == if covered(ms, radius, ms.len() as int, x, y) {
            color
        } else {
            before.pixel(x, y)
        }
}

fn max_i128(a: i128, b: i128) -> (r: i128)
    ensures
        r == if a >= b { a } else { b },
{
    if a >= b { a } else { b }
}

fn min_i128(a: i128, b: i128) -> (r: i128)
    ensures
        r == if a <= b { a } else { b },
{
    if a <= b { a } else { b }
}

/// Paints `color` on every pixel of the canvas that lies in the disk of
/// `radius` around `center`; pixels outside the canvas are skipped.
pub fn fill_circle(canvas: &mut Canvas, center: &Point, radius: usize, color: u32)
    requires
        old(canvas)@.wf(),
    ensures
        disk_painted(old(canvas)@, *center, radius as int, color, final(canvas)@),
{
    let (width, height) = canvas.dimensions();
    let cx = center.x;
    let cy = center.y;
    let r = radius as i128;
    let x0 = max_i128(cx as i128 - r, 0);
    let x1 = min_i128(cx as i128 + r, width as i128);
    let y0 = max_i128(cy as i128 - r, 0);
    let y1 = min_i128(cy as i128 + r, height as i128);
    assert(radius * radius <= u128::MAX) by (nonlinear_arith)
        requires
            radius <= usize::MAX,
            usize::MAX <= u64::MAX,
    ;
    let rr: u128 = radius as u128 * radius as u128;
    let ghost before = canvas@;
    let ghost rad = radius as int;
    if x0 >= x1 || y0 >= y1 {
        assert forall|x: int, y: int| #[trigger] canvas@.in_bounds(x, y) implies !in_disk(
            cx as int,
            cy as int,
            rad,
            x,
            y,
        ) by {}
        return;
    }
    let mut x: usize = x0 as usize;
    while x < x1 as usize
        invariant
            0 <= x0 <= x <= x1 <= width,
            0 <= y0 < y1 <= height,
            x0 == if cx - rad >= 0 { cx - rad } else { 0 },
            x1 == if cx + rad <= width { cx + rad } else { width as int },
            y0 == if cy - rad >= 0 { cy - rad } else { 0 },
            y1 == if cy + rad <= height { cy + rad } else { height as int },
            rr == rad * rad,
            canvas@.wf(),
            canvas@.same_size(before),
            width == canvas@.width,
            height == canvas@.height,
            forall|px: int, py: int| #[trigger]
                canvas@.in_bounds(px, py) ==> canvas@.pixel(px, py) == if in_disk(
                    cx as int,
                    cy as int,
                    rad,
                    px,
                    py,
                ) && px < x {
                    color
                } else {
                    before.pixel(px, py)
                },
        decreases x1 - x,
    {
        let mut y: usize = y0 as usize;
        while y < y1 as usize
            invariant
                0 <= x0 <= x < x1 <= width,
                0 <= y0 <= y <= y1 <= height,
                x0 == if cx - rad >= 0 { cx - rad } else { 0 },
                x1 == if cx + rad <= width { cx + rad } else { width as int },
                y0 == if cy - rad >= 0 { cy - rad } else { 0 },
                y1 == if cy + rad <= height { cy + rad } else { height as int },
                rr == rad * rad,
                canvas@.wf(),
                canvas@.same_size(before),
                width == canvas@.width,
                height == canvas@.height,
                forall|px: int, py: int| #[trigger]
                    canvas@.in_bounds(px, py) ==> canvas@.pixel(px, py) == if in_disk(
                        cx as int,
                        cy as int,
                        rad,
                        px,
                        py,
                    ) && (px < x || (px == x && py < y)) {
                        color
                    } else {
                        before.pixel(px, py)
                    },
            decreases y1 - y,
        {
            assert(x <= MAX_SIDE && y <= MAX_SIDE);
            let ghost prev = canvas@;
            let inside = sqr_dist(cx, x as i32, cy, y as i32) <= rr;
            assert(inside == in_disk(cx as int, cy as int, rad, x as int, y as int));
            if inside {
                canvas.set(x, y, color);
            }
            assert forall|px: int, py: int| #[trigger] canvas@.in_bounds(px, py) implies canvas@.pixel(
                px,
                py,
            ) == if in_disk(cx as int, cy as int, rad, px, py) && (px < x || (px == x && py < y + 1)) {
                color
            } else {
                before.pixel(px, py)
            } by {
                assert(prev.in_bounds(px, py));
            }
            y = y + 1;
        }
        x = x + 1;
    }
}

/// Paints the disk of `radius` around every marker with `color`.
pub fn fill_markers(canvas: &mut Canvas, markers: &[Point], radius: usize, color: u32)
    requires
        old(canvas)@.wf(),
    ensures
        markers_painted(old(canvas)@, markers@, radius as int, color, final(canvas)@),
{
    let ghost before = canvas@;
    let ghost ms = markers@;
    let ghost rad = radius as int;
    let n = markers.len();
    let mut i: usize = 0;
    while i < n
        invariant
            i <= n,
            n == ms.len(),
            ms == markers@,
            rad == radius,
            canvas@.wf(),
            canvas@.same_size(before),
            forall|px: int, py: int| #[trigger]
                canvas@.in_bounds(px, py) ==> canvas@.pixel(px, py) == if covered(
                    ms,
                    rad,
                    i as int,
                    px,
                    py,
                ) {
                    color
                } else {
                    before.pixel(px, py)
                },
        decreases n - i,
    {
        let ghost mid = canvas@;
        fill_circle(canvas, &markers[i], radius, color);
        assert forall|px: int, py: int| #[trigger] canvas@.in_bounds(px, py) implies canvas@.pixel(
            px,
            py,
        ) == if covered(ms, rad, i + 1, px, py) {
            color
        } else {
            before.pixel(px, py)
        } by {
            assert(mid.in_bounds(px, py));
            if in_disk(ms[i as int].x as int, ms[i as int].y as int, rad, px, py) {
                assert(covered(ms, rad, i + 1, px, py));
            } else if covered(ms, rad, i as int, px, py) {
                let k = choose|k: int|
                    0 <= k < i && #[trigger] in_disk(ms[k].x as int, ms[k].y as int, rad, px, py);
                assert(covered(ms, rad, i + 1, px, py));
            } else {
                assert(!covered(ms, rad, i + 1, px, py)) by {
                    if covered(ms, rad, i + 1, px, py) {
                        let k = choose|k: int|
                            0 <= k < i + 1 && #[trigger] in_disk(ms[k].x as int, ms[k].y as int, rad, px, py);
                        assert(k != i);
                        assert(covered(ms, rad, i as int, px, py));
                    }
                }
            }
        }
        i = i + 1;
    }
}

/// After a disk is painted, each pixel of the canvas within `radius` of the
/// center has `color`, except on the square's open right column and bottom
/// row (`x == cx + radius` or `y == cy + radius`); each pixel farther away is
/// unchanged.
pub proof fn law_disk_containment(
    before: CanvasView,
    center: Point,
    radius: int,
    color: u32,
    after: CanvasView,
    x: int,
    y: int,
)
    requires
        radius >= 0,
        disk_painted(before, center, radius, color, after),
        after.in_bounds(x, y),
    ensures
        sq_dist(center.x as int, center.y as int, x, y) <= radius * radius && x < center.x + radius
            && y < center.y + radius ==> after.pixel(x, y) == color,
        sq_dist(center.x as int, center.y as int, x, y) > radius * radius ==> after.pixel(x, y)
            == before.pixel(x, y),
{
    let dx = center.x - x;
    let dy = center.y - y;
    if sq_dist(center.x as int, center.y as int, x, y) <= radius * radius {
        assert(-radius <= dx <= radius && -radius <= dy <= radius) by (nonlinear_arith)
            requires
                dx * dx + dy * dy <= radius * radius,
                radius >= 0,
        ;
    }
}

} // verus!
