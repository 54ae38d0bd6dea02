use vstd::prelude::*;

use crate::canvas::{lemma_same_pixels_same_view, Canvas, CanvasView, MAX_SIDE};
use crate::geometry::{sq_dist, sqr_dist, Point};

verus! {

/// Squared distance from marker `i` to pixel `(x, y)`.
pub open spec fn marker_dist(ms: Seq<Point>, i: int, x: int, y: int) -> int {
    sq_dist(ms[i].x as int, ms[i].y as int, x, y)
}

/// Marker `j` is nearest to `(x, y)`, and no marker before it is as near.
pub open spec fn is_first_nearest(ms: Seq<Point>, x: int, y: int, j: int) -> bool {
    &&& 0 <= j < ms.len()
    &&& forall|i: int| 0 <= i < ms.len() ==> marker_dist(ms, j, x, y) <= #[trigger] marker_dist(ms, i, x, y)
    &&& forall|i: int| 0 <= i < j ==> marker_dist(ms, j, x, y) < #[trigger] marker_dist(ms, i, x, y)
}

/// The index of the marker that owns pixel `(x, y)`.
pub open spec fn nearest(ms: Seq<Point>, x: int, y: int) -> int {
    choose|j: int| is_first_nearest(ms, x, y, j)
}

/// The color that the diagram gives pixel `(x, y)`.
pub open spec fn cell_color(ms: Seq<Point>, palette: Seq<u32>, x: int, y: int) -> u32 {
    palette[nearest(ms, x, y) % (palette.len() as int)]
}

/// `after` is `before` repainted as the Voronoi diagram of `ms`.
pub open spec fn voronoi_painted(
    before: CanvasView,
    ms: Seq<Point>,
    palette: Seq<u32>,
    after: CanvasView,
) -> bool {
    &&& after.wf()
    &&& after.same_size(before)
    &&& forall|x: int, y: int| #[trigger]
        after.in_bounds(x, y) ==> after.pixel(x, y) == cell_color(ms, palette, x, y)
}

/// At most one marker is the first nearest.
pub proof fn lemma_first_nearest_unique(ms: Seq<Point>, x: int, y: int, a: int, b: int)
    requires
        is_first_nearest(ms, x, y, a),
        is_first_nearest(ms, x, y, b),
    ensures
        a == b,
{
    if a < b {
        assert(marker_dist(ms, b, x, y) < marker_dist(ms, a, x, y));
    } else if b < a {
        assert(marker_dist(ms, a, x, y) < marker_dist(ms, b, x, y));
    }
}

/// Among the first `n` markers, some marker is the first nearest.
proof fn lemma_first_nearest_prefix(ms: Seq<Point>, x: int, y: int, n: int) -> (j: int)
    requires
        1 <= n <= ms.len(),
    ensures
        is_first_nearest(ms.subrange(0, n), x, y, j),
    decreases n,
{
    let pre = ms.subrange(0, n);
    if n == 1 {
        assert(is_first_nearest(pre, x, y, 0));
        0
    } else {
        let k = lemma_first_nearest_prefix(ms, x, y, n - 1);
        let shorter = ms.subrange(0, n - 1);
        assert forall|i: int| 0 <= i < n - 1 implies marker_dist(pre, i, x, y) == marker_dist(
            shorter,
            i,
            x,
            y,
        ) by {}
        if marker_dist(pre, n - 1, x, y) < marker_dist(pre, k, x, y) {
            assert(marker_dist(pre, k, x, y) == marker_dist(shorter, k, x, y));
            assert(is_first_nearest(pre, x, y, n - 1));
            n - 1
        } else {
            assert(marker_dist(pre, k, x, y) == marker_dist(shorter, k, x, y));
            assert(is_first_nearest(pre, x, y, k));
            k
        }
    }
}

/// Every pixel has a first nearest marker, and `nearest` names it.
pub proof fn lemma_nearest(ms: Seq<Point>, x: int, y: int)
    requires
        ms.len() >= 1,
    ensures
        is_first_nearest(ms, x, y, nearest(ms, x, y)),
{
    let j = lemma_first_nearest_prefix(ms, x, y, ms.len() as int);
    assert(ms.subrange(0, ms.len() as int) =~= ms);
}

/// The index of the marker nearest to `(x, y)`; of markers at equal
/// distance, the one that comes first.
pub fn nearest_marker(markers: &[Point], x: i32, y: i32) -> (r: usize)
    requires
        markers@.len() >= 1,
    ensures
        is_first_nearest(markers@, x as int, y as int, r as int),
        r == nearest(markers@, x as int, y as int),
{
    let ms = Ghost(markers@);
    let mut j: usize = 0;
    let mut best: u128 = sqr_dist(markers[0].x, x, markers[0].y, y);
    let n = markers.len();
    let mut i: usize = 1;
    while i < n
        invariant
            1 <= i <= n,
            n == ms@.len(),
            ms@ == markers@,
            j < i,
            best as int == marker_dist(ms@, j as int, x as int, y as int),
            forall|k: int|
                0 <= k < i ==> marker_dist(ms@, j as int, x as int, y as int) <= #[trigger] marker_dist(
                    ms@,
                    k,
                    x as int,
                    y as int,
                ),
            forall|k: int|
                0 <= k < j ==> marker_dist(ms@, j as int, x as int, y as int) < #[trigger] marker_dist(
                    ms@,
                    k,
                    x as int,
                    y as int,
                ),
        decreases n - i,
    {
        let d = sqr_dist(markers[i].x, x, markers[i].y, y);
        if d < best {
            j = i;
            best = d;
        }
        i = i + 1;
    }
    proof {
        lemma_nearest(markers@, x as int, y as int);
        lemma_first_nearest_unique(markers@, x as int, y as int, j as int, nearest(markers@, x as int, y as int));
    }
    j
}

/// Repaints every pixel with `palette[j % palette.len()]`, where `j` is the
/// index of the pixel's nearest marker.
pub fn render_diagram(canvas: &mut Canvas, markers: &[Point], palette: &[u32])
    requires
        old(canvas)@.wf(),
        markers@.len() >= 1,
        palette@.len() >= 1,
    ensures
        voronoi_painted(old(canvas)@, markers@, palette@, final(canvas)@),
{
    let (width, height) = canvas.dimensions();
    let p = palette.len();
    let mut y: usize = 0;
    while y < height
        invariant
            y <= height,
            canvas@.wf(),
            canvas@.same_size(old(canvas)@),
            width == canvas@.width,
            height == canvas@.height,
            markers@.len() >= 1,
            p == palette@.len(),
            p >= 1,
            forall|px: int, py: int|
                #![trigger canvas@.pixel(px, py)]
                canvas@.in_bounds(px, py) && py < y ==> canvas@.pixel(px, py) == cell_color(
                    markers@,
                    palette@,
                    px,
                    py,
                ),
        decreases height - y,
    {
        let mut x: usize = 0;
        while x < width
            invariant
                x <= width,
                y < height,
                canvas@.wf(),
                canvas@.same_size(old(canvas)@),
                width == canvas@.width,
                height == canvas@.height,
                markers@.len() >= 1,
                p == palette@.len(),
                p >= 1,
                forall|px: int, py: int|
                    #![trigger canvas@.pixel(px, py)]
                    canvas@.in_bounds(px, py) && (py < y || (py == y && px < x))
                        ==> canvas@.pixel(px, py) == cell_color(markers@, palette@, px, py),
            decreases width - x,
        {
            assert(x <= MAX_SIDE && y <= MAX_SIDE);
            let j = nearest_marker(markers, x as i32, y as i32);
            canvas.set(x, y, palette[j % p]);
            x = x + 1;
        }
        y = y + 1;
    }
}

/// When two markers are equally near to a pixel and every other marker is
/// farther, the pixel takes the color of the one with the lower index.
pub proof fn law_tie_goes_to_lower_index(
    before: CanvasView,
    ms: Seq<Point>,
    palette: Seq<u32>,
    after: CanvasView,
    x: int,
    y: int,
    i: int,
    k: int,
)
    requires
        palette.len() >= 1,
        voronoi_painted(before, ms, palette, after),
        after.in_bounds(x, y),
        0 <= i < k < ms.len(),
        marker_dist(ms, i, x, y) == marker_dist(ms, k, x, y),
        forall|m: int|
            0 <= m < ms.len() && m != i && m != k ==> #[trigger] marker_dist(ms, m, x, y)
                > marker_dist(ms, i, x, y),
    ensures
        after.pixel(x, y) == palette[i % (palette.len() as int)],
{
    lemma_nearest(ms, x, y);
    let j = nearest(ms, x, y);
    if j != i {
        if j == k {
            assert(marker_dist(ms, k, x, y) < marker_dist(ms, i, x, y));
        } else {
            assert(marker_dist(ms, j, x, y) <= marker_dist(ms, i, x, y));
        }
    }
}

/// Every pixel of the diagram takes the palette color of some marker, so
/// no pixel keeps a `background` that the palette does not hold.
pub proof fn law_partition_coverage(
    before: CanvasView,
    ms: Seq<Point>,
    palette: Seq<u32>,
    after: CanvasView,
    x: int,
    y: int,
    background: u32,
)
    requires
        ms.len() >= 1,
        palette.len() >= 1,
        voronoi_painted(before, ms, palette, after),
        after.in_bounds(x, y),
    ensures
        exists|j: int|
            0 <= j < ms.len() && after.pixel(x, y) == #[trigger] palette[j % (palette.len() as int)],
        (forall|p: int| 0 <= p < palette.len() ==> #[trigger] palette[p] != background)
            ==> after.pixel(x, y) != background,
{
    lemma_nearest(ms, x, y);
    let j = nearest(ms, x, y);
    assert(0 <= j % (palette.len() as int) < palette.len());
}

/// With a single marker the whole canvas is one cell, painted with the first
/// palette color.
pub proof fn law_single_marker(
    before: CanvasView,
    ms: Seq<Point>,
    palette: Seq<u32>,
    after: CanvasView,
)
    requires
        ms.len() == 1,
        palette.len() >= 1,
        voronoi_painted(before, ms, palette, after),
    ensures
        forall|x: int, y: int| #[trigger]
            after.in_bounds(x, y) ==> after.pixel(x, y) == palette[0],
{
    assert forall|x: int, y: int| #[trigger] after.in_bounds(x, y) implies after.pixel(x, y)
        == palette[0] by {
        lemma_nearest(ms, x, y);
        assert(nearest(ms, x, y) == 0);
        assert(0int % (palette.len() as int) == 0);
    }
}

/// The diagram depends on the canvas only through its size: two canvases of
/// the same size come out identical.
pub proof fn law_render_deterministic(
    a: CanvasView,
    b: CanvasView,
    ms: Seq<Point>,
    palette: Seq<u32>,
    ra: CanvasView,
    rb: CanvasView,
)
    requires
        a.same_size(b),
        voronoi_painted(a, ms, palette, ra),
        voronoi_painted(b, ms, palette, rb),
    ensures
        ra == rb,
{
    assert forall|x: int, y: int| #[trigger] ra.in_bounds(x, y) implies ra.pixel(x, y) == rb.pixel(
        x,
        y,
    ) by {
        assert(rb.in_bounds(x, y));
    }
    lemma_same_pixels_same_view(ra, rb);
}

} // verus!
