//! Raster images of discrete Voronoi diagrams: every pixel of a canvas takes
//! the palette color of its nearest marker, disks mark the markers, and the
//! result is encoded as a binary pixel map.
use vstd::prelude::*;

pub mod canvas;
pub mod disk;
pub mod geometry;
pub mod markers;
pub mod ppm;
pub mod voronoi;

use crate::canvas::CanvasView;
use crate::disk::markers_painted;
use crate::geometry::Point;
use crate::voronoi::{law_render_deterministic, voronoi_painted};

verus! {

/// Painting the diagram and then the marker disks gives the same image on
/// any two canvases of one size: the result depends only on the size, the
/// markers, the palette, the radius and the marker color.
pub proof fn law_diagram_deterministic(
    a: CanvasView,
    b: CanvasView,
    ms: Seq<Point>,
    palette: Seq<u32>,
    radius: int,
    color: u32,
    va: CanvasView,
    vb: CanvasView,
    ra: CanvasView,
    rb: CanvasView,
)
    requires
        a.same_size(b),
        voronoi_painted(a, ms, palette, va),
        voronoi_painted(b, ms, palette, vb),
        markers_painted(va, ms, radius, color, ra),
        markers_painted(vb, ms, radius, color, rb),
    ensures
        ra == rb,
{
    law_render_deterministic(a, b, ms, palette, va, vb);
    assert forall|x: int, y: int| #[trigger] ra.in_bounds(x, y) implies ra.pixel(x, y) == rb.pixel(
        x,
        y,
    ) by {
        assert(rb.in_bounds(x, y));
    }
    canvas::lemma_same_pixels_same_view(ra, rb);
}

} // verus!
