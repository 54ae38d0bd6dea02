use vstd::prelude::*;

use crate::canvas::MAX_SIDE;
use crate::geometry::Point;

verus! {

/// Relies on `rand::random::<usize>`: a value drawn from the thread-local
/// generator. Nothing is promised of it.
#[verifier::external_body]
fn draw() -> (r: usize) {
    rand::random::<usize>()
}

/// The point that the two draws `rx` and `ry` place on a `width` x `height`
/// canvas.
pub fn point_from_draws(rx: usize, ry: usize, width: usize, height: usize) -> (r: Point)
    requires
        1 <= width <= MAX_SIDE,
        1 <= height <= MAX_SIDE,
    ensures
        r.x == rx % width,
        r.y == ry % height,
{
    Point { x: (rx % width) as i32, y: (ry % height) as i32 }
}

/// `count` markers drawn at random, each inside a `width` x `height` canvas.
pub fn generate_random_markers(count: usize, width: usize, height: usize) -> (r: Vec<Point>)
    requires
        1 <= width <= MAX_SIDE,
        1 <= height <= MAX_SIDE,
    ensures
        r@.len() == count,
        forall|k: int|
            0 <= k < count ==> 0 <= #[trigger] r@[k].x < width && 0 <= r@[k].y < height,
{
    let mut markers: Vec<Point> = Vec::new();
    let mut i: usize = 0;
    while i < count
        invariant
            i <= count,
            1 <= width <= MAX_SIDE,
            1 <= height <= MAX_SIDE,
            markers@.len() == i,
            forall|k: int|
                0 <= k < i ==> 0 <= #[trigger] markers@[k].x < width && 0 <= markers@[k].y < height,
        decreases count - i,
    {
        let rx = draw();
        let ry = draw();
        markers.push(point_from_draws(rx, ry, width, height));
        i = i + 1;
    }
    markers
}

} // verus!
