use vstd::arithmetic::div_mod::lemma_fundamental_div_mod;
use vstd::prelude::*;

verus! {

/// Largest width or height of a canvas: every pixel coordinate fits an `i32`.
pub const MAX_SIDE: usize = 0x7fff_ffff;

/// The mathematical model of a canvas: its dimensions and its cells, row by
/// row from the top-left corner.
pub ghost struct CanvasView {
    pub width: int,
    pub height: int,
    pub cells: Seq<u32>,
}

impl CanvasView {
    pub open spec fn wf(self) -> bool {
        &&& 1 <= self.width <= MAX_SIDE
        &&& 1 <= self.height <= MAX_SIDE
        &&& self.cells.len() == self.width * self.height
    }

    pub open spec fn in_bounds(self, x: int, y: int) -> bool {
        0 <= x < self.width && 0 <= y < self.height
    }

    pub open spec fn pixel(self, x: int, y: int) -> u32 {
        self.cells[y * self.width + x]
    }

    pub open spec fn same_size(self, other: CanvasView) -> bool {
        self.width == other.width && self.height == other.height
    }
}

/// Distinct pixels of a canvas have distinct cells, and every cell lies in it.
pub proof fn lemma_cell_index(w: int, h: int, x: int, y: int, x2: int, y2: int)
    requires
        1 <= w,
        0 <= x < w,
        0 <= y < h,
        0 <= x2 < w,
        0 <= y2 < h,
    ensures
        0 <= y * w + x < w * h,
        y * w + x == y2 * w + x2 ==> x == x2 && y == y2,
{
    assert(0 <= y * w + x < w * h) by (nonlinear_arith)
        requires
            1 <= w,
            0 <= x < w,
            0 <= y < h,
    ;
    if y * w + x == y2 * w + x2 {
        if y < y2 {
            assert(y * w + x < y2 * w + x2) by (nonlinear_arith)
                requires
                    y < y2,
                    0 <= x < w,
                    0 <= x2,
            ;
        } else if y2 < y {
            assert(y2 * w + x2 < y * w + x) by (nonlinear_arith)
                requires
                    y2 < y,
                    0 <= x2 < w,
                    0 <= x,
            ;
        }
    }
}

/// Two well-formed views of one size that agree on every pixel are equal.
pub proof fn lemma_same_pixels_same_view(a: CanvasView, b: CanvasView)
    requires
        a.wf(),
        b.wf(),
        a.same_size(b),
        forall|x: int, y: int| #[trigger] a.in_bounds(x, y) ==> a.pixel(x, y) == b.pixel(x, y),
    ensures
        a == b,
{
    assert forall|k: int| 0 <= k < a.cells.len() implies a.cells[k] == b.cells[k] by {
        let w = a.width;
        let x = k % w;
        let y = k / w;
        lemma_fundamental_div_mod(k, w);
        assert(0 <= x < w);
        assert(0 <= y < a.height) by (nonlinear_arith)
            requires
                k == w * y + x,
                0 <= x < w,
                0 <= k < w * a.height,
        ;
        assert(a.in_bounds(x, y));
        assert(y * w + x == k) by (nonlinear_arith)
            requires
                k == w * y + x,
        ;
    }
    assert(a.cells =~= b.cells);
}

/// A fixed-size grid of packed colors.
pub struct Canvas {
    width: usize,
    height: usize,
    pixels: Vec<u32>,
}

impl View for Canvas {
    type V = CanvasView;

    closed spec fn view(&self) -> CanvasView {
        CanvasView { width: self.width as int, height: self.height as int, cells: self.pixels@ }
    }
}

impl Canvas {
    /// A canvas of the given size with every cell `color`; `None` where a side
    /// is zero or larger than `MAX_SIDE`, or the cells would not fit memory.
    pub fn new(width: usize, height: usize, color: u32) -> (r: Option<Canvas>)
        ensures
            r is Some <==> (1 <= width <= MAX_SIDE && 1 <= height <= MAX_SIDE && width * height
                <= usize::MAX),
            r matches Some(c) ==> {
                &&& c@.wf()
                &&& c@.width == width
                &&& c@.height == height
                &&& forall|x: int, y: int| #[trigger]
                    c@.in_bounds(x, y) ==> c@.pixel(x, y) == color
            },
    {
        if width == 0 || height == 0 || width > MAX_SIDE || height > MAX_SIDE {
            return None;
        }
        let n = match width.checked_mul(height) {
            Some(n) => n,
            None => {
                return None;
            },
        };
        let mut pixels: Vec<u32> = Vec::new();
        let mut i: usize = 0;
        while i < n
            invariant
                i <= n,
                pixels@.len() == i,
                forall|k: int| 0 <= k < i ==> pixels@[k] == color,
            decreases n - i,
        {
            pixels.push(color);
            i = i + 1;
        }
        let c = Canvas { width, height, pixels };
        assert forall|x: int, y: int| #[trigger] c@.in_bounds(x, y) implies c@.pixel(x, y)
            == color by {
            lemma_cell_index(c@.width, c@.height, x, y, x, y);
        }
        Some(c)
    }

    pub fn width(&self) -> (r: usize)
        ensures
            r == self@.width,
    {
        self.width
    }

    pub fn height(&self) -> (r: usize)
        ensures
            r == self@.height,
    {
        self.height
    }

    pub fn dimensions(&self) -> (r: (usize, usize))
        ensures
            r.0 == self@.width,
            r.1 == self@.height,
    {
        (self.width, self.height)
    }

    /// The cells, row by row.
    pub fn cells(&self) -> (r: &[u32])
        ensures
            r@ == self@.cells,
    {
        self.pixels.as_slice()
    }

    /// Sets every cell to `color`.
    pub fn fill_image(&mut self, color: u32)
        requires
            old(self)@.wf(),
        ensures
            final(self)@.wf(),
            final(self)@.same_size(old(self)@),
            forall|x: int, y: int| #[trigger]
                final(self)@.in_bounds(x, y) ==> final(self)@.pixel(x, y) == color,
    {
        let n = self.pixels.len();
        let mut i: usize = 0;
        while i < n
            invariant
                i <= n,
                n == self.pixels@.len(),
                self.width == old(self).width,
                self.height == old(self).height,
                forall|k: int| 0 <= k < i ==> self.pixels@[k] == color,
            decreases n - i,
        {
            self.pixels.set(i, color);
            i = i + 1;
        }
        assert forall|x: int, y: int| #[trigger] self@.in_bounds(x, y) implies self@.pixel(x, y)
            == color by {
            lemma_cell_index(self@.width, self@.height, x, y, x, y);
        }
    }

    /// The color at `(x, y)`.
    pub fn get(&self, x: usize, y: usize) -> (r: u32)
        requires
            self@.wf(),
            self@.in_bounds(x as int, y as int),
        ensures
            r == self@.pixel(x as int, y as int),
    {
        proof {
            lemma_cell_index(self@.width, self@.height, x as int, y as int, x as int, y as int);
            assert(y * self.width + x < self.pixels.len());
        }
        let i = y * self.width + x;
        self.pixels[i]
    }

    /// Writes `color` at `(x, y)` and leaves every other cell as it was.
    pub fn set(&mut self, x: usize, y: usize, color: u32)
        requires
            old(self)@.wf(),
            old(self)@.in_bounds(x as int, y as int),
        ensures
            final(self)@.wf(),
            final(self)@.same_size(old(self)@),
            forall|px: int, py: int| #[trigger]
                final(self)@.in_bounds(px, py) ==> final(self)@.pixel(px, py) == if px == x
                    && py == y {
                    color
                } else {
                    old(self)@.pixel(px, py)
                },
    {
        proof {
            lemma_cell_index(self@.width, self@.height, x as int, y as int, x as int, y as int);
            assert(y * self.width + x < self.pixels.len());
        }
        let i = y * self.width + x;
        self.pixels.set(i, color);
        assert forall|px: int, py: int| #[trigger] self@.in_bounds(px, py) implies self@.pixel(
            px,
            py,
        ) == if px == x && py == y {
            color
        } else {
            old(self)@.pixel(px, py)
        } by {
            lemma_cell_index(self@.width, self@.height, px, py, x as int, y as int);
        }
    }
}

} // verus!
