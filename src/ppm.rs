use vstd::prelude::*;

use crate::canvas::{Canvas, CanvasView};

verus! {

/// The decimal digits of `n` in ASCII, most significant first.
pub open spec fn decimal(n: nat) -> Seq<u8>
    decreases n,
{
    if n < 10 {
        seq![(48 + n) as u8]
    } else {
        decimal(n / 10).push((48 + n % 10) as u8)
    }
}

/// The red, green and blue bytes of a packed color; alpha is dropped.
pub open spec fn rgb(c: u32) -> Seq<u8> {
    seq![((c >> 16u32) & 0xffu32) as u8, ((c >> 8u32) & 0xffu32) as u8, (c & 0xffu32) as u8]
}

/// Three bytes for each cell, in order.
pub open spec fn pixel_bytes(cells: Seq<u32>) -> Seq<u8>
    decreases cells.len(),
{
    if cells.len() == 0 {
        Seq::empty()
    } else {
        pixel_bytes(cells.drop_last()) + rgb(cells.last())
    }
}

/// The ASCII header of a binary pixel map: the magic number, the width and
/// the height in decimal, and the largest channel value 255, each line ended
/// by a newline (width and height share a line, separated by a space).
pub open spec fn ppm_header(width: nat, height: nat) -> Seq<u8> {
    seq![80u8, 54u8, 10u8] + decimal(width) + seq![32u8] + decimal(height) + seq![
        10u8,
        50u8,
        53u8,
        53u8,
        10u8,
    ]
}

/// The binary pixel map of a canvas: the header, then the cells row by row.
pub open spec fn ppm_bytes(v: CanvasView) -> Seq<u8> {
    ppm_header(v.width as nat, v.height as nat) + pixel_bytes(v.cells)
}

/// Appends the decimal digits of `n`.
fn push_decimal(out: &mut Vec<u8>, n: usize)
    ensures
        final(out)@ == old(out)@ + decimal(n as nat),
    decreases n,
{
    if n >= 10 {
        push_decimal(out, n / 10);
    }
    out.push((n % 10) as u8 + 48);
    assert(final(out)@ =~= old(out)@ + decimal(n as nat));
}

/// Encodes the canvas as a binary pixel map.
pub fn encode_ppm(canvas: &Canvas) -> (r: Vec<u8>)
    requires
        canvas@.wf(),
    ensures
        r@ == ppm_bytes(canvas@),
{
    let (width, height) = canvas.dimensions();
    let mut out: Vec<u8> = Vec::new();
    out.push(80);
    out.push(54);
    out.push(10);
    push_decimal(&mut out, width);
    out.push(32);
    push_decimal(&mut out, height);
    out.push(10);
    out.push(50);
    out.push(53);
    out.push(53);
    out.push(10);
    assert(out@ =~= ppm_header(width as nat, height as nat));
    let ghost header = out@;
    let cells = canvas.cells();
    let mut i: usize = 0;
    while i < cells.len()
        invariant
            i <= cells@.len(),
            cells@ == canvas@.cells,
            out@ == header + pixel_bytes(cells@.subrange(0, i as int)),
        decreases cells@.len() - i,
    {
        let c = cells[i];
        out.push(((c >> 16u32) & 0xffu32) as u8);
        out.push(((c >> 8u32) & 0xffu32) as u8);
        out.push((c & 0xffu32) as u8);
        assert(cells@.subrange(0, i + 1).drop_last() =~= cells@.subrange(0, i as int));
        i = i + 1;
        assert(out@ =~= header + pixel_bytes(cells@.subrange(0, i as int)));
    }
    assert(cells@.subrange(0, cells@.len() as int) =~= cells@);
    out
}

} // verus!
