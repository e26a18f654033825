//! Tiling of a pixel buffer: tiles are taken row-major, left to right and
//! top to bottom; tiles on the right and bottom edges keep the remaining
//! width and height.

use vstd::prelude::*;
use vstd::arithmetic::div_mod::{lemma_fundamental_div_mod, lemma_mod_bound, lemma_div_is_ordered};

verus! {

/// Number of tiles of `size` needed to cover `len`.
pub open spec fn tile_count(len: nat, size: nat) -> nat {
    ((len + size - 1) as nat / size) as nat
}

/// Column of the left edge of tile `t`.
pub open spec fn tile_x(width: nat, size: nat, t: nat) -> nat {
    ((t % tile_count(width, size)) * size) as nat
}

/// Row of the top edge of tile `t`.
pub open spec fn tile_y(width: nat, size: nat, t: nat) -> nat {
    ((t / tile_count(width, size)) * size) as nat
}

pub open spec fn min_nat(a: nat, b: nat) -> nat {
    if a < b {
        a
    } else {
        b
    }
}

/// Width of tile `t`.
pub open spec fn tile_w(width: nat, size: nat, t: nat) -> nat {
    min_nat(size, (width - tile_x(width, size, t)) as nat)
}

/// Height of tile `t`.
pub open spec fn tile_h(width: nat, height: nat, size: nat, t: nat) -> nat {
    min_nat(size, (height - tile_y(width, size, t)) as nat)
}

/// The first `rows` rows of the `cols`-pixel-wide block at (`x0`, `y0`) of a
/// buffer `width` pixels wide with `bpp` bytes per pixel, row after row.
pub open spec fn block_bytes(pixels: Seq<u8>, width: nat, bpp: nat, x0: nat, y0: nat, cols: nat, rows: nat) -> Seq<u8>
    decreases rows,
{
    if rows == 0 {
        Seq::empty()
    } else {
        let start = ((y0 + rows - 1) * width + x0) * bpp;
        block_bytes(pixels, width, bpp, x0, y0, cols, (rows - 1) as nat) + pixels.subrange(
            start as int,
            (start + cols * bpp) as int,
        )
    }
}

/// The bytes of tile `t`.
pub open spec fn tile_bytes(pixels: Seq<u8>, width: nat, height: nat, bpp: nat, size: nat, t: nat) -> Seq<u8> {
    block_bytes(
        pixels,
        width,
        bpp,
        tile_x(width, size, t),
        tile_y(width, size, t),
        tile_w(width, size, t),
        tile_h(width, height, size, t),
    )
}

/// Every pixel of `tile` is byte-identical to its first pixel.
pub open spec fn uniform(tile: Seq<u8>, bpp: nat) -> bool {
    forall|j: int| 0 <= j < tile.len() ==> #[trigger] tile[j] == tile[j % (bpp as int)]
}

/// Position and size of tile `t`, as (x, y, w, h).
pub fn tile_rect(width: usize, height: usize, size: usize, t: usize) -> (r: (usize, usize, usize, usize))
    requires
        size > 0,
        width > 0,
        height > 0,
        width + size <= usize::MAX,
        t < tile_count(width as nat, size as nat) * tile_count(height as nat, size as nat),
    ensures
        r.0 == tile_x(width as nat, size as nat, t as nat),
        r.1 == tile_y(width as nat, size as nat, t as nat),
        r.2 == tile_w(width as nat, size as nat, t as nat),
        r.3 == tile_h(width as nat, height as nat, size as nat, t as nat),
        r.0 + r.2 <= width,
        r.1 + r.3 <= height,
        0 < r.2 <= size,
        0 < r.3 <= size,
{
    let across: usize = (width + size - 1) / size;
    let ghost down = tile_count(height as nat, size as nat);
    proof {
        lemma_fundamental_div_mod((width + size - 1) as int, size as int);
        lemma_mod_bound((width + size - 1) as int, size as int);
        assert(across >= 1) by (nonlinear_arith)
            requires across == (width + size - 1) / (size as int), width > 0, size > 0;
        assert(size * across <= width + size - 1);
        assert((across - 1) * size == across * size - size) by (nonlinear_arith);
        assert((across - 1) * size < width);
        lemma_fundamental_div_mod(t as int, across as int);
        lemma_mod_bound(t as int, across as int);
        lemma_fundamental_div_mod((height + size - 1) as int, size as int);
        lemma_mod_bound((height + size - 1) as int, size as int);
        assert((t as int) / (across as int) < down) by (nonlinear_arith)
            requires t < across * down, across >= 1;
        assert(size * down <= height + size - 1);
        assert((down - 1) * size == down * size - size) by (nonlinear_arith);
        assert((down - 1) * size < height);
        assert((t % across) * size <= (across - 1) * size) by (nonlinear_arith)
            requires (t as int) % (across as int) < across, size > 0;
        assert((t / across) * size <= (down - 1) * size) by (nonlinear_arith)
            requires (t as int) / (across as int) < down, size > 0;
    }
    let x: usize = (t % across) * size;
    let y: usize = (t / across) * size;
    let w: usize = if size < width - x { size } else { width - x };
    let h: usize = if size < height - y { size } else { height - y };
    (x, y, w, h)
}

/// Appends `src[start..end]` to `out`.
fn append_range(out: &mut Vec<u8>, src: &Vec<u8>, start: usize, end: usize)
    requires
        start <= end <= src@.len(),
    ensures
        final(out)@ == old(out)@ + src@.subrange(start as int, end as int),
{
    let ghost base = old(out)@;
    let mut k: usize = start;
    while k < end
        invariant
            start <= k <= end <= src@.len(),
            out@ == base + src@.subrange(start as int, k as int),
        decreases end - k,
    {
        out.push(src[k]);
        k = k + 1;
        assert(src@.subrange(start as int, k as int) =~= src@.subrange(start as int, k - 1).push(src@[k - 1]));
    }
}

/// The bytes of the `cols` x `rows` block at (`x0`, `y0`).
pub fn extract_block(
    pixels: &Vec<u8>,
    width: usize,
    height: usize,
    bpp: usize,
    x0: usize,
    y0: usize,
    cols: usize,
    rows: usize,
) -> (r: Vec<u8>)
    requires
        pixels@.len() == width * height * bpp,
        bpp > 0,
        x0 + cols <= width,
        y0 + rows <= height,
    ensures
        r@ == block_bytes(pixels@, width as nat, bpp as nat, x0 as nat, y0 as nat, cols as nat, rows as nat),
        r@.len() == cols * rows * bpp,
{
    let mut out: Vec<u8> = Vec::new();
    let mut row: usize = 0;
    let total: usize = pixels.len();
    assert(cols * 0 * bpp == 0) by (nonlinear_arith);
    while row < rows
        invariant
            pixels@.len() == width * height * bpp,
            total == pixels@.len(),
            bpp > 0,
            pixels@.len() <= usize::MAX,
            x0 + cols <= width,
            y0 + rows <= height,
            row <= rows,
            out@ == block_bytes(pixels@, width as nat, bpp as nat, x0 as nat, y0 as nat, cols as nat, row as nat),
            out@.len() == cols * row * bpp,
        decreases rows - row,
    {
        proof {
            assert(((y0 + row) * width + x0 + cols) * bpp <= width * height * bpp) by (nonlinear_arith)
                requires y0 + row < height, x0 + cols <= width;
            assert(((y0 + row) * width + x0) * bpp + cols * bpp == ((y0 + row) * width + x0 + cols) * bpp)
                by (nonlinear_arith);
            assert(cols * (row + 1) * bpp == cols * row * bpp + cols * bpp) by (nonlinear_arith);
            assert(0 <= ((y0 + row) * width + x0) * bpp) by (nonlinear_arith);
            assert((y0 + row) * width + x0 <= ((y0 + row) * width + x0) * bpp) by (nonlinear_arith)
                requires bpp > 0;
            assert((y0 + row) * width <= (y0 + row) * width + x0);
        }
        let start: usize = ((y0 + row) * width + x0) * bpp;
        append_range(&mut out, pixels, start, start + cols * bpp);
        row = row + 1;
    }
    out
}

/// Whether every pixel of `tile` is byte-identical to the first one.
pub fn is_uniform(tile: &Vec<u8>, bpp: usize) -> (r: bool)
    requires
        bpp > 0,
    ensures
        r == uniform(tile@, bpp as nat),
{
    let mut j: usize = 0;
    while j < tile.len()
        invariant
            bpp > 0,
            j <= tile@.len(),
            forall|i: int| 0 <= i < j ==> #[trigger] tile@[i] == tile@[i % (bpp as int)],
        decreases tile@.len() - j,
    {
        proof {
            lemma_mod_bound(j as int, bpp as int);
            assert(j % bpp <= j) by (nonlinear_arith)
                requires bpp > 0;
        }
        if tile[j] != tile[j % bpp] {
            return false;
        }
        j = j + 1;
    }
    true
}

} // verus!
