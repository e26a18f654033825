//! HEXTILE (encoding 5): 16x16 tiles, each sent raw or as a solid colour;
//! a solid colour equal to the last one sent costs a single byte.

use vstd::prelude::*;
use vstd::arithmetic::div_mod::{lemma_fundamental_div_mod, lemma_mod_bound};
use crate::server::{FrameBuffer, FrameBufferRectangle, RFBEncodingType};
use crate::tiles::{tile_count, tile_bytes, uniform, tile_rect, extract_block, is_uniform};
use crate::wire::slice_equal;

verus! {

pub const HEXTILE_SIZE: usize = 16;

/// Subencoding bytes.
pub const HEXTILE_RAW: u8 = 1;
pub const HEXTILE_BACKGROUND_SPECIFIED: u8 = 2;
pub const HEXTILE_SAME_BACKGROUND: u8 = 0;

/// Encodes one tile after the stream `acc.0`, whose last background colour
/// sent is `acc.1`.
pub open spec fn hextile_step(acc: (Seq<u8>, Option<Seq<u8>>), tile: Seq<u8>, bpp: nat) -> (Seq<u8>, Option<Seq<u8>>) {
    if uniform(tile, bpp) {
        let color = tile.subrange(0, bpp as int);
        if acc.1 == Some(color) {
            (acc.0.push(0u8), acc.1)
        } else {
            (acc.0.push(2u8) + color, Some(color))
        }
    } else {
        (acc.0.push(1u8) + tile, acc.1)
    }
}

/// The stream and last background after the first `n` tiles.
pub open spec fn hextile_fold(pixels: Seq<u8>, width: nat, height: nat, bpp: nat, n: nat) -> (Seq<u8>, Option<Seq<u8>>)
    decreases n,
{
    if n == 0 {
        (Seq::empty(), None)
    } else {
        hextile_step(
            hextile_fold(pixels, width, height, bpp, (n - 1) as nat),
            tile_bytes(pixels, width, height, bpp, 16, (n - 1) as nat),
            bpp,
        )
    }
}

/// The HEXTILE payload of `width` x `height` pixels of `bpp` bytes.
pub open spec fn hextile_payload(pixels: Seq<u8>, width: nat, height: nat, bpp: nat) -> Seq<u8> {
    hextile_fold(pixels, width, height, bpp, tile_count(width, 16) * tile_count(height, 16)).0
}

/// The HEXTILE payload of a framebuffer.
pub open spec fn hextile_spec(fb: FrameBuffer) -> Seq<u8> {
    hextile_payload(fb.raw_pixels@, fb.width as nat, fb.height as nat, fb.bytes_per_pixel())
}

/// Wraps a framebuffer as a HEXTILE rectangle; a zero-area one is sent RAW.
pub fn get_pixel_data(framebuffer: FrameBuffer) -> (r: FrameBufferRectangle)
    requires
        framebuffer.wf(),
    ensures
        r.x_position == framebuffer.x_position,
        r.y_position == framebuffer.y_position,
        r.width == framebuffer.width,
        r.height == framebuffer.height,
        r.encoded_pixels_length == 0,
        framebuffer.width > 0 && framebuffer.height > 0 ==> r.encoding_type == RFBEncodingType::HEX_TILE
            && r.encoded_pixels@ == hextile_spec(framebuffer),
        !(framebuffer.width > 0 && framebuffer.height > 0) ==> r.encoding_type == RFBEncodingType::RAW
            && r.encoded_pixels@ == framebuffer.raw_pixels@,
{
    if framebuffer.width > 0 && framebuffer.height > 0 {
        let x_position = framebuffer.x_position;
        let y_position = framebuffer.y_position;
        let width = framebuffer.width;
        let height = framebuffer.height;
        let encoded = encode(&framebuffer);
        FrameBufferRectangle {
            x_position,
            y_position,
            width,
            height,
            encoding_type: RFBEncodingType::HEX_TILE,
            encoded_pixels: encoded,
            encoded_pixels_length: 0,
        }
    } else {
        FrameBufferRectangle {
            x_position: framebuffer.x_position,
            y_position: framebuffer.y_position,
            width: framebuffer.width,
            height: framebuffer.height,
            encoding_type: RFBEncodingType::RAW,
            encoded_pixels: framebuffer.raw_pixels,
            encoded_pixels_length: 0,
        }
    }
}

/// The HEXTILE payload of a non-empty framebuffer.
pub fn encode(framebuffer: &FrameBuffer) -> (r: Vec<u8>)
    requires
        framebuffer.wf(),
        framebuffer.width > 0,
        framebuffer.height > 0,
    ensures
        r@ == hextile_spec(*framebuffer),
{
    let bpp: usize = (framebuffer.bits_per_pixel / 8) as usize;
    let width: usize = framebuffer.width as usize;
    let height: usize = framebuffer.height as usize;
    let pixels = &framebuffer.raw_pixels;
    let across: usize = (width + 15) / 16;
    let down: usize = (height + 15) / 16;
    let pixel_len: usize = pixels.len();
    proof {
        lemma_fundamental_div_mod((width + 15) as int, 16);
        lemma_fundamental_div_mod((height + 15) as int, 16);
        lemma_mod_bound((width + 15) as int, 16);
        lemma_mod_bound((height + 15) as int, 16);
        assert(across <= width && down <= height);
        assert(across * down <= width * height) by (nonlinear_arith)
            requires across <= width, down <= height;
        assert(width * height <= width * height * bpp) by (nonlinear_arith)
            requires bpp >= 1;
        assert(pixel_len == pixels@.len());
    }
    let total: usize = across * down;
    let mut out: Vec<u8> = Vec::new();
    let mut background: Vec<u8> = Vec::new();
    let mut has_background: bool = false;
    let mut t: usize = 0;
    while t < total
        invariant
            framebuffer.wf(),
            pixels == &framebuffer.raw_pixels,
            bpp == framebuffer.bytes_per_pixel(),
            width == framebuffer.width,
            height == framebuffer.height,
            width > 0,
            height > 0,
            across == tile_count(width as nat, 16),
            down == tile_count(height as nat, 16),
            total == across * down,
            t <= total,
            hextile_fold(pixels@, width as nat, height as nat, bpp as nat, t as nat) == (
                out@,
                if has_background { Some(background@) } else { None },
            ),
        decreases total - t,
    {
        let (x0, y0, tw, th) = tile_rect(width, height, HEXTILE_SIZE, t);
        let tile = extract_block(pixels, width, height, bpp, x0, y0, tw, th);
        assert(tile@ == tile_bytes(pixels@, width as nat, height as nat, bpp as nat, 16, t as nat));
        assert(tw * th * bpp >= bpp) by (nonlinear_arith)
            requires tw >= 1, th >= 1, bpp >= 1;
        if is_uniform(&tile, bpp) {
            let mut color: Vec<u8> = Vec::new();
            let mut k: usize = 0;
            while k < bpp
                invariant
                    k <= bpp,
                    bpp <= tile@.len(),
                    color@ == tile@.subrange(0, k as int),
                decreases bpp - k,
            {
                color.push(tile[k]);
                k = k + 1;
                assert(tile@.subrange(0, k as int) =~= tile@.subrange(0, k - 1).push(tile@[k - 1]));
            }
            if has_background && slice_equal(color.as_slice(), background.as_slice()) {
                out.push(HEXTILE_SAME_BACKGROUND);
            } else {
                out.push(HEXTILE_BACKGROUND_SPECIFIED);
                let ghost before = out@;
                let mut k2: usize = 0;
                while k2 < bpp
                    invariant
                        k2 <= bpp,
                        color@.len() == bpp,
                        out@ == before + color@.subrange(0, k2 as int),
                    decreases bpp - k2,
                {
                    out.push(color[k2]);
                    k2 = k2 + 1;
                    assert(color@.subrange(0, k2 as int) =~= color@.subrange(0, k2 - 1).push(color@[k2 - 1]));
                }
                assert(color@.subrange(0, bpp as int) =~= color@);
                background = color;
                has_background = true;
            }
        } else {
            out.push(HEXTILE_RAW);
            let ghost before = out@;
            let mut k: usize = 0;
            while k < tile.len()
                invariant
                    k <= tile@.len(),
                    out@ == before + tile@.subrange(0, k as int),
                decreases tile@.len() - k,
            {
                out.push(tile[k]);
                k = k + 1;
                assert(tile@.subrange(0, k as int) =~= tile@.subrange(0, k - 1).push(tile@[k - 1]));
            }
            assert(tile@.subrange(0, tile@.len() as int) =~= tile@);
        }
        t = t + 1;
    }
    out
}

/// A tile whose pixels are all byte-identical is sent as the single byte `0`
/// when its colour equals the last background colour sent, and otherwise as
/// `2` followed by its colour; either way its colour is then the background.
pub proof fn lemma_solid_tile(pixels: Seq<u8>, width: nat, height: nat, bpp: nat, n: nat)
    requires
        uniform(tile_bytes(pixels, width, height, bpp, 16, n), bpp),
    ensures
        ({
            let prev = hextile_fold(pixels, width, height, bpp, n);
            let next = hextile_fold(pixels, width, height, bpp, n + 1);
            let color = tile_bytes(pixels, width, height, bpp, 16, n).subrange(0, bpp as int);
            &&& prev.1 == Some(color) ==> next.0 == prev.0.push(0u8)
            &&& prev.1 != Some(color) ==> next.0 == prev.0.push(2u8) + color
            &&& next.1 == Some(color)
        }),
{
}

/// No tile is sent as `0` before some tile was sent as `2`: while no
/// background has been sent, the stream holds no background.
pub proof fn lemma_no_background_before_first(pixels: Seq<u8>, width: nat, height: nat, bpp: nat, n: nat)
    requires
        hextile_fold(pixels, width, height, bpp, n).1 is None,
        uniform(tile_bytes(pixels, width, height, bpp, 16, n), bpp),
    ensures
        hextile_fold(pixels, width, height, bpp, n + 1).0 == hextile_fold(pixels, width, height, bpp, n).0.push(2u8)
            + tile_bytes(pixels, width, height, bpp, 16, n).subrange(0, bpp as int),
{
}

} // verus!
