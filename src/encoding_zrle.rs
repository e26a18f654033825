//! ZRLE (encoding 16): 64x64 tiles of compact pixels, each sent solid or raw,
//! the whole tile stream then passed through the session's ZRLE zlib stream.

use vstd::prelude::*;
use vstd::arithmetic::div_mod::{lemma_fundamental_div_mod, lemma_mod_bound};
use crate::server::{FrameBuffer, FrameBufferRectangle, RFBEncodingType};
use crate::zstream::{ZStream, DeflateError, zlib_sync_output};
use crate::tiles::{tile_count, tile_bytes, uniform, tile_rect, extract_block, is_uniform};

verus! {

pub const ZRLE_TILE_SIZE: usize = 64;

/// Subencoding bytes.
pub const ZRLE_RAW: u8 = 0;
pub const ZRLE_SOLID: u8 = 1;

/// One encoded tile: `1` and its single colour when solid, else `0` and all
/// of its compact pixels.
pub open spec fn zrle_tile(tile: Seq<u8>, cpp: nat) -> Seq<u8> {
    if uniform(tile, cpp) {
        seq![1u8] + tile.subrange(0, cpp as int)
    } else {
        seq![0u8] + tile
    }
}

/// The encoded first `n` tiles.
pub open spec fn zrle_fold(cpixels: Seq<u8>, width: nat, height: nat, cpp: nat, n: nat) -> Seq<u8>
    decreases n,
{
    if n == 0 {
        Seq::empty()
    } else {
        zrle_fold(cpixels, width, height, cpp, (n - 1) as nat) + zrle_tile(
            tile_bytes(cpixels, width, height, cpp, 64, (n - 1) as nat),
            cpp,
        )
    }
}

/// The ZRLE tile stream of `width` x `height` compact pixels of `cpp` bytes,
/// before compression.
pub open spec fn zrle_payload(cpixels: Seq<u8>, width: nat, height: nat, cpp: nat) -> Seq<u8> {
    zrle_fold(cpixels, width, height, cpp, tile_count(width, 64) * tile_count(height, 64))
}

/// The ZRLE tile stream of a framebuffer, before compression.
pub open spec fn zrle_spec(fb: FrameBuffer) -> Seq<u8> {
    zrle_payload(fb.encoded_pixels@, fb.width as nat, fb.height as nat, fb.bytes_per_cpixel())
}

/// Wraps a framebuffer as a ZRLE rectangle: its tile stream, compressed by
/// the session's ZRLE stream and prefixed with its length. A zero-area one
/// is sent RAW and leaves the stream alone.
pub fn get_pixel_data(framebuffer: FrameBuffer, stream: &mut ZStream) -> (r: Result<FrameBufferRectangle, DeflateError>)
    requires
        framebuffer.wf_compact(),
    ensures
        (r matches Ok(rect) ==> rect.x_position == framebuffer.x_position && rect.y_position == framebuffer.y_position
            && rect.width == framebuffer.width && rect.height == framebuffer.height),
        framebuffer.width > 0 && framebuffer.height > 0 ==> final(stream).history() == old(stream).history().push(
            zrle_spec(framebuffer),
        ) && (zlib_sync_output(final(stream).history()).len() <= u32::MAX ==> r is Ok),
        framebuffer.width > 0 && framebuffer.height > 0 ==> match r {
            Ok(rect) => {
                &&& rect.encoding_type == RFBEncodingType::ZRLE
                &&& final(stream).history() == old(stream).history().push(zrle_spec(framebuffer))
                &&& rect.encoded_pixels@ == zlib_sync_output(final(stream).history())
                &&& rect.encoded_pixels_length == rect.encoded_pixels@.len()
            },
            Err(e) => e == DeflateError::TooLarge && final(stream).history() == old(stream).history().push(
                zrle_spec(framebuffer),
            ) && zlib_sync_output(final(stream).history()).len() > u32::MAX,
        },
        !(framebuffer.width > 0 && framebuffer.height > 0) ==> *final(stream) == *old(stream) && (r matches Ok(rect)
            && rect.encoding_type == RFBEncodingType::RAW && rect.encoded_pixels@ == framebuffer.raw_pixels@
            && rect.encoded_pixels_length == 0),
{
    if framebuffer.width > 0 && framebuffer.height > 0 {
        let tiles = encode(&framebuffer);
        let compressed = stream.deflate(&tiles);
        if compressed.len() > u32::MAX as usize {
            return Err(DeflateError::TooLarge);
        }
        let length = compressed.len() as u32;
        Ok(FrameBufferRectangle {
            x_position: framebuffer.x_position,
            y_position: framebuffer.y_position,
            width: framebuffer.width,
            height: framebuffer.height,
            encoding_type: RFBEncodingType::ZRLE,
            encoded_pixels: compressed,
            encoded_pixels_length: length,
        })
    } else {
        Ok(FrameBufferRectangle {
            x_position: framebuffer.x_position,
            y_position: framebuffer.y_position,
            width: framebuffer.width,
            height: framebuffer.height,
            encoding_type: RFBEncodingType::RAW,
            encoded_pixels: framebuffer.raw_pixels,
            encoded_pixels_length: 0,
        })
    }
}

/// The ZRLE tile stream of a non-empty framebuffer, read from its compact
/// pixels.
pub fn encode(framebuffer: &FrameBuffer) -> (r: Vec<u8>)
    requires
        framebuffer.wf_compact(),
        framebuffer.width > 0,
        framebuffer.height > 0,
    ensures
        r@ == zrle_spec(*framebuffer),
{
    let cpp: usize = if framebuffer.bits_per_pixel == 32 && framebuffer.depth <= 24 {
        3
    } else {
        (framebuffer.bits_per_pixel / 8) as usize
    };
    let width: usize = framebuffer.width as usize;
    let height: usize = framebuffer.height as usize;
    let cpixels = &framebuffer.encoded_pixels;
    let across: usize = (width + 63) / 64;
    let down: usize = (height + 63) / 64;
    let cpixel_len: usize = cpixels.len();
    proof {
        lemma_fundamental_div_mod((width + 63) as int, 64);
        lemma_fundamental_div_mod((height + 63) as int, 64);
        lemma_mod_bound((width + 63) as int, 64);
        lemma_mod_bound((height + 63) as int, 64);
        assert(across <= width && down <= height);
        assert(across * down <= width * height) by (nonlinear_arith)
            requires across <= width, down <= height;
        assert(width * height <= width * height * cpp) by (nonlinear_arith)
            requires cpp >= 1;
        assert(cpixel_len == cpixels@.len());
    }
    let total: usize = across * down;
    let mut out: Vec<u8> = Vec::new();
    let mut t: usize = 0;
    while t < total
        invariant
            framebuffer.wf_compact(),
            cpixels == &framebuffer.encoded_pixels,
            cpp == framebuffer.bytes_per_cpixel(),
            width == framebuffer.width,
            height == framebuffer.height,
            width > 0,
            height > 0,
            across == tile_count(width as nat, 64),
            down == tile_count(height as nat, 64),
            total == across * down,
            t <= total,
            out@ == zrle_fold(cpixels@, width as nat, height as nat, cpp as nat, t as nat),
        decreases total - t,
    {
        let (x0, y0, tw, th) = tile_rect(width, height, ZRLE_TILE_SIZE, t);
        let tile = extract_block(cpixels, width, height, cpp, x0, y0, tw, th);
        assert(tile@ == tile_bytes(cpixels@, width as nat, height as nat, cpp as nat, 64, t as nat));
        assert(tw * th * cpp >= cpp) by (nonlinear_arith)
            requires tw >= 1, th >= 1, cpp >= 1;
        let ghost before = out@;
        let count: usize;
        if is_uniform(&tile, cpp) {
            out.push(ZRLE_SOLID);
            count = cpp;
        } else {
            out.push(ZRLE_RAW);
            count = tile.len();
        }
        let ghost head = out@;
        let mut k: usize = 0;
        while k < count
            invariant
                k <= count <= tile@.len(),
                out@ == head + tile@.subrange(0, k as int),
            decreases count - k,
        {
            out.push(tile[k]);
            k = k + 1;
            assert(tile@.subrange(0, k as int) =~= tile@.subrange(0, k - 1).push(tile@[k - 1]));
        }
        assert(tile@.subrange(0, tile@.len() as int) =~= tile@);
        assert(out@ =~= before + zrle_tile(tile@, cpp as nat));
        t = t + 1;
    }
    out
}

} // verus!
