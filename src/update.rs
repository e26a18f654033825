//! Building and serialising FramebufferUpdate messages: a captured BGRA
//! rectangle is transcoded to the session's pixel format, encoded, and laid
//! out on the wire.

use vstd::prelude::*;
use vstd::arithmetic::div_mod::lemma_div_multiples_vanish;
use crate::wire::{be16, be32, push_u16, push_u32, push_bytes};
use crate::server::{PixelFormat, FrameBuffer, FrameBufferRectangle, FrameBufferUpdate, RFBEncodingType, ServerToClientMessage};
use crate::transcode::{transcode, transcode_spec, compact_pixels, compact_spec};
use crate::encoding_hextile::{self, hextile_payload};
use crate::encoding_zrle::{self, zrle_payload};
use crate::encoding_raw;
use crate::encoding_zlib;
use crate::zstream::{SpifySession, DeflateError, zlib_sync_output};

verus! {

/// Whether rectangles of this encoding carry a length prefix.
pub open spec fn has_length_prefix(encoding: i32) -> bool {
    encoding == RFBEncodingType::ZLIB || encoding == RFBEncodingType::ZRLE
}

/// One rectangle on the wire.
pub open spec fn rect_bytes(r: FrameBufferRectangle) -> Seq<u8> {
    be16(r.x_position) + be16(r.y_position) + be16(r.width) + be16(r.height) + be32(r.encoding_type as u32) + (
    if has_length_prefix(r.encoding_type) {
        be32(r.encoded_pixels_length)
    } else {
        Seq::empty()
    }) + r.encoded_pixels@
}

/// Rectangles on the wire, one after the other.
pub open spec fn rects_bytes(rs: Seq<FrameBufferRectangle>) -> Seq<u8>
    decreases rs.len(),
{
    if rs.len() == 0 {
        Seq::empty()
    } else {
        rects_bytes(rs.drop_last()) + rect_bytes(rs.last())
    }
}

/// A FramebufferUpdate message on the wire.
pub open spec fn update_bytes(u: FrameBufferUpdate) -> Seq<u8> {
    seq![u.message_type, u.padding] + be16(u.number_of_rectangles) + rects_bytes(u.frame_buffer@)
}

/// Serialises a FramebufferUpdate message.
pub fn write_framebuffer_update_message(update: &FrameBufferUpdate) -> (r: Vec<u8>)
    ensures
        r@ == update_bytes(*update),
{
    let mut out: Vec<u8> = Vec::new();
    out.push(update.message_type);
    out.push(update.padding);
    push_u16(&mut out, update.number_of_rectangles);
    let ghost head = out@;
    let mut i: usize = 0;
    while i < update.frame_buffer.len()
        invariant
            i <= update.frame_buffer@.len(),
            out@ == head + rects_bytes(update.frame_buffer@.subrange(0, i as int)),
        decreases update.frame_buffer@.len() - i,
    {
        let rect = &update.frame_buffer[i];
        let ghost before = out@;
        push_u16(&mut out, rect.x_position);
        push_u16(&mut out, rect.y_position);
        push_u16(&mut out, rect.width);
        push_u16(&mut out, rect.height);
        push_u32(&mut out, rect.encoding_type as u32);
        if rect.encoding_type == RFBEncodingType::ZLIB || rect.encoding_type == RFBEncodingType::ZRLE {
            push_u32(&mut out, rect.encoded_pixels_length);
        }
        push_bytes(&mut out, rect.encoded_pixels.as_slice());
        assert(out@ =~= before + rect_bytes(*rect));
        assert(update.frame_buffer@.subrange(0, i + 1).drop_last() =~= update.frame_buffer@.subrange(0, i as int));
        i = i + 1;
    }
    assert(update.frame_buffer@.subrange(0, update.frame_buffer@.len() as int) =~= update.frame_buffer@);
    assert(out@ =~= update_bytes(*update));
    out
}

/// The pixels that get encoded: transcoded when the layout is supported,
/// else the captured bytes as they are.
pub open spec fn target_pixels(pf: PixelFormat, captured: Seq<u8>) -> Seq<u8> {
    if pf.supported() {
        transcode_spec(pf, captured)
    } else {
        captured
    }
}

/// Whether a rectangle in `encoding` is actually encoded so: other encodings,
/// and any layout the transcoder does not handle, are sent RAW.
pub open spec fn encodes_as(pf: PixelFormat, encoding: i32, wanted: i32) -> bool {
    pf.supported() && encoding == wanted
}

/// Transcodes a captured rectangle (`4 * width * height` BGRA bytes) to the
/// layout `pf`, encodes it, and wraps it as a one-rectangle update. ZLIB and
/// ZRLE feed the session's stream of that encoding; the other stream is left
/// alone.
pub fn rectangle_framebuffer_update(
    pf: &PixelFormat,
    captured: Vec<u8>,
    encoding_type: i32,
    x_position: u16,
    y_position: u16,
    width: u16,
    height: u16,
    session: &mut SpifySession,
) -> (r: Result<FrameBufferUpdate, DeflateError>)
    requires
        captured@.len() == 4 * width * height,
    ensures
        ({
            let pixels = target_pixels(*pf, captured@);
            let area = width > 0 && height > 0;
            &&& (r matches Ok(u) ==> {
                &&& u.message_type == ServerToClientMessage::FRAME_BUFFER_UPDATE
                &&& u.padding == 0
                &&& u.number_of_rectangles == 1
                &&& u.frame_buffer@.len() == 1
                &&& u.frame_buffer@[0].x_position == x_position
                &&& u.frame_buffer@[0].y_position == y_position
                &&& u.frame_buffer@[0].width == width
                &&& u.frame_buffer@[0].height == height
            })
            &&& (encodes_as(*pf, encoding_type, RFBEncodingType::HEX_TILE) && area) ==> (r matches Ok(u)
                && u.frame_buffer@[0].encoding_type == RFBEncodingType::HEX_TILE
                && u.frame_buffer@[0].encoded_pixels@ == hextile_payload(
                pixels,
                width as nat,
                height as nat,
                pf.bytes_per_pixel(),
            ))
            &&& encodes_as(*pf, encoding_type, RFBEncodingType::ZLIB) ==> {
                &&& final(session).zrle_stream == old(session).zrle_stream
                &&& final(session).zlib_stream.history() == old(session).zlib_stream.history().push(pixels)
                &&& (r is Ok <==> zlib_sync_output(final(session).zlib_stream.history()).len() <= u32::MAX)
                &&& (r matches Ok(u) ==> u.frame_buffer@[0].encoding_type == RFBEncodingType::ZLIB
                    && u.frame_buffer@[0].encoded_pixels@ == zlib_sync_output(final(session).zlib_stream.history()))
            }
            &&& (encodes_as(*pf, encoding_type, RFBEncodingType::ZRLE) && area) ==> {
                &&& final(session).zlib_stream == old(session).zlib_stream
                &&& final(session).zrle_stream.history() == old(session).zrle_stream.history().push(
                    zrle_payload(compact_spec(*pf, pixels), width as nat, height as nat, pf.bytes_per_cpixel()),
                )
                &&& (r is Ok <==> zlib_sync_output(final(session).zrle_stream.history()).len() <= u32::MAX)
                &&& (r matches Ok(u) ==> u.frame_buffer@[0].encoding_type == RFBEncodingType::ZRLE
                    && u.frame_buffer@[0].encoded_pixels@ == zlib_sync_output(final(session).zrle_stream.history()))
            }
            &&& !(encodes_as(*pf, encoding_type, RFBEncodingType::ZLIB) || (encodes_as(
                *pf,
                encoding_type,
                RFBEncodingType::ZRLE,
            ) && area) || (encodes_as(*pf, encoding_type, RFBEncodingType::HEX_TILE) && area)) ==> *final(session)
                == *old(session) && (r matches Ok(u) && u.frame_buffer@[0].encoding_type == RFBEncodingType::RAW
                && u.frame_buffer@[0].encoded_pixels@ == pixels)
            &&& (r matches Ok(u) ==> (has_length_prefix(u.frame_buffer@[0].encoding_type)
                ==> u.frame_buffer@[0].encoded_pixels_length == u.frame_buffer@[0].encoded_pixels@.len()))
        }),
{
    let supported = pf.bits_per_pixel == 8 || pf.bits_per_pixel == 16 || pf.bits_per_pixel == 32;
    let pixels = transcode(pf, &captured);
    let bits_per_pixel: u8 = if supported { pf.bits_per_pixel } else { 32 };
    let ghost wh = width as nat * height as nat;
    proof {
        assert(4 * width * height == 4 * (width * height)) by (nonlinear_arith);
        if supported {
            lemma_div_multiples_vanish(wh as int, 4);
            assert(pixels@.len() == wh * pf.bytes_per_pixel());
        }
    }
    let framebuffer = FrameBuffer {
        x_position,
        y_position,
        width,
        height,
        bits_per_pixel,
        depth: if supported { pf.depth } else { 24 },
        encoding: encoding_type,
        raw_pixels: pixels,
        encoded_pixels: Vec::new(),
    };
    let rect: FrameBufferRectangle;
    if supported && encoding_type == RFBEncodingType::HEX_TILE {
        rect = encoding_hextile::get_pixel_data(framebuffer);
    } else if supported && encoding_type == RFBEncodingType::ZLIB {
        rect = encoding_zlib::get_pixel_data(framebuffer, &mut session.zlib_stream)?;
    } else if supported && encoding_type == RFBEncodingType::ZRLE {
        let cpixels = compact_pixels(pf, &framebuffer.raw_pixels);
        proof {
            let b = pf.bytes_per_pixel();
            lemma_div_multiples_vanish(wh as int, b as int);
            assert(wh * b == b * wh) by (nonlinear_arith);
        }
        let compact = FrameBuffer { encoded_pixels: cpixels, ..framebuffer };
        rect = encoding_zrle::get_pixel_data(compact, &mut session.zrle_stream)?;
    } else {
        rect = encoding_raw::get_pixel_data(framebuffer);
    }
    let mut rects: Vec<FrameBufferRectangle> = Vec::new();
    rects.push(rect);
    Ok(FrameBufferUpdate {
        message_type: ServerToClientMessage::FRAME_BUFFER_UPDATE,
        padding: 0,
        number_of_rectangles: 1,
        frame_buffer: rects,
    })
}

} // verus!
