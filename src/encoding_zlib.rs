//! ZLIB (encoding 6): the pixels compressed by the session's ZLIB stream and
//! prefixed with their length.

use vstd::prelude::*;
use crate::server::{FrameBuffer, FrameBufferRectangle, RFBEncodingType};
use crate::zstream::{ZStream, DeflateError, zlib_sync_output};

verus! {

/// Compresses a framebuffer's pixels as the next chunk of the session's ZLIB
/// stream.
pub fn get_pixel_data(framebuffer: FrameBuffer, stream: &mut ZStream) -> (r: Result<FrameBufferRectangle, DeflateError>)
    ensures
        final(stream).history() == old(stream).history().push(framebuffer.raw_pixels@),
        zlib_sync_output(final(stream).history()).len() <= u32::MAX ==> r is Ok,
        match r {
            Ok(rect) => {
                &&& rect.x_position == framebuffer.x_position
                &&& rect.y_position == framebuffer.y_position
                &&& rect.width == framebuffer.width
                &&& rect.height == framebuffer.height
                &&& rect.encoding_type == RFBEncodingType::ZLIB
                &&& final(stream).history() == old(stream).history().push(framebuffer.raw_pixels@)
                &&& rect.encoded_pixels@ == zlib_sync_output(final(stream).history())
                &&& rect.encoded_pixels_length == rect.encoded_pixels@.len()
            },
            Err(e) => e == DeflateError::TooLarge && final(stream).history() == old(stream).history().push(
                framebuffer.raw_pixels@,
            ) && zlib_sync_output(final(stream).history()).len() > u32::MAX,
        },
{
    let compressed = stream.deflate(&framebuffer.raw_pixels);
    if compressed.len() > u32::MAX as usize {
        return Err(DeflateError::TooLarge);
    }
    let length = compressed.len() as u32;
    Ok(FrameBufferRectangle {
        x_position: framebuffer.x_position,
        y_position: framebuffer.y_position,
        width: framebuffer.width,
        height: framebuffer.height,
        encoding_type: RFBEncodingType::ZLIB,
        encoded_pixels: compressed,
        encoded_pixels_length: length,
    })
}

} // verus!
