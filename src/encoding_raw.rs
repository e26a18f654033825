//! RAW (encoding 0): the pixels as they are, row after row.

use vstd::prelude::*;
use crate::server::{FrameBuffer, FrameBufferRectangle, RFBEncodingType};

verus! {

/// Wraps a framebuffer's pixels as a RAW rectangle.
pub fn get_pixel_data(framebuffer: FrameBuffer) -> (r: FrameBufferRectangle)
    ensures
        r.x_position == framebuffer.x_position,
        r.y_position == framebuffer.y_position,
        r.width == framebuffer.width,
        r.height == framebuffer.height,
        r.encoding_type == RFBEncodingType::RAW,
        r.encoded_pixels@ == framebuffer.raw_pixels@,
        r.encoded_pixels_length == 0,
{
    FrameBufferRectangle {
        x_position: framebuffer.x_position,
        y_position: framebuffer.y_position,
        width: framebuffer.width,
        height: framebuffer.height,
        encoding_type: RFBEncodingType::RAW,
        encoded_pixels: framebuffer.raw_pixels,
        encoded_pixels_length: 0,
    }
}

} // verus!
