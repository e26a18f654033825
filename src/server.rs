//! The data model shared by the protocol engine and the encoders.

use vstd::prelude::*;

verus! {

/// Message types sent from server to client.
pub struct ServerToClientMessage;

impl ServerToClientMessage {
    pub const FRAME_BUFFER_UPDATE: u8 = 0;
    pub const SET_COLOR_MAP_ENTRIES: u8 = 1;
    pub const BELL: u8 = 2;
    pub const SERVER_CUT_TEXT: u8 = 3;
}

/// Message types sent from client to server.
pub struct ClientToServerMessage;

impl ClientToServerMessage {
    pub const SET_PIXEL_FORMAT: u8 = 0;
    pub const SET_ENCODINGS: u8 = 2;
    pub const FRAME_BUFFER_UPDATE_REQUEST: u8 = 3;
    pub const KEY_EVENT: u8 = 4;
    pub const POINTER_EVENT: u8 = 5;
    pub const CLIENT_CUT_TEXT: u8 = 6;
}

/// Encoding identifiers. Only RAW, HEX_TILE, ZLIB and ZRLE are produced.
pub struct RFBEncodingType;

impl RFBEncodingType {
    pub const RAW: i32 = 0;
    pub const COPY_RECT: i32 = 1;
    pub const RRE: i32 = 2;
    pub const HEX_TILE: i32 = 5;
    pub const ZLIB: i32 = 6;
    pub const TIGHT: i32 = 7;
    pub const TRLE: i32 = 15;
    pub const ZRLE: i32 = 16;
}

/// How a pixel is laid out on the wire (16 bytes).
#[derive(Clone, Copy, Debug, PartialEq, Eq)]
pub struct PixelFormat {
    pub bits_per_pixel: u8,
    pub depth: u8,
    pub big_endian_flag: u8,
    pub true_color_flag: u8,
    pub red_max: u16,
    pub green_max: u16,
    pub blue_max: u16,
    pub red_shift: u8,
    pub green_shift: u8,
    pub blue_shift: u8,
    pub padding: [u8; 3],
}

impl PixelFormat {
    /// Bytes per pixel on the wire.
    pub open spec fn bytes_per_pixel(self) -> nat {
        (self.bits_per_pixel / 8) as nat
    }

    /// Whether the transcoder handles this layout.
    pub open spec fn supported(self) -> bool {
        self.bits_per_pixel == 8 || self.bits_per_pixel == 16 || self.bits_per_pixel == 32
    }

    /// Bytes per compact pixel (CPIXEL): three for 32-bpp layouts whose
    /// depth fits in 24 bits, else the whole pixel.
    pub open spec fn bytes_per_cpixel(self) -> nat {
        if self.bits_per_pixel == 32 && self.depth <= 24 {
            3
        } else {
            self.bytes_per_pixel()
        }
    }

    pub open spec fn red_offset(self) -> nat {
        (self.red_shift / 8) as nat
    }

    pub open spec fn green_offset(self) -> nat {
        (self.green_shift / 8) as nat
    }

    pub open spec fn blue_offset(self) -> nat {
        (self.blue_shift / 8) as nat
    }
}

/// The layout captured pixels arrive in: 32 bits per pixel, 24-bit
/// true colour, little-endian, red at bits 16..24, green at 8..16, blue at
/// 0..8.
pub open spec fn native_pixel_format() -> PixelFormat {
    PixelFormat {
        bits_per_pixel: 32,
        depth: 24,
        big_endian_flag: 0,
        true_color_flag: 1,
        red_max: 255,
        green_max: 255,
        blue_max: 255,
        red_shift: 16,
        green_shift: 8,
        blue_shift: 0,
        padding: [0, 0, 0],
    }
}

pub fn get_pixelformat() -> (r: PixelFormat)
    ensures
        r == native_pixel_format(),
{
    PixelFormat {
        bits_per_pixel: 32,
        depth: 24,
        big_endian_flag: 0,
        true_color_flag: 1,
        red_max: 255,
        green_max: 255,
        blue_max: 255,
        red_shift: 16,
        green_shift: 8,
        blue_shift: 0,
        padding: [0, 0, 0],
    }
}

/// The body of a ServerInit message.
#[derive(Clone, Debug)]
pub struct RFBServerInit {
    pub framebuffer_width: u16,
    pub framebuffer_height: u16,
    pub server_pixelformat: PixelFormat,
    pub name_length: u32,
    pub name_string: String,
}

/// One encoded rectangle of a FramebufferUpdate.
#[derive(Clone, Debug)]
pub struct FrameBufferRectangle {
    pub x_position: u16,
    pub y_position: u16,
    pub width: u16,
    pub height: u16,
    pub encoding_type: i32,
    pub encoded_pixels: Vec<u8>,
    pub encoded_pixels_length: u32,
}

/// A captured rectangle after transcoding: `raw_pixels` holds the pixels in
/// the negotiated layout, `encoded_pixels` the compact pixels (ZRLE only).
#[derive(Clone, Debug)]
pub struct FrameBuffer {
    pub x_position: u16,
    pub y_position: u16,
    pub width: u16,
    pub height: u16,
    pub bits_per_pixel: u8,
    pub depth: u8,
    pub encoding: i32,
    pub raw_pixels: Vec<u8>,
    pub encoded_pixels: Vec<u8>,
}

impl FrameBuffer {
    pub open spec fn bytes_per_pixel(self) -> nat {
        (self.bits_per_pixel / 8) as nat
    }

    pub open spec fn bytes_per_cpixel(self) -> nat {
        if self.bits_per_pixel == 32 && self.depth <= 24 {
            3
        } else {
            self.bytes_per_pixel()
        }
    }

    /// `raw_pixels` holds exactly `width * height` pixels of a supported size.
    pub open spec fn wf(self) -> bool {
        &&& (self.bits_per_pixel == 8 || self.bits_per_pixel == 16 || self.bits_per_pixel == 32)
        &&& self.raw_pixels@.len() == self.width as nat * self.height as nat * self.bytes_per_pixel()
    }

    /// `encoded_pixels` holds exactly `width * height` compact pixels.
    pub open spec fn wf_compact(self) -> bool {
        &&& (self.bits_per_pixel == 8 || self.bits_per_pixel == 16 || self.bits_per_pixel == 32)
        &&& self.encoded_pixels@.len() == self.width as nat * self.height as nat * self.bytes_per_cpixel()
    }
}

/// A FramebufferUpdate message.
#[derive(Clone, Debug)]
pub struct FrameBufferUpdate {
    pub message_type: u8,
    pub padding: u8,
    pub number_of_rectangles: u16,
    pub frame_buffer: Vec<FrameBufferRectangle>,
}

} // verus!
