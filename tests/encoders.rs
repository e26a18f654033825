use flate2::{Decompress, FlushDecompress};
use spifyrfb::encoding_hextile;
use spifyrfb::encoding_raw;
use spifyrfb::encoding_zrle;
use spifyrfb::server::{get_pixelformat, FrameBuffer, FrameBufferRectangle, FrameBufferUpdate, RFBEncodingType};
use spifyrfb::update::{rectangle_framebuffer_update, write_framebuffer_update_message};
use spifyrfb::zstream::{SpifySession, ZStream};

fn solid_capture(w: usize, h: usize, bgra: [u8; 4]) -> Vec<u8> {
    let mut v = Vec::new();
    for _ in 0..w * h {
        v.extend_from_slice(&bgra);
    }
    v
}

fn inflate(d: &mut Decompress, data: &[u8]) -> Vec<u8> {
    let mut out = Vec::with_capacity(data.len() * 64 + 1024);
    d.decompress_vec(data, &mut out, FlushDecompress::Sync).unwrap();
    out
}

#[test]
fn hextile_three_solid_tiles() {
    let mut session = SpifySession::new();
    let captured = solid_capture(48, 16, [0xDD, 0xCC, 0xBB, 0xAA]);
    let update = rectangle_framebuffer_update(&get_pixelformat(), captured, RFBEncodingType::HEX_TILE, 0, 0, 48, 16, &mut session).unwrap();
    let rect = &update.frame_buffer[0];
    assert_eq!(rect.encoding_type, RFBEncodingType::HEX_TILE);
    assert_eq!(rect.encoded_pixels, vec![0x02, 0xDD, 0xCC, 0xBB, 0x00, 0x00, 0x00]);
}

#[test]
fn hextile_background_changes_and_repeats() {
    let mut pixels = Vec::new();
    // Three 16x16 tiles in a row: colours A, B, B.
    for _row in 0..16 {
        for x in 0..48 {
            pixels.push(if x < 16 { 7u8 } else { 9u8 });
        }
    }
    let fb = FrameBuffer { x_position: 0, y_position: 0, width: 48, height: 16, bits_per_pixel: 8, depth: 8, encoding: RFBEncodingType::HEX_TILE, raw_pixels: pixels, encoded_pixels: vec![] };
    assert_eq!(encoding_hextile::encode(&fb), vec![2, 7, 2, 9, 0]);
}

#[test]
fn hextile_non_solid_tile_is_raw_with_partial_size() {
    // 3x2 pixels, one byte each: a single partial tile.
    let fb = FrameBuffer { x_position: 0, y_position: 0, width: 3, height: 2, bits_per_pixel: 8, depth: 8, encoding: RFBEncodingType::HEX_TILE, raw_pixels: vec![1, 2, 3, 4, 5, 6], encoded_pixels: vec![] };
    assert_eq!(encoding_hextile::encode(&fb), vec![1, 1, 2, 3, 4, 5, 6]);
}

#[test]
fn hextile_identical_rows_but_mixed_row_is_raw() {
    // Rows equal to each other, but not uniform within: not solid.
    let fb = FrameBuffer { x_position: 0, y_position: 0, width: 2, height: 2, bits_per_pixel: 8, depth: 8, encoding: RFBEncodingType::HEX_TILE, raw_pixels: vec![1, 2, 1, 2], encoded_pixels: vec![] };
    assert_eq!(encoding_hextile::encode(&fb), vec![1, 1, 2, 1, 2]);
}

#[test]
fn hextile_tiles_are_row_major() {
    // 17x17 pixels: tiles 16x16, 1x16, 16x1, 1x1, colours by tile.
    let mut pixels = Vec::new();
    for y in 0..17 {
        for x in 0..17 {
            pixels.push(match (x < 16, y < 16) {
                (true, true) => 1u8,
                (false, true) => 2,
                (true, false) => 3,
                (false, false) => 4,
            });
        }
    }
    let fb = FrameBuffer { x_position: 0, y_position: 0, width: 17, height: 17, bits_per_pixel: 8, depth: 8, encoding: RFBEncodingType::HEX_TILE, raw_pixels: pixels, encoded_pixels: vec![] };
    assert_eq!(encoding_hextile::encode(&fb), vec![2, 1, 2, 2, 2, 3, 2, 4]);
}

#[test]
fn hextile_zero_area_is_raw() {
    let fb = FrameBuffer { x_position: 3, y_position: 4, width: 0, height: 5, bits_per_pixel: 32, depth: 24, encoding: RFBEncodingType::HEX_TILE, raw_pixels: vec![], encoded_pixels: vec![] };
    let rect = encoding_hextile::get_pixel_data(fb);
    assert_eq!(rect.encoding_type, RFBEncodingType::RAW);
    assert_eq!((rect.x_position, rect.y_position), (3, 4));
    assert!(rect.encoded_pixels.is_empty());
}

#[test]
fn raw_rectangle_keeps_position() {
    let fb = FrameBuffer { x_position: 3, y_position: 4, width: 1, height: 1, bits_per_pixel: 32, depth: 24, encoding: RFBEncodingType::RAW, raw_pixels: vec![1, 2, 3, 0], encoded_pixels: vec![] };
    let rect = encoding_raw::get_pixel_data(fb);
    assert_eq!((rect.x_position, rect.y_position, rect.width, rect.height), (3, 4, 1, 1));
    assert_eq!(rect.encoded_pixels, vec![1, 2, 3, 0]);
}

#[test]
fn zrle_uniform_red_tile() {
    let fb = FrameBuffer { x_position: 0, y_position: 0, width: 64, height: 64, bits_per_pixel: 32, depth: 24, encoding: RFBEncodingType::ZRLE, raw_pixels: vec![], encoded_pixels: solid_capture(64, 64, [0, 0, 0xFF, 0])[..].chunks(4).flat_map(|p| p[..3].to_vec()).collect() };
    assert_eq!(encoding_zrle::encode(&fb), vec![0x01, 0x00, 0x00, 0xFF]);
}

#[test]
fn zrle_red_tile_inflates_to_tile_bytes() {
    let mut session = SpifySession::new();
    let captured = solid_capture(64, 64, [0x00, 0x00, 0xFF, 0x00]);
    let update = rectangle_framebuffer_update(&get_pixelformat(), captured, RFBEncodingType::ZRLE, 0, 0, 64, 64, &mut session).unwrap();
    let rect = &update.frame_buffer[0];
    assert_eq!(rect.encoding_type, RFBEncodingType::ZRLE);
    assert_eq!(rect.encoded_pixels_length as usize, rect.encoded_pixels.len());
    let mut d = Decompress::new(true);
    assert_eq!(inflate(&mut d, &rect.encoded_pixels), vec![0x01, 0x00, 0x00, 0xFF]);
}

#[test]
fn zrle_mixed_tiles() {
    // 65x1 compact pixels of 3 bytes: a raw 64-wide tile then a solid 1x1 tile.
    let mut cpixels = Vec::new();
    for x in 0..65u8 {
        cpixels.extend_from_slice(&[x, 0, 0]);
    }
    let fb = FrameBuffer { x_position: 0, y_position: 0, width: 65, height: 1, bits_per_pixel: 32, depth: 24, encoding: RFBEncodingType::ZRLE, raw_pixels: vec![], encoded_pixels: cpixels.clone() };
    let mut expected = vec![0u8];
    expected.extend_from_slice(&cpixels[..64 * 3]);
    expected.extend_from_slice(&[1, 64, 0, 0]);
    assert_eq!(encoding_zrle::encode(&fb), expected);
}

#[test]
fn zlib_stream_persists_across_rectangles() {
    let mut session = SpifySession::new();
    let pf = get_pixelformat();
    let first = solid_capture(4, 4, [1, 2, 3, 0]);
    let second: Vec<u8> = (0..4 * 8).map(|v| (v * 13) as u8).collect();
    let a = rectangle_framebuffer_update(&pf, first, RFBEncodingType::ZLIB, 0, 0, 4, 4, &mut session).unwrap();
    let b = rectangle_framebuffer_update(&pf, second.clone(), RFBEncodingType::ZLIB, 0, 0, 8, 1, &mut session).unwrap();
    let mut d = Decompress::new(true);
    let mut out = inflate(&mut d, &a.frame_buffer[0].encoded_pixels);
    out.extend(inflate(&mut d, &b.frame_buffer[0].encoded_pixels));
    let mut expected = solid_capture(4, 4, [1, 2, 3, 0]);
    expected.extend(spifyrfb::transcode::transcode(&pf, &second));
    assert_eq!(out, expected);
    // A second chunk is not a fresh stream: it carries no zlib header.
    assert_ne!(b.frame_buffer[0].encoded_pixels[0], 0x78);
}

#[test]
fn zstream_round_trip_any_split() {
    let data: Vec<u8> = (0..5000u32).map(|v| (v % 251) as u8).collect();
    let mut stream = ZStream::new();
    let mut d = Decompress::new(true);
    let mut out = Vec::new();
    for chunk in data.chunks(777) {
        let compressed = stream.deflate(&chunk.to_vec());
        out.extend(inflate(&mut d, &compressed));
    }
    assert_eq!(out, data);
}

#[test]
fn zstream_restarts_after_flush() {
    let mut stream = ZStream::new();
    let _ = stream.deflate(&vec![1, 2, 3]);
    stream.flush();
    let again = stream.deflate(&vec![4, 5]);
    let mut d = Decompress::new(true);
    assert_eq!(inflate(&mut d, &again), vec![4, 5]);
}

#[test]
fn unsupported_format_is_sent_raw() {
    let mut session = SpifySession::new();
    let mut pf = get_pixelformat();
    pf.bits_per_pixel = 24;
    let captured = vec![1u8, 2, 3, 4];
    let update = rectangle_framebuffer_update(&pf, captured.clone(), RFBEncodingType::ZRLE, 0, 0, 1, 1, &mut session).unwrap();
    assert_eq!(update.frame_buffer[0].encoding_type, RFBEncodingType::RAW);
    assert_eq!(update.frame_buffer[0].encoded_pixels, captured);
}

#[test]
fn framebuffer_update_wire_layout() {
    let raw = FrameBufferRectangle { x_position: 1, y_position: 2, width: 1, height: 1, encoding_type: RFBEncodingType::RAW, encoded_pixels: vec![9, 8, 7, 0], encoded_pixels_length: 0 };
    let zrle = FrameBufferRectangle { x_position: 0, y_position: 0, width: 0x100, height: 3, encoding_type: RFBEncodingType::ZRLE, encoded_pixels: vec![0xAB], encoded_pixels_length: 1 };
    let update = FrameBufferUpdate { message_type: 0, padding: 0, number_of_rectangles: 2, frame_buffer: vec![raw, zrle] };
    let bytes = write_framebuffer_update_message(&update);
    assert_eq!(
        bytes,
        vec![
            0, 0, 0, 2, //
            0, 1, 0, 2, 0, 1, 0, 1, 0, 0, 0, 0, 9, 8, 7, 0, //
            0, 0, 0, 0, 1, 0, 0, 3, 0, 0, 0, 16, 0, 0, 0, 1, 0xAB,
        ]
    );
}

#[test]
fn deep_32bpp_tiles_keep_four_byte_pixels() {
    // Depth 32 does not fit a 3-byte CPIXEL: ZRLE sends whole pixels.
    let cpixels = vec![1u8, 2, 3, 4, 1, 2, 3, 4];
    let fb = FrameBuffer { x_position: 0, y_position: 0, width: 2, height: 1, bits_per_pixel: 32, depth: 32, encoding: RFBEncodingType::ZRLE, raw_pixels: vec![], encoded_pixels: cpixels };
    assert_eq!(encoding_zrle::encode(&fb), vec![1, 1, 2, 3, 4]);
}
