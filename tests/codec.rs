use spifyrfb::bits::GetBits;
use spifyrfb::server::{get_pixelformat, PixelFormat};
use spifyrfb::transcode::{compact_pixels, transcode};

#[test]
fn bits_be_lists_least_significant_first() {
    let bits = 5u8.get_bits_be();
    assert_eq!(bits, vec![true, false, true, false, false, false, false, false]);
}

#[test]
fn bits_le_lists_most_significant_first() {
    let bits = 5u8.get_bits_le();
    assert_eq!(bits, vec![false, false, false, false, false, true, false, true]);
}

#[test]
fn bits_round_trip_u8() {
    for x in 0..=255u8 {
        assert_eq!(u8::from_bits(x.get_bits_le(), true), x);
        assert_eq!(u8::from_bits(x.get_bits_be(), false), x);
    }
}

#[test]
fn bits_round_trip_u16_and_u64() {
    for x in [0u16, 1, 126, 0x1234, 0xFFFF] {
        assert_eq!(u16::from_bits(x.get_bits_le(), true), x);
        assert_eq!(u16::from_bits(x.get_bits_be(), false), x);
    }
    for x in [0u64, 1, 0x0123_4567_89AB_CDEF, u64::MAX] {
        assert_eq!(u64::from_bits(x.get_bits_le(), true), x);
        assert_eq!(u64::from_bits(x.get_bits_be(), false), x);
    }
}

#[test]
fn from_bits_pads_short_input() {
    // Four bits, most significant first: 0b1010 padded in front.
    assert_eq!(u8::from_bits(vec![true, false, true, false], true), 0b1010);
    // Four bits read as given: padding comes first, so they land on the top bits.
    assert_eq!(u8::from_bits(vec![true, false, true, false], false), 0b0101_0000);
    assert_eq!(u8::from_bits(vec![], true), 0);
}

fn format(bpp: u8, r: u8, g: u8, b: u8) -> PixelFormat {
    PixelFormat {
        bits_per_pixel: bpp,
        depth: 24,
        big_endian_flag: 0,
        true_color_flag: 1,
        red_max: 255,
        green_max: 255,
        blue_max: 255,
        red_shift: r,
        green_shift: g,
        blue_shift: b,
        padding: [0, 0, 0],
    }
}

#[test]
fn native_format_is_32bpp_true_colour() {
    let pf = get_pixelformat();
    assert_eq!(pf.bits_per_pixel, 32);
    assert_eq!(pf.depth, 24);
    assert_eq!(pf.true_color_flag, 1);
    assert_eq!((pf.red_shift, pf.green_shift, pf.blue_shift), (16, 8, 0));
}

#[test]
fn transcode_places_channels_by_shift() {
    let captured = vec![1u8, 2, 3, 9, 4, 5, 6, 9];
    let out = transcode(&format(32, 16, 8, 0), &captured);
    assert_eq!(out, vec![1, 2, 3, 0, 4, 5, 6, 0]);
    let swapped = transcode(&format(32, 0, 8, 16), &captured);
    assert_eq!(swapped, vec![3, 2, 1, 0, 6, 5, 4, 0]);
    let shifted = transcode(&format(32, 24, 16, 8), &captured);
    assert_eq!(shifted, vec![0, 1, 2, 3, 0, 4, 5, 6]);
}

#[test]
fn transcode_sizes_follow_bits_per_pixel() {
    let captured: Vec<u8> = (0..4 * 6).map(|v| v as u8).collect();
    assert_eq!(transcode(&format(32, 16, 8, 0), &captured).len(), 4 * 6);
    assert_eq!(transcode(&format(16, 8, 0, 0), &captured).len(), 2 * 6);
    assert_eq!(transcode(&format(8, 0, 0, 0), &captured).len(), 6);
}

#[test]
fn transcode_channel_bytes_match_source() {
    let pf = format(32, 0, 16, 8);
    let captured: Vec<u8> = (0..4 * 5).map(|v| (v * 7 + 3) as u8).collect();
    let out = transcode(&pf, &captured);
    for i in 0..5 {
        assert_eq!(out[i * 4 + (pf.red_shift / 8) as usize], captured[4 * i + 2]);
        assert_eq!(out[i * 4 + (pf.green_shift / 8) as usize], captured[4 * i + 1]);
        assert_eq!(out[i * 4 + (pf.blue_shift / 8) as usize], captured[4 * i]);
    }
}

#[test]
fn transcode_16bpp_two_bytes_per_pixel() {
    let captured = vec![10u8, 20, 30, 0];
    // Green at byte 1, blue at byte 0, red beyond the pixel: dropped.
    assert_eq!(transcode(&format(16, 16, 8, 0), &captured), vec![10, 20]);
}

#[test]
fn transcode_unsupported_layout_keeps_pixels() {
    let captured = vec![1u8, 2, 3, 4];
    assert_eq!(transcode(&format(24, 16, 8, 0), &captured), captured);
}

#[test]
fn compact_pixels_drop_fourth_byte() {
    let pf = format(32, 16, 8, 0);
    assert_eq!(compact_pixels(&pf, &vec![1, 2, 3, 4, 5, 6, 7, 8]), vec![1, 2, 3, 5, 6, 7]);
    let pf16 = format(16, 8, 0, 0);
    assert_eq!(compact_pixels(&pf16, &vec![1, 2, 3, 4]), vec![1, 2, 3, 4]);
}

#[test]
fn native_format_matches_server_init_scenario() {
    let pf = get_pixelformat();
    assert_eq!(pf, format(32, 16, 8, 0));
}

#[test]
fn compact_pixels_keep_deep_pixels_whole() {
    let mut pf = format(32, 16, 8, 0);
    pf.depth = 32;
    assert_eq!(compact_pixels(&pf, &vec![1, 2, 3, 4]), vec![1, 2, 3, 4]);
}
