//! Conversion of captured 32-bpp BGRA pixels into a negotiated pixel layout,
//! and of such pixels into compact pixels (CPIXELs).

use vstd::prelude::*;
use vstd::arithmetic::div_mod::lemma_fundamental_div_mod_converse;
use crate::server::PixelFormat;

verus! {

/// Byte `k` of target pixel `i`: each channel lands at the byte of its shift,
/// blue over green over red where two share a byte, every other byte zero.
pub open spec fn transcoded_byte(pf: PixelFormat, src: Seq<u8>, i: int, k: int) -> u8 {
    if k == pf.blue_offset() {
        src[4 * i]
    } else if k == pf.green_offset() {
        src[4 * i + 1]
    } else if k == pf.red_offset() {
        src[4 * i + 2]
    } else {
        0
    }
}

/// The transcoded buffer: one target pixel per whole 4-byte source pixel.
pub open spec fn transcode_spec(pf: PixelFormat, src: Seq<u8>) -> Seq<u8> {
    let b = pf.bytes_per_pixel();
    Seq::new((src.len() / 4) * b, |j: int| transcoded_byte(pf, src, j / b as int, j % b as int))
}

/// The compact pixels of a buffer in layout `pf`: the first
/// `bytes_per_cpixel` bytes of each pixel.
pub open spec fn compact_spec(pf: PixelFormat, pixels: Seq<u8>) -> Seq<u8> {
    let b = pf.bytes_per_pixel();
    let c = pf.bytes_per_cpixel();
    Seq::new((pixels.len() / b) * c, |j: int| pixels[(j / c as int) * b + j % c as int])
}

proof fn lemma_position(j: int, b: int, i: int, k: int)
    requires
        b > 0,
        0 <= k < b,
        j == i * b + k,
    ensures
        j / b == i,
        j % b == k,
{
    lemma_fundamental_div_mod_converse(j, b, i, k);
}

/// Converts captured BGRA pixels to layout `pf`; a layout the transcoder does
/// not handle leaves the pixels as they are.
pub fn transcode(pf: &PixelFormat, captured: &Vec<u8>) -> (r: Vec<u8>)
    ensures
        pf.supported() ==> r@ == transcode_spec(*pf, captured@),
        !pf.supported() ==> r@ == captured@,
{
    if !(pf.bits_per_pixel == 8 || pf.bits_per_pixel == 16 || pf.bits_per_pixel == 32) {
        return captured.clone();
    }
    let b: usize = (pf.bits_per_pixel / 8) as usize;
    let red: usize = (pf.red_shift / 8) as usize;
    let green: usize = (pf.green_shift / 8) as usize;
    let blue: usize = (pf.blue_shift / 8) as usize;
    let n: usize = captured.len() / 4;
    let mut out: Vec<u8> = Vec::with_capacity(captured.len());
    let mut i: usize = 0;
    while i < n
        invariant
            pf.supported(),
            b == pf.bytes_per_pixel(),
            red == pf.red_offset(),
            green == pf.green_offset(),
            blue == pf.blue_offset(),
            n == captured@.len() / 4,
            captured@.len() <= usize::MAX,
            i <= n,
            out@.len() == i * b,
            forall|j: int|
                0 <= j < out@.len() ==> out@[j] == transcoded_byte(*pf, captured@, j / b as int, j % b as int),
        decreases n - i,
    {
        assert(4 * i + 3 < captured@.len()) by (nonlinear_arith)
            requires i < n, n == captured@.len() / 4;
        let mut k: usize = 0;
        while k < b
            invariant
                4 * i + 3 < captured@.len(),
                captured@.len() <= usize::MAX,
                pf.supported(),
                b == pf.bytes_per_pixel(),
                red == pf.red_offset(),
                green == pf.green_offset(),
                blue == pf.blue_offset(),
                n == captured@.len() / 4,
                i < n,
                k <= b,
                out@.len() == i * b + k,
                forall|j: int|
                    0 <= j < out@.len() ==> out@[j] == transcoded_byte(*pf, captured@, j / b as int, j % b as int),
            decreases b - k,
        {
            let byte: u8 = if k == blue {
                captured[4 * i]
            } else if k == green {
                captured[4 * i + 1]
            } else if k == red {
                captured[4 * i + 2]
            } else {
                0
            };
            proof {
                lemma_position((i * b + k) as int, b as int, i as int, k as int);
            }
            out.push(byte);
            k = k + 1;
        }
        assert((i + 1) * b == i * b + b) by (nonlinear_arith);
        i = i + 1;
    }
    assert(out@ =~= transcode_spec(*pf, captured@));
    out
}

/// The compact pixels of `pixels`, a buffer in layout `pf`.
pub fn compact_pixels(pf: &PixelFormat, pixels: &Vec<u8>) -> (r: Vec<u8>)
    requires
        pf.supported(),
    ensures
        r@ == compact_spec(*pf, pixels@),
{
    let b: usize = (pf.bits_per_pixel / 8) as usize;
    let c: usize = if pf.bits_per_pixel == 32 && pf.depth <= 24 { 3 } else { b };
    let n: usize = pixels.len() / b;
    let mut out: Vec<u8> = Vec::with_capacity(pixels.len());
    let mut i: usize = 0;
    while i < n
        invariant
            pf.supported(),
            b == pf.bytes_per_pixel(),
            c == pf.bytes_per_cpixel(),
            c <= b,
            n == pixels@.len() / (b as nat),
            pixels@.len() <= usize::MAX,
            i <= n,
            out@.len() == i * c,
            forall|j: int|
                0 <= j < out@.len() ==> out@[j] == pixels@[(j / c as int) * b + j % c as int],
        decreases n - i,
    {
        assert(i * b + b <= pixels@.len()) by (nonlinear_arith)
            requires i < n, n == pixels@.len() / (b as nat), b > 0;
        let mut k: usize = 0;
        while k < c
            invariant
                pf.supported(),
                b == pf.bytes_per_pixel(),
                c == pf.bytes_per_cpixel(),
                c <= b,
                n == pixels@.len() / (b as nat),
                i < n,
                i * b + b <= pixels@.len(),
                pixels@.len() <= usize::MAX,
                k <= c,
                out@.len() == i * c + k,
                forall|j: int|
                    0 <= j < out@.len() ==> out@[j] == pixels@[(j / c as int) * b + j % c as int],
            decreases c - k,
        {
            proof {
                lemma_position((i * c + k) as int, c as int, i as int, k as int);
            }
            out.push(pixels[i * b + k]);
            k = k + 1;
        }
        assert((i + 1) * c == i * c + c) by (nonlinear_arith);
        i = i + 1;
    }
    assert(out@ =~= compact_spec(*pf, pixels@));
    out
}

/// For a layout whose three channels sit at distinct bytes of the pixel, the
/// transcoded buffer holds `bytes_per_pixel` bytes per source pixel, and each
/// channel byte of target pixel `i` is the matching byte of source pixel `i`.
pub proof fn lemma_transcode_channels(pf: PixelFormat, src: Seq<u8>, i: int)
    requires
        pf.supported(),
        pf.red_offset() < pf.bytes_per_pixel(),
        pf.green_offset() < pf.bytes_per_pixel(),
        pf.blue_offset() < pf.bytes_per_pixel(),
        pf.red_offset() != pf.green_offset(),
        pf.red_offset() != pf.blue_offset(),
        pf.green_offset() != pf.blue_offset(),
        0 <= i < src.len() / 4,
    ensures
        transcode_spec(pf, src).len() == (src.len() / 4) * pf.bytes_per_pixel(),
        transcode_spec(pf, src)[i * pf.bytes_per_pixel() + pf.red_offset()] == src[4 * i + 2],
        transcode_spec(pf, src)[i * pf.bytes_per_pixel() + pf.green_offset()] == src[4 * i + 1],
        transcode_spec(pf, src)[i * pf.bytes_per_pixel() + pf.blue_offset()] == src[4 * i],
{
    let b = pf.bytes_per_pixel() as int;
    let n = src.len() / 4;
    assert(i * b + b <= n * b) by (nonlinear_arith)
        requires 0 <= i < n, b > 0;
    lemma_position(i * b + pf.red_offset(), b, i, pf.red_offset() as int);
    lemma_position(i * b + pf.green_offset(), b, i, pf.green_offset() as int);
    lemma_position(i * b + pf.blue_offset(), b, i, pf.blue_offset() as int);
}

} // verus!
