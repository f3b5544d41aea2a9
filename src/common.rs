//! Scanline geometry and sample normalization shared by the decoder stages.
use vstd::prelude::*;

verus! {

/// `ceil(width * bit_depth * channels / 8)`: bytes of one scanline, without its filter byte.
pub open spec fn bytes_per_line(channels: int, bit_depth: int, width: int) -> int {
    (width * bit_depth * channels + 7) / 8
}

/// `ceil(channels * bit_depth / 8)`: the filter stride, at least 1 for any real pixel.
pub open spec fn bytes_per_pixel(channels: int, bit_depth: int) -> int {
    (channels * bit_depth + 7) / 8
}

/// Returns `(bytes_per_pixel, bytes_per_line)` for a scanline of `image_pixel_width` pixels.
pub fn calc_bytes_per_pixel_and_line(channel: u8, bit_depth: u8, image_pixel_width: u32) -> (r: (
    usize,
    usize,
))
    requires
        bytes_per_line(channel as int, bit_depth as int, image_pixel_width as int) <= usize::MAX,
    ensures
        r.0 == bytes_per_pixel(channel as int, bit_depth as int),
        r.1 == bytes_per_line(channel as int, bit_depth as int, image_pixel_width as int),
{
    let w = image_pixel_width as u64;
    let d = bit_depth as u64;
    let c = channel as u64;
    assert(w * d <= 0xffff_ffff * 255) by (nonlinear_arith)
        requires
            w <= 0xffff_ffff,
            d <= 255,
    ;
    assert(w * d * c <= 0xffff_ffff * 255 * 255) by (nonlinear_arith)
        requires
            w * d <= 0xffff_ffff * 255,
            c <= 255,
    ;
    assert(c * d <= 255 * 255) by (nonlinear_arith)
        requires
            c <= 255,
            d <= 255,
    ;
    let bytes_per_line = (w * d * c + 7) / 8;
    let bytes_per_pixel = (c * d + 7) / 8;
    (bytes_per_pixel as usize, bytes_per_line as usize)
}

/// A 16-bit sample scaled to 8 bits, rounded to the nearest value:
/// `round(v * 255 / 65535)`.
pub open spec fn normalized_u16(v: u16) -> u8 {
    ((v as int * 255 + 32767) / 65535) as u8
}

/// Scales a 16-bit sample to 8 bits, rounding to nearest.
pub fn normalize_u16_to_u8(num: u16) -> (r: u8)
    ensures
        r == normalized_u16(num),
        r as int == (num as int * 255 + 32767) / 65535,
{
    let n = num as u32;
    assert(n * 255 + 32767 < 65535 * 256) by (nonlinear_arith)
        requires
            n <= 65535,
    ;
    ((n * 255 + 32767) / 65535) as u8
}

/// A big-endian 16-bit value from two bytes.
pub open spec fn be_u16(hi: u8, lo: u8) -> u16 {
    (hi as int * 256 + lo as int) as u16
}

pub fn u16_from_be_bytes(hi: u8, lo: u8) -> (r: u16)
    ensures
        r == be_u16(hi, lo),
        r as int == hi as int * 256 + lo as int,
{
    hi as u16 * 256 + lo as u16
}

} // verus!
