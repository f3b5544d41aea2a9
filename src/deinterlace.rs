//! Adam7 geometry: the seven reduced images and the map between their pixels
//! and the pixels of the final image.
//!
//! The passes tile the image with the 8x8 pattern
//! ```text
//! 1 6 4 6 2 6 4 6
//! 7 7 7 7 7 7 7 7
//! 5 6 5 6 5 6 5 6
//! 7 7 7 7 7 7 7 7
//! 3 6 4 6 3 6 4 6
//! 7 7 7 7 7 7 7 7
//! 5 6 5 6 5 6 5 6
//! 7 7 7 7 7 7 7 7
//! ```
//! Pass 0 stands for the whole image of a non-interlaced PNG.
use vstd::prelude::*;

use crate::common::{bytes_per_line, bytes_per_pixel, calc_bytes_per_pixel_and_line};
use crate::unfilter::unfiltered_band;

verus! {

/// Width of the reduced image of pass `p` of an image `w` pixels wide.
pub open spec fn reduced_width(p: int, w: int) -> int {
    if p == 1 {
        (w + 7) / 8
    } else if p == 2 {
        w / 8 + (if w % 8 >= 5 { 1int } else { 0 })
    } else if p == 3 {
        2 * (w / 8) + (w % 8 + 3) / 4
    } else if p == 4 {
        2 * (w / 8) + (w % 8 + 1) / 4
    } else if p == 5 {
        w / 2 + w % 2
    } else if p == 6 {
        w / 2
    } else {
        w
    }
}

/// Height of the reduced image of pass `p` of an image `h` pixels high.
pub open spec fn reduced_height(p: int, h: int) -> int {
    if p == 1 || p == 2 {
        (h + 7) / 8
    } else if p == 3 {
        h / 8 + (if h % 8 >= 5 { 1int } else { 0 })
    } else if p == 4 {
        (h + 3) / 4
    } else if p == 5 {
        2 * (h / 8) + (h % 8 + 1) / 4
    } else if p == 6 {
        h / 2 + h % 2
    } else if p == 7 {
        h / 2
    } else {
        h
    }
}

/// Column in the final image of column `c` of pass `p`.
pub open spec fn adam7_x(p: int, c: int) -> int {
    if p == 1 || p == 2 {
        8 * c + (if p == 2 { 4int } else { 0 })
    } else if p == 3 || p == 4 {
        4 * c + (if p == 4 { 2int } else { 0 })
    } else if p == 5 || p == 6 {
        2 * c + (if p == 6 { 1int } else { 0 })
    } else {
        c
    }
}

/// Row in the final image of row `r` of pass `p`.
pub open spec fn adam7_y(p: int, r: int) -> int {
    if p == 1 || p == 2 {
        8 * r
    } else if p == 3 {
        8 * r + 4
    } else if p == 4 {
        4 * r
    } else if p == 5 {
        4 * r + 2
    } else if p == 6 {
        2 * r
    } else if p == 7 {
        2 * r + 1
    } else {
        r
    }
}

/// The pass that carries pixel `(x, y)` of an interlaced image.
pub open spec fn adam7_pass_of(x: int, y: int) -> int {
    if y % 2 == 1 {
        7
    } else if x % 2 == 1 {
        6
    } else if y % 4 == 2 {
        5
    } else if x % 4 == 2 {
        4
    } else if y % 8 == 4 {
        3
    } else if x % 8 == 4 {
        2
    } else {
        1
    }
}

/// Column within its pass of pixel `(x, y)`.
pub open spec fn adam7_col_of(x: int, y: int) -> int {
    let p = adam7_pass_of(x, y);
    if p == 1 || p == 2 {
        x / 8
    } else if p == 3 || p == 4 {
        x / 4
    } else if p == 5 || p == 6 {
        x / 2
    } else {
        x
    }
}

/// Row within its pass of pixel `(x, y)`.
pub open spec fn adam7_row_of(x: int, y: int) -> int {
    let p = adam7_pass_of(x, y);
    if p == 1 || p == 2 || p == 3 {
        y / 8
    } else if p == 4 || p == 5 {
        y / 4
    } else {
        y / 2
    }
}

/// Every pixel of the final image comes from a pixel inside the reduced
/// image of its pass, which the inverse map sends back to it.
pub proof fn lemma_adam7_source(x: int, y: int, w: int, h: int)
    requires
        0 <= x < w,
        0 <= y < h,
    ensures
        1 <= adam7_pass_of(x, y) <= 7,
        0 <= adam7_col_of(x, y) < reduced_width(adam7_pass_of(x, y), w),
        0 <= adam7_row_of(x, y) < reduced_height(adam7_pass_of(x, y), h),
        adam7_x(adam7_pass_of(x, y), adam7_col_of(x, y)) == x,
        adam7_y(adam7_pass_of(x, y), adam7_row_of(x, y)) == y,
{
}

/// No two pixels of the reduced images land on the same pixel of the final
/// image: the inverse map recovers pass, column and row.
pub proof fn lemma_adam7_unique(p: int, c: int, r: int)
    requires
        1 <= p <= 7,
        0 <= c,
        0 <= r,
    ensures
        adam7_pass_of(adam7_x(p, c), adam7_y(p, r)) == p,
        adam7_col_of(adam7_x(p, c), adam7_y(p, r)) == c,
        adam7_row_of(adam7_x(p, c), adam7_y(p, r)) == r,
{
}

/// Every pixel of a reduced image lies inside the final image.
pub proof fn lemma_adam7_inside(p: int, c: int, r: int, w: int, h: int)
    requires
        1 <= p <= 7,
        0 <= c < reduced_width(p, w),
        0 <= r < reduced_height(p, h),
        w >= 0,
        h >= 0,
    ensures
        adam7_x(p, c) < w,
        adam7_y(p, r) < h,
{
}

/// Bytes per scanline of pass `p` (pass 0: the whole image).
pub open spec fn pass_bpl(p: int, w: int, c: int, d: int) -> int {
    bytes_per_line(c, d, reduced_width(p, w))
}

/// Reconstructed bytes of pass `p`.
pub open spec fn pass_out_len(p: int, w: int, h: int, c: int, d: int) -> int {
    reduced_height(p, h) * pass_bpl(p, w, c, d)
}

/// Whether pass `p` holds no pixel, and so no bytes at all.
pub open spec fn pass_is_empty(p: int, w: int, h: int) -> bool {
    reduced_width(p, w) == 0 || reduced_height(p, h) == 0
}

/// Filtered bytes of pass `p`: a filter type and a scanline per row.
pub open spec fn pass_in_len(p: int, w: int, h: int, c: int, d: int) -> int {
    if pass_is_empty(p, w, h) {
        0
    } else {
        reduced_height(p, h) * (pass_bpl(p, w, c, d) + 1)
    }
}

/// Where the reconstructed bytes of pass `p` start (passes 1 to 7 in order).
pub open spec fn pass_out_offset(p: int, w: int, h: int, c: int, d: int) -> int
    decreases p,
{
    if p <= 1 {
        0
    } else {
        pass_out_offset(p - 1, w, h, c, d) + pass_out_len(p - 1, w, h, c, d)
    }
}

/// Where the filtered bytes of pass `p` start.
pub open spec fn pass_in_offset(p: int, w: int, h: int, c: int, d: int) -> int
    decreases p,
{
    if p <= 1 {
        0
    } else {
        pass_in_offset(p - 1, w, h, c, d) + pass_in_len(p - 1, w, h, c, d)
    }
}

/// The reconstructed bytes of pass `p` of the filtered stream `inp`.
pub open spec fn pass_band(inp: Seq<u8>, p: int, w: int, h: int, c: int, d: int) -> Seq<u8> {
    if pass_is_empty(p, w, h) {
        Seq::empty()
    } else {
        let start = pass_in_offset(p, w, h, c, d);
        unfiltered_band(
            inp.subrange(start, start + pass_in_len(p, w, h, c, d)),
            reduced_height(p, h),
            bytes_per_pixel(c, d),
            pass_bpl(p, w, c, d),
        )
    }
}

/// The reconstructed bytes of passes 1 to `n`, in pass order.
pub open spec fn interlaced_bands(inp: Seq<u8>, n: int, w: int, h: int, c: int, d: int) -> Seq<u8>
    decreases n,
{
    if n <= 0 {
        Seq::empty()
    } else {
        interlaced_bands(inp, n - 1, w, h, c, d) + pass_band(inp, n, w, h, c, d)
    }
}

/// Offsets only grow from pass to pass.
pub proof fn lemma_pass_offsets_grow(p: int, q: int, w: int, h: int, c: int, d: int)
    requires
        1 <= p <= q,
        w >= 0,
        h >= 0,
        c >= 0,
        d >= 0,
    ensures
        pass_out_offset(p, w, h, c, d) + (if p < q { pass_out_len(p, w, h, c, d) } else { 0 })
            <= pass_out_offset(q, w, h, c, d),
        pass_in_offset(p, w, h, c, d) + (if p < q { pass_in_len(p, w, h, c, d) } else { 0 })
            <= pass_in_offset(q, w, h, c, d),
        0 <= pass_out_offset(p, w, h, c, d),
        0 <= pass_in_offset(p, w, h, c, d),
    decreases q - p,
{
    lemma_pass_lens_nonneg(p, w, h, c, d);
    if p < q {
        lemma_pass_offsets_grow(p + 1, q, w, h, c, d);
    }
    if p > 1 {
        lemma_offsets_nonneg(p, w, h, c, d);
    }
}

proof fn lemma_offsets_nonneg(p: int, w: int, h: int, c: int, d: int)
    requires
        w >= 0,
        h >= 0,
        c >= 0,
        d >= 0,
    ensures
        0 <= pass_out_offset(p, w, h, c, d),
        0 <= pass_in_offset(p, w, h, c, d),
    decreases p,
{
    if p > 1 {
        lemma_offsets_nonneg(p - 1, w, h, c, d);
        lemma_pass_lens_nonneg(p - 1, w, h, c, d);
    }
}

pub proof fn lemma_pass_lens_nonneg(p: int, w: int, h: int, c: int, d: int)
    requires
        w >= 0,
        h >= 0,
        c >= 0,
        d >= 0,
    ensures
        0 <= pass_out_len(p, w, h, c, d),
        0 <= pass_in_len(p, w, h, c, d),
        pass_out_len(p, w, h, c, d) <= pass_in_len(p, w, h, c, d),
        pass_is_empty(p, w, h) ==> pass_out_len(p, w, h, c, d) == 0,
{
    lemma_reduced_bounds(p, w, h);
    lemma_bytes_per_line_monotonic(c, d, 0, reduced_width(p, w));
    let rh = reduced_height(p, h);
    let bpl = pass_bpl(p, w, c, d);
    assert(0 <= rh * bpl <= rh * (bpl + 1)) by (nonlinear_arith)
        requires
            rh >= 0,
            bpl >= 0,
    ;
    if reduced_width(p, w) == 0 {
        let rw = reduced_width(p, w);
        assert(rw * d * c == 0) by (nonlinear_arith)
            requires
                rw == 0,
        ;
        assert(bpl == 0);
        assert(rh * bpl == 0) by (nonlinear_arith)
            requires
                bpl == 0,
        ;
    }
    if rh == 0 {
        assert(rh * bpl == 0) by (nonlinear_arith)
            requires
                rh == 0,
        ;
    }
}

/// The reconstructed passes 1 to `n` take exactly their share of bytes.
pub proof fn lemma_interlaced_bands_len(inp: Seq<u8>, n: int, w: int, h: int, c: int, d: int)
    requires
        0 <= n <= 7,
        w >= 0,
        h >= 0,
        c >= 0,
        d >= 0,
    ensures
        interlaced_bands(inp, n, w, h, c, d).len() == pass_out_offset(n + 1, w, h, c, d),
    decreases n,
{
    if n > 0 {
        lemma_interlaced_bands_len(inp, n - 1, w, h, c, d);
        lemma_pass_lens_nonneg(n, w, h, c, d);
        if !pass_is_empty(n, w, h) {
            let start = pass_in_offset(n, w, h, c, d);
            crate::unfilter::lemma_prefix_len(
                inp.subrange(start, start + pass_in_len(n, w, h, c, d)),
                bytes_per_pixel(c, d),
                pass_bpl(n, w, c, d),
                (reduced_height(n, h) * pass_bpl(n, w, c, d)) as nat,
            );
        }
    }
}

/// Pass, column and row of pixel `(x, y)` of an interlaced image.
pub fn adam7_source(x: usize, y: usize) -> (r: (u8, usize, usize))
    ensures
        r.0 as int == adam7_pass_of(x as int, y as int),
        r.1 as int == adam7_col_of(x as int, y as int),
        r.2 as int == adam7_row_of(x as int, y as int),
{
    if y % 2 == 1 {
        (7, x, y / 2)
    } else if x % 2 == 1 {
        (6, x / 2, y / 2)
    } else if y % 4 == 2 {
        (5, x / 2, y / 4)
    } else if x % 4 == 2 {
        (4, x / 4, y / 4)
    } else if y % 8 == 4 {
        (3, x / 4, y / 8)
    } else if x % 8 == 4 {
        (2, x / 8, y / 8)
    } else {
        (1, x / 8, y / 8)
    }
}

/// Geometry of one reduced image (or of the whole image, for pass 0).
#[derive(Debug, Clone, Copy, PartialEq, Eq, Structural)]
pub struct ReducedImage {
    pub pixel_width: u32,
    pub pixel_height: u32,
    pub bytes_per_line: usize,
    pub bytes_per_pixel: usize,
}

/// The reduced image of pass `p` for an image of `w` x `h` pixels with
/// `c` channels of `d` bits.
pub open spec fn reduced_image_spec(p: int, w: int, h: int, c: int, d: int) -> ReducedImage {
    ReducedImage {
        pixel_width: reduced_width(p, w) as u32,
        pixel_height: reduced_height(p, h) as u32,
        bytes_per_line: bytes_per_line(c, d, reduced_width(p, w)) as usize,
        bytes_per_pixel: bytes_per_pixel(c, d) as usize,
    }
}

pub proof fn lemma_reduced_bounds(p: int, w: int, h: int)
    requires
        0 <= w,
        0 <= h,
    ensures
        0 <= reduced_width(p, w) <= w,
        0 <= reduced_height(p, h) <= h,
{
}

pub proof fn lemma_bytes_per_line_monotonic(c: int, d: int, w1: int, w2: int)
    requires
        0 <= c,
        0 <= d,
        0 <= w1 <= w2,
    ensures
        0 <= bytes_per_line(c, d, w1) <= bytes_per_line(c, d, w2),
{
    assert(w1 * d * c <= w2 * d * c) by (nonlinear_arith)
        requires
            0 <= c,
            0 <= d,
            0 <= w1 <= w2,
    ;
    assert(0 <= w1 * d * c) by (nonlinear_arith)
        requires
            0 <= c,
            0 <= d,
            0 <= w1,
    ;
}

fn reduced_image(pass: u8, pixel_width: u32, pixel_height: u32, channel: u8, bit_depth: u8) -> (r: ReducedImage)
    requires
        1 <= pass <= 7,
        bytes_per_line(channel as int, bit_depth as int, pixel_width as int) <= usize::MAX,
    ensures
        r == reduced_image_spec(pass as int, pixel_width as int, pixel_height as int, channel as int, bit_depth as int),
{
    let w = pixel_width as u64;
    let h = pixel_height as u64;
    let (pass_width, pass_height): (u64, u64) = if pass == 1 {
        ((w + 7) / 8, (h + 7) / 8)
    } else if pass == 2 {
        (w / 8 + (if w % 8 >= 5 { 1 } else { 0 }), (h + 7) / 8)
    } else if pass == 3 {
        (2 * (w / 8) + (w % 8 + 3) / 4, h / 8 + (if h % 8 >= 5 { 1 } else { 0 }))
    } else if pass == 4 {
        (2 * (w / 8) + (w % 8 + 1) / 4, (h + 3) / 4)
    } else if pass == 5 {
        (w / 2 + w % 2, 2 * (h / 8) + (h % 8 + 1) / 4)
    } else if pass == 6 {
        (w / 2, h / 2 + h % 2)
    } else {
        (w, h / 2)
    };
    proof {
        lemma_reduced_bounds(pass as int, w as int, h as int);
        lemma_bytes_per_line_monotonic(channel as int, bit_depth as int, pass_width as int, w as int);
    }
    let (bytes_per_pixel, bytes_per_line) = calc_bytes_per_pixel_and_line(
        channel,
        bit_depth,
        pass_width as u32,
    );
    ReducedImage {
        pixel_width: pass_width as u32,
        pixel_height: pass_height as u32,
        bytes_per_line,
        bytes_per_pixel,
    }
}

/// The seven reduced images of an Adam7-interlaced image, pass 1 first.
pub fn create_reduced_images(pixel_width: u32, pixel_height: u32, channel: u8, bit_depth: u8) -> (r: [ReducedImage; 7])
    requires
        bytes_per_line(channel as int, bit_depth as int, pixel_width as int) <= usize::MAX,
    ensures
        forall|i: int|
            0 <= i < 7 ==> r[i] == reduced_image_spec(
                i + 1,
                pixel_width as int,
                pixel_height as int,
                channel as int,
                bit_depth as int,
            ),
{
    [
        reduced_image(1, pixel_width, pixel_height, channel, bit_depth),
        reduced_image(2, pixel_width, pixel_height, channel, bit_depth),
        reduced_image(3, pixel_width, pixel_height, channel, bit_depth),
        reduced_image(4, pixel_width, pixel_height, channel, bit_depth),
        reduced_image(5, pixel_width, pixel_height, channel, bit_depth),
        reduced_image(6, pixel_width, pixel_height, channel, bit_depth),
        reduced_image(7, pixel_width, pixel_height, channel, bit_depth),
    ]
}

/// Offset in the RGBA buffer of pixel `(nth_col, nth_row)` of pass `nth_pass`:
/// `(y * width + x) * 4` for the final-image coordinates `(x, y)`.
pub fn calc_interlaced_pixel_index(
    nth_col: usize,
    nth_row: usize,
    nth_pass: u8,
    image_pixel_width: u32,
) -> (r: usize)
    requires
        1 <= nth_pass <= 7,
        image_pixel_width >= 1,
        (adam7_y(nth_pass as int, nth_row as int) * image_pixel_width + adam7_x(
            nth_pass as int,
            nth_col as int,
        )) * 4 <= usize::MAX,
    ensures
        r == (adam7_y(nth_pass as int, nth_row as int) * image_pixel_width + adam7_x(
            nth_pass as int,
            nth_col as int,
        )) * 4,
{
    let ghost x = adam7_x(nth_pass as int, nth_col as int);
    let ghost y = adam7_y(nth_pass as int, nth_row as int);
    let w = image_pixel_width as usize;
    proof {
        assert(0 <= y * w) by (nonlinear_arith)
            requires
                0 <= y,
                0 <= w,
        ;
        assert(x <= (y * w + x) * 4 && y * w <= (y * w + x) * 4) by (nonlinear_arith)
            requires
                0 <= y * w,
                0 <= x,
        ;
        assert(y <= y * w) by (nonlinear_arith)
            requires
                0 <= y,
                1 <= w,
        ;
    }
    let (col, row): (usize, usize) = match nth_pass {
        1 => (nth_col * 8, nth_row * 8),
        2 => (nth_col * 8 + 4, nth_row * 8),
        3 => (nth_col * 4, nth_row * 8 + 4),
        4 => (nth_col * 4 + 2, nth_row * 4),
        5 => (nth_col * 2, nth_row * 4 + 2),
        6 => (nth_col * 2 + 1, nth_row * 2),
        _ => (nth_col, nth_row * 2 + 1),
    };
    (row * w + col) * 4
}

} // verus!
