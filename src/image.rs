//! The decoded image as values: where each pixel of the final image comes
//! from, and laws about the RGBA8 output.
use vstd::prelude::*;

use crate::bitmap::{packed_sample, pixel_bit_depth, pixel_channels, pixel_rgba, PixelType};
use crate::common::{bytes_per_line, bytes_per_pixel};
use crate::deinterlace::{
    adam7_col_of,
    adam7_pass_of,
    adam7_row_of,
    interlaced_bands,
    pass_bpl,
    pass_in_len,
    pass_in_offset,
    pass_is_empty,
    pass_out_offset,
    reduced_height,
};
use crate::errors::PngDecodeErrorCode;
use crate::trns::TransparencyChunk;
use crate::unfilter::{filters_known, unfiltered_band};

verus! {

/// The reconstructed bytes of a whole image from its inflated image data:
/// one band, or the seven Adam7 passes one after the other.
pub open spec fn unfiltered_image(
    inp: Seq<u8>,
    interlaced: bool,
    w: int,
    h: int,
    c: int,
    d: int,
) -> Seq<u8> {
    if interlaced {
        interlaced_bands(inp, 7, w, h, c, d)
    } else {
        unfiltered_band(inp, h, bytes_per_pixel(c, d), bytes_per_line(c, d, w))
    }
}

/// Length of the reconstructed bytes of a whole image.
pub open spec fn unfiltered_len(interlaced: bool, w: int, h: int, c: int, d: int) -> int {
    if interlaced {
        pass_out_offset(8, w, h, c, d)
    } else {
        h * bytes_per_line(c, d, w)
    }
}

/// Length of the filtered image data a whole image needs.
pub open spec fn filtered_len(interlaced: bool, w: int, h: int, c: int, d: int) -> int {
    if interlaced {
        pass_in_offset(8, w, h, c, d)
    } else {
        h * (bytes_per_line(c, d, w) + 1)
    }
}

/// Every scanline of the filtered image data carries a known filter type.
pub open spec fn image_filters_known(
    inp: Seq<u8>,
    interlaced: bool,
    w: int,
    h: int,
    c: int,
    d: int,
) -> bool {
    if interlaced {
        forall|p: int|
            1 <= p <= 7 && !pass_is_empty(p, w, h) ==> #[trigger] filters_known(
                inp.subrange(
                    pass_in_offset(p, w, h, c, d),
                    pass_in_offset(p, w, h, c, d) + pass_in_len(p, w, h, c, d),
                ),
                pass_bpl(p, w, c, d),
                reduced_height(p, h),
            )
    } else {
        filters_known(inp, bytes_per_line(c, d, w), h)
    }
}

/// The pass that holds pixel `(x, y)`; pass 0 is the whole non-interlaced image.
pub open spec fn source_pass(interlaced: bool, x: int, y: int) -> int {
    if interlaced {
        adam7_pass_of(x, y)
    } else {
        0
    }
}

/// The column of pixel `(x, y)` within its pass.
pub open spec fn source_col(interlaced: bool, x: int, y: int) -> int {
    if interlaced {
        adam7_col_of(x, y)
    } else {
        x
    }
}

/// The row of pixel `(x, y)` within its pass.
pub open spec fn source_row(interlaced: bool, x: int, y: int) -> int {
    if interlaced {
        adam7_row_of(x, y)
    } else {
        y
    }
}

/// The reconstructed scanline that holds pixel `(x, y)`.
pub open spec fn source_line(
    pt: PixelType,
    unf: Seq<u8>,
    interlaced: bool,
    w: int,
    h: int,
    x: int,
    y: int,
) -> Seq<u8> {
    let c = pixel_channels(pt) as int;
    let d = pixel_bit_depth(pt) as int;
    let p = source_pass(interlaced, x, y);
    let bpl = pass_bpl(p, w, c, d);
    let start = pass_out_offset(p, w, h, c, d) + source_row(interlaced, x, y) * bpl;
    unf.subrange(start, start + bpl)
}

/// The RGBA value of pixel `(x, y)` of the final image.
pub open spec fn source_pixel(
    pt: PixelType,
    trns: Option<TransparencyChunk>,
    palette: Option<Vec<u8>>,
    unf: Seq<u8>,
    interlaced: bool,
    w: int,
    h: int,
    x: int,
    y: int,
) -> Result<(u8, u8, u8, u8), PngDecodeErrorCode> {
    pixel_rgba(
        pt,
        trns,
        palette,
        source_col(interlaced, x, y),
        source_line(pt, unf, interlaced, w, h, x, y),
    )
}

/// Pixel `i` (row-major) of `out` is the RGBA value of its source pixel.
pub open spec fn pixel_matches(
    out: Seq<u8>,
    i: int,
    pt: PixelType,
    trns: Option<TransparencyChunk>,
    palette: Option<Vec<u8>>,
    unf: Seq<u8>,
    interlaced: bool,
    w: int,
    h: int,
) -> bool {
    match source_pixel(pt, trns, palette, unf, interlaced, w, h, i % w, i / w) {
        Ok(px) => out[4 * i] == px.0 && out[4 * i + 1] == px.1 && out[4 * i + 2] == px.2 && out[4
            * i + 3] == px.3,
        Err(_) => false,
    }
}

/// `out` is the RGBA8 image: four bytes per pixel, rows top to bottom, each
/// pixel the RGBA value of its source pixel.
pub open spec fn rgba_image_matches(
    out: Seq<u8>,
    pt: PixelType,
    trns: Option<TransparencyChunk>,
    palette: Option<Vec<u8>>,
    unf: Seq<u8>,
    interlaced: bool,
    w: int,
    h: int,
) -> bool {
    &&& out.len() == w * h * 4
    &&& forall|i: int|
        0 <= i < w * h ==> #[trigger] pixel_matches(out, i, pt, trns, palette, unf, interlaced, w, h)
}

/// Pixel `c1` of scanline `l1` and pixel `c2` of scanline `l2` carry the same
/// sample bits: the same packed value for depths below 8, the same bytes otherwise.
pub open spec fn same_pixel(pt: PixelType, l1: Seq<u8>, c1: int, l2: Seq<u8>, c2: int) -> bool {
    let d = pixel_bit_depth(pt);
    if d <= 4 {
        packed_sample(l1, c1, d) == packed_sample(l2, c2, d)
    } else {
        let b = bytes_per_pixel(pixel_channels(pt) as int, d as int);
        forall|k: int| 0 <= k < b ==> #[trigger] l1[c1 * b + k] == l2[c2 * b + k]
    }
}

/// Pixels that carry the same sample bits have the same RGBA value.
pub proof fn lemma_same_pixel_rgba(
    pt: PixelType,
    trns: Option<TransparencyChunk>,
    palette: Option<Vec<u8>>,
    l1: Seq<u8>,
    c1: int,
    l2: Seq<u8>,
    c2: int,
)
    requires
        same_pixel(pt, l1, c1, l2, c2),
    ensures
        pixel_rgba(pt, trns, palette, c1, l1) == pixel_rgba(pt, trns, palette, c2, l2),
{
    let d = pixel_bit_depth(pt);
    if d > 4 {
        let b = bytes_per_pixel(pixel_channels(pt) as int, d as int);
        let k1 = c1 * b;
        let k2 = c2 * b;
        match pt {
            PixelType::Grayscale8 | PixelType::Palette8 => {
                assert(b == 1);
                assert(k1 == c1 && k2 == c2) by (nonlinear_arith)
                    requires
                        k1 == c1 * b,
                        k2 == c2 * b,
                        b == 1,
                ;
            },
            PixelType::Grayscale16 | PixelType::GrayscaleAlpha8 => {
                assert(b == 2);
                assert(k1 == 2 * c1 && k2 == 2 * c2) by (nonlinear_arith)
                    requires
                        k1 == c1 * b,
                        k2 == c2 * b,
                        b == 2,
                ;
            },
            PixelType::Rgb8 => {
                assert(b == 3);
                assert(k1 == 3 * c1 && k2 == 3 * c2) by (nonlinear_arith)
                    requires
                        k1 == c1 * b,
                        k2 == c2 * b,
                        b == 3,
                ;
            },
            PixelType::Rgb16 => {
                assert(b == 6);
                assert(k1 == 6 * c1 && k2 == 6 * c2) by (nonlinear_arith)
                    requires
                        k1 == c1 * b,
                        k2 == c2 * b,
                        b == 6,
                ;
            },
            PixelType::GrayscaleAlpha16 | PixelType::RgbAlpha8 => {
                assert(b == 4);
                assert(k1 == 4 * c1 && k2 == 4 * c2) by (nonlinear_arith)
                    requires
                        k1 == c1 * b,
                        k2 == c2 * b,
                        b == 4,
                ;
            },
            PixelType::RgbAlpha16 => {
                assert(b == 8);
                assert(k1 == 8 * c1 && k2 == 8 * c2) by (nonlinear_arith)
                    requires
                        k1 == c1 * b,
                        k2 == c2 * b,
                        b == 8,
                ;
            },
            _ => {},
        }
        assert(l1[k1 + 0] == l2[k2 + 0]);
        if b > 1 {
            assert(l1[k1 + 1] == l2[k2 + 1]);
        }
        if b > 2 {
            assert(l1[k1 + 2] == l2[k2 + 2]);
        }
        if b > 3 {
            assert(l1[k1 + 3] == l2[k2 + 3]);
        }
        if b > 4 {
            assert(l1[k1 + 4] == l2[k2 + 4]);
            assert(l1[k1 + 5] == l2[k2 + 5]);
        }
        if b > 6 {
            assert(l1[k1 + 6] == l2[k2 + 6]);
            assert(l1[k1 + 7] == l2[k2 + 7]);
        }
    }
}

/// An interlaced image and a non-interlaced one whose pixels carry the same
/// samples decode to the same RGBA8 bytes.
pub proof fn lemma_interlace_agrees(
    out_interlaced: Seq<u8>,
    unf_interlaced: Seq<u8>,
    out_plain: Seq<u8>,
    unf_plain: Seq<u8>,
    pt: PixelType,
    trns: Option<TransparencyChunk>,
    palette: Option<Vec<u8>>,
    w: int,
    h: int,
)
    requires
        w >= 1,
        h >= 0,
        rgba_image_matches(out_interlaced, pt, trns, palette, unf_interlaced, true, w, h),
        rgba_image_matches(out_plain, pt, trns, palette, unf_plain, false, w, h),
        forall|x: int, y: int|
            0 <= x < w && 0 <= y < h ==> #[trigger] same_pixel(
                pt,
                source_line(pt, unf_interlaced, true, w, h, x, y),
                adam7_col_of(x, y),
                source_line(pt, unf_plain, false, w, h, x, y),
                x,
            ),
    ensures
        out_interlaced == out_plain,
{
    assert forall|j: int| 0 <= j < out_plain.len() implies out_interlaced[j] == out_plain[j] by {
        let i = j / 4;
        assert(0 <= i < w * h);
        let x = i % w;
        let y = i / w;
        assert(0 <= x < w);
        assert(0 <= y < h) by (nonlinear_arith)
            requires
                y == i / w,
                0 <= i < w * h,
                w >= 1,
        ;
        assert(pixel_matches(out_interlaced, i, pt, trns, palette, unf_interlaced, true, w, h));
        assert(pixel_matches(out_plain, i, pt, trns, palette, unf_plain, false, w, h));
        assert(same_pixel(
            pt,
            source_line(pt, unf_interlaced, true, w, h, x, y),
            adam7_col_of(x, y),
            source_line(pt, unf_plain, false, w, h, x, y),
            x,
        ));
        lemma_same_pixel_rgba(
            pt,
            trns,
            palette,
            source_line(pt, unf_interlaced, true, w, h, x, y),
            adam7_col_of(x, y),
            source_line(pt, unf_plain, false, w, h, x, y),
            x,
        );
    }
    assert(out_interlaced =~= out_plain);
}

/// For a non-interlaced 8-bit RGBA image the output is the reconstructed
/// scanlines, byte for byte.
pub proof fn lemma_rgba8_output_is_scanlines(
    out: Seq<u8>,
    unf: Seq<u8>,
    trns: Option<TransparencyChunk>,
    palette: Option<Vec<u8>>,
    w: int,
    h: int,
)
    requires
        w >= 1,
        h >= 0,
        unf.len() == h * (4 * w),
        rgba_image_matches(out, PixelType::RgbAlpha8, trns, palette, unf, false, w, h),
    ensures
        out == unf,
{
    assert(bytes_per_line(4, 8, w) == 4 * w);
    assert(unf.len() == w * h * 4) by (nonlinear_arith)
        requires
            unf.len() == h * (4 * w),
    ;
    assert forall|j: int| 0 <= j < out.len() implies out[j] == unf[j] by {
        let i = j / 4;
        let k = j % 4;
        assert(0 <= i < w * h);
        let x = i % w;
        let y = i / w;
        assert(0 <= x < w);
        assert(i == y * w + x) by (nonlinear_arith)
            requires
                x == i % w,
                y == i / w,
                w >= 1,
        ;
        assert(0 <= y < h) by (nonlinear_arith)
            requires
                y == i / w,
                0 <= i < w * h,
                w >= 1,
        ;
        assert(y * (4 * w) + 4 * w <= h * (4 * w)) by (nonlinear_arith)
            requires
                y < h,
                w >= 1,
        ;
        assert(y * (4 * w) + 4 * x + k == j) by (nonlinear_arith)
            requires
                i == y * w + x,
                j == 4 * i + k,
        ;
        assert(pixel_matches(out, i, PixelType::RgbAlpha8, trns, palette, unf, false, w, h));
        assert(y * (4 * w) >= 0) by (nonlinear_arith)
            requires
                y >= 0,
                w >= 1,
        ;
    }
    assert(out =~= unf);
}

} // verus!
