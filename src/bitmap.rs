//! Conversion of reconstructed scanline bytes into RGBA8 pixels.
//!
//! Sub-byte samples are packed most significant bits first; 16-bit samples
//! are big-endian and scaled to 8 bits with rounding.
use vstd::prelude::*;

use crate::chunk_helpers::ColorType;
use crate::common::{be_u16, bytes_per_line, normalized_u16, normalize_u16_to_u8, u16_from_be_bytes};
use crate::errors::PngDecodeErrorCode;
use crate::trns::TransparencyChunk;

verus! {

/// A (color type, bit depth) pair that the decoder can materialize.
#[derive(Debug, Clone, Copy, PartialEq, Eq, Structural)]
pub enum PixelType {
    Grayscale1,
    Grayscale2,
    Grayscale4,
    Grayscale8,
    Grayscale16,
    Rgb8,
    Rgb16,
    Palette1,
    Palette2,
    Palette4,
    Palette8,
    GrayscaleAlpha8,
    GrayscaleAlpha16,
    RgbAlpha8,
    RgbAlpha16,
}

pub open spec fn pixel_color_type(pt: PixelType) -> ColorType {
    match pt {
        PixelType::Grayscale1 | PixelType::Grayscale2 | PixelType::Grayscale4
        | PixelType::Grayscale8 | PixelType::Grayscale16 => ColorType::Greyscale,
        PixelType::Rgb8 | PixelType::Rgb16 => ColorType::Truecolor,
        PixelType::Palette1 | PixelType::Palette2 | PixelType::Palette4
        | PixelType::Palette8 => ColorType::IndexedColor,
        PixelType::GrayscaleAlpha8 | PixelType::GrayscaleAlpha16 => ColorType::GreyscaleAlpha,
        PixelType::RgbAlpha8 | PixelType::RgbAlpha16 => ColorType::TruecolorAlpha,
    }
}

pub open spec fn pixel_bit_depth(pt: PixelType) -> u8 {
    match pt {
        PixelType::Grayscale1 | PixelType::Palette1 => 1,
        PixelType::Grayscale2 | PixelType::Palette2 => 2,
        PixelType::Grayscale4 | PixelType::Palette4 => 4,
        PixelType::Grayscale16 | PixelType::Rgb16 | PixelType::GrayscaleAlpha16
        | PixelType::RgbAlpha16 => 16,
        _ => 8,
    }
}

/// The pixel type of a (color type, bit depth) pair, if the pair is permitted.
pub open spec fn pixel_type_of(c: ColorType, d: u8) -> Option<PixelType> {
    match c {
        ColorType::Greyscale => if d == 1 {
            Some(PixelType::Grayscale1)
        } else if d == 2 {
            Some(PixelType::Grayscale2)
        } else if d == 4 {
            Some(PixelType::Grayscale4)
        } else if d == 8 {
            Some(PixelType::Grayscale8)
        } else if d == 16 {
            Some(PixelType::Grayscale16)
        } else {
            None
        },
        ColorType::Truecolor => if d == 8 {
            Some(PixelType::Rgb8)
        } else if d == 16 {
            Some(PixelType::Rgb16)
        } else {
            None
        },
        ColorType::IndexedColor => if d == 1 {
            Some(PixelType::Palette1)
        } else if d == 2 {
            Some(PixelType::Palette2)
        } else if d == 4 {
            Some(PixelType::Palette4)
        } else if d == 8 {
            Some(PixelType::Palette8)
        } else {
            None
        },
        ColorType::GreyscaleAlpha => if d == 8 {
            Some(PixelType::GrayscaleAlpha8)
        } else if d == 16 {
            Some(PixelType::GrayscaleAlpha16)
        } else {
            None
        },
        ColorType::TruecolorAlpha => if d == 8 {
            Some(PixelType::RgbAlpha8)
        } else if d == 16 {
            Some(PixelType::RgbAlpha16)
        } else {
            None
        },
    }
}

/// A pixel type has the color type and bit depth it was made from.
pub proof fn lemma_pixel_type_of(c: ColorType, d: u8)
    ensures
        pixel_type_of(c, d) is Some ==> pixel_color_type(pixel_type_of(c, d)->Some_0) == c
            && pixel_bit_depth(pixel_type_of(c, d)->Some_0) == d,
        pixel_type_of(c, d) is Some <==> crate::chunk_helpers::is_supported_bit_depth(c, d),
{
}

impl PixelType {
    /// The pixel type of a color type and bit depth; `ForbiddenCombination`
    /// when the bit depth is not permitted for the color type.
    pub fn new(color_type: ColorType, bit_depth: u8) -> (r: Result<Self, PngDecodeErrorCode>)
        ensures
            r == (match pixel_type_of(color_type, bit_depth) {
                Some(pt) => Ok(pt),
                None => Err(PngDecodeErrorCode::ForbiddenCombination(color_type, bit_depth)),
            }),
    {
        let bad = Err(PngDecodeErrorCode::ForbiddenCombination(color_type, bit_depth));
        match color_type {
            ColorType::Greyscale => match bit_depth {
                1 => Ok(PixelType::Grayscale1),
                2 => Ok(PixelType::Grayscale2),
                4 => Ok(PixelType::Grayscale4),
                8 => Ok(PixelType::Grayscale8),
                16 => Ok(PixelType::Grayscale16),
                _ => bad,
            },
            ColorType::Truecolor => match bit_depth {
                8 => Ok(PixelType::Rgb8),
                16 => Ok(PixelType::Rgb16),
                _ => bad,
            },
            ColorType::IndexedColor => match bit_depth {
                1 => Ok(PixelType::Palette1),
                2 => Ok(PixelType::Palette2),
                4 => Ok(PixelType::Palette4),
                8 => Ok(PixelType::Palette8),
                _ => bad,
            },
            ColorType::GreyscaleAlpha => match bit_depth {
                8 => Ok(PixelType::GrayscaleAlpha8),
                16 => Ok(PixelType::GrayscaleAlpha16),
                _ => bad,
            },
            ColorType::TruecolorAlpha => match bit_depth {
                8 => Ok(PixelType::RgbAlpha8),
                16 => Ok(PixelType::RgbAlpha16),
                _ => bad,
            },
        }
    }
}

/// Sample `col` of a scanline packed `depth` bits per sample (1, 2 or 4),
/// most significant bits first.
pub open spec fn packed_sample(data: Seq<u8>, col: int, depth: u8) -> u8 {
    if depth == 1 {
        (data[col / 8] >> ((7 - col % 8) as u8)) & 1
    } else if depth == 2 {
        (data[col / 4] >> ((6 - (col % 4) * 2) as u8)) & 3
    } else {
        (data[col / 2] >> ((4 - (col % 2) * 4) as u8)) & 15
    }
}

/// Sample `idx` of a scanline of 8-bit or 16-bit samples, scaled to 8 bits.
pub open spec fn wide_sample(data: Seq<u8>, idx: int, depth: u8) -> u8 {
    if depth == 16 {
        normalized_u16(be_u16(data[2 * idx], data[2 * idx + 1]))
    } else {
        data[idx]
    }
}

/// A grey sample of `depth` bits scaled to 8 bits: `round(v * 255 / (2^depth - 1))`.
pub open spec fn grey_level(v: u8, depth: u8) -> u8 {
    if depth == 1 {
        (v * 255) as u8
    } else if depth == 2 {
        (v * 85) as u8
    } else if depth == 4 {
        (v * 17) as u8
    } else {
        v
    }
}

/// Alpha of a grey sample: 0 if it is the tRNS key, else opaque.
pub open spec fn grey_alpha(trns: Option<TransparencyChunk>, v: u8) -> u8 {
    match trns {
        Some(TransparencyChunk::Grayscale(t)) => if t == v {
            0
        } else {
            255
        },
        _ => 255,
    }
}

/// Alpha of an RGB sample: 0 if it is the tRNS key, else opaque.
pub open spec fn rgb_alpha(trns: Option<TransparencyChunk>, r: u8, g: u8, b: u8) -> u8 {
    match trns {
        Some(TransparencyChunk::Rgb(tr, tg, tb)) => if tr == r && tg == g && tb == b {
            0
        } else {
            255
        },
        _ => 255,
    }
}

/// Alpha of palette entry `idx`: the tRNS entry if there is one, else opaque.
pub open spec fn palette_alpha(trns: Option<TransparencyChunk>, idx: u8) -> u8 {
    match trns {
        Some(TransparencyChunk::Palette(a)) => if (idx as int) < a@.len() {
            a@[idx as int]
        } else {
            255
        },
        _ => 255,
    }
}

/// The RGBA value of palette entry `idx`.
pub open spec fn palette_rgba(
    palette: Option<Vec<u8>>,
    trns: Option<TransparencyChunk>,
    idx: u8,
) -> Result<(u8, u8, u8, u8), PngDecodeErrorCode> {
    match palette {
        Some(p) => if 3 * idx + 2 < p@.len() {
            Ok(
                (
                    p@[3 * idx],
                    p@[3 * idx + 1],
                    p@[3 * idx + 2],
                    palette_alpha(trns, idx),
                ),
            )
        } else {
            Err(PngDecodeErrorCode::PaletteIndexOutOfRange(idx))
        },
        None => Err(PngDecodeErrorCode::PaletteIndexOutOfRange(idx)),
    }
}

/// Number of samples per pixel of a pixel type.
pub open spec fn pixel_channels(pt: PixelType) -> u8 {
    crate::chunk_helpers::channels_of(pixel_color_type(pt))
}

/// Bytes a scanline needs for pixel `col` to be read.
pub open spec fn bytes_for_pixel(pt: PixelType, col: int) -> int {
    bytes_per_line(pixel_channels(pt) as int, pixel_bit_depth(pt) as int, col + 1)
}

/// The RGBA value of pixel `col` of a reconstructed scanline.
pub open spec fn pixel_rgba(
    pt: PixelType,
    trns: Option<TransparencyChunk>,
    palette: Option<Vec<u8>>,
    col: int,
    data: Seq<u8>,
) -> Result<(u8, u8, u8, u8), PngDecodeErrorCode> {
    let d = pixel_bit_depth(pt);
    match pixel_color_type(pt) {
        ColorType::Greyscale => {
            let v = if d <= 4 {
                packed_sample(data, col, d)
            } else {
                wide_sample(data, col, d)
            };
            let l = grey_level(v, d);
            Ok((l, l, l, grey_alpha(trns, v)))
        },
        ColorType::Truecolor => {
            let r = wide_sample(data, 3 * col, d);
            let g = wide_sample(data, 3 * col + 1, d);
            let b = wide_sample(data, 3 * col + 2, d);
            Ok((r, g, b, rgb_alpha(trns, r, g, b)))
        },
        ColorType::IndexedColor => {
            let idx = if d <= 4 {
                packed_sample(data, col, d)
            } else {
                data[col]
            };
            palette_rgba(palette, trns, idx)
        },
        ColorType::GreyscaleAlpha => {
            let l = wide_sample(data, 2 * col, d);
            Ok((l, l, l, wide_sample(data, 2 * col + 1, d)))
        },
        ColorType::TruecolorAlpha => Ok(
            (
                wide_sample(data, 4 * col, d),
                wide_sample(data, 4 * col + 1, d),
                wide_sample(data, 4 * col + 2, d),
                wide_sample(data, 4 * col + 3, d),
            ),
        ),
    }
}

/// Bytes needed for pixel `col`, spelled out per pixel type.
pub proof fn lemma_bytes_for_pixel(pt: PixelType, col: int)
    requires
        col >= 0,
    ensures
        bytes_for_pixel(pt, col) == (match pt {
            PixelType::Grayscale1 | PixelType::Palette1 => col / 8 + 1,
            PixelType::Grayscale2 | PixelType::Palette2 => col / 4 + 1,
            PixelType::Grayscale4 | PixelType::Palette4 => col / 2 + 1,
            PixelType::Grayscale8 | PixelType::Palette8 => col + 1,
            PixelType::Grayscale16 | PixelType::GrayscaleAlpha8 => 2 * col + 2,
            PixelType::Rgb8 => 3 * col + 3,
            PixelType::Rgb16 => 6 * col + 6,
            PixelType::GrayscaleAlpha16 | PixelType::RgbAlpha8 => 4 * col + 4,
            PixelType::RgbAlpha16 => 8 * col + 8,
        }),
{
}

/// Reads a packed sample of 1, 2 or 4 bits.
fn read_packed_sample(data: &[u8], col: usize, depth: u8) -> (r: u8)
    requires
        depth == 1 || depth == 2 || depth == 4,
        col as int / (8int / depth as int) < data@.len(),
    ensures
        r == packed_sample(data@, col as int, depth),
        r < 16,
        depth == 1 ==> r < 2,
        depth == 2 ==> r < 4,
{
    if depth == 1 {
        let byte = data[col / 8];
        let shift = (7 - col % 8) as u8;
        let r = (byte >> shift) & 1;
        assert((byte >> shift) & 1u8 < 2) by (bit_vector);
        r
    } else if depth == 2 {
        let byte = data[col / 4];
        let shift = (6 - (col % 4) * 2) as u8;
        let r = (byte >> shift) & 3;
        assert((byte >> shift) & 3u8 < 4) by (bit_vector);
        r
    } else {
        let byte = data[col / 2];
        let shift = (4 - (col % 2) * 4) as u8;
        let r = (byte >> shift) & 15;
        assert((byte >> shift) & 15u8 < 16) by (bit_vector);
        r
    }
}

/// Reads an 8-bit sample, or a 16-bit one scaled to 8 bits.
fn read_wide_sample(data: &[u8], idx: usize, depth: u8) -> (r: u8)
    requires
        depth == 8 || depth == 16,
        depth == 8 ==> idx < data@.len(),
        depth == 16 ==> 2 * idx + 1 < data@.len(),
    ensures
        r == wide_sample(data@, idx as int, depth),
{
    // The slice length bounds the index arithmetic below.
    let _len = data.len();
    if depth == 16 {
        normalize_u16_to_u8(u16_from_be_bytes(data[2 * idx], data[2 * idx + 1]))
    } else {
        data[idx]
    }
}

/// The RGBA value of palette entry `idx`.
fn palette_lookup(palette_chunk: &Option<Vec<u8>>, transparency_chunk: &Option<TransparencyChunk>, idx: u8) -> (r: Result<(u8, u8, u8, u8), PngDecodeErrorCode>)
    ensures
        r == palette_rgba(*palette_chunk, *transparency_chunk, idx),
{
    match palette_chunk {
        Some(p) => {
            let offset = 3 * (idx as usize);
            if offset + 2 < p.len() {
                let alpha: u8 = match transparency_chunk {
                    Some(TransparencyChunk::Palette(a)) => if (idx as usize) < a.len() {
                        a[idx as usize]
                    } else {
                        255
                    },
                    _ => 255,
                };
                Ok((p[offset], p[offset + 1], p[offset + 2], alpha))
            } else {
                Err(PngDecodeErrorCode::PaletteIndexOutOfRange(idx))
            }
        },
        None => Err(PngDecodeErrorCode::PaletteIndexOutOfRange(idx)),
    }
}

/// The RGBA value of pixel `pixel_start_byte_position` (a column index) of a
/// reconstructed scanline, applying the palette and the tRNS chunk.
/// `PaletteIndexOutOfRange` when a palette index has no palette entry.
pub fn to_rgba_pixel_bytes(
    pixel_type: PixelType,
    transparency_chunk: &Option<TransparencyChunk>,
    palette_chunk: &Option<Vec<u8>>,
    pixel_start_byte_position: usize,
    unfiltered_data: &[u8],
) -> (r: Result<(u8, u8, u8, u8), PngDecodeErrorCode>)
    requires
        unfiltered_data@.len() >= bytes_for_pixel(pixel_type, pixel_start_byte_position as int),
    ensures
        r == pixel_rgba(
            pixel_type,
            *transparency_chunk,
            *palette_chunk,
            pixel_start_byte_position as int,
            unfiltered_data@,
        ),
{
    let col = pixel_start_byte_position;
    let data = unfiltered_data;
    // The slice length bounds the index arithmetic below.
    let _len = data.len();
    proof {
        lemma_bytes_for_pixel(pixel_type, col as int);
    }
    match pixel_type {
        PixelType::Grayscale1 | PixelType::Grayscale2 | PixelType::Grayscale4 => {
            let d: u8 = match pixel_type {
                PixelType::Grayscale1 => 1,
                PixelType::Grayscale2 => 2,
                _ => 4,
            };
            let v = read_packed_sample(data, col, d);
            let l: u8 = if d == 1 {
                v * 255
            } else if d == 2 {
                v * 85
            } else {
                v * 17
            };
            let a: u8 = match transparency_chunk {
                Some(TransparencyChunk::Grayscale(t)) => if *t == v {
                    0
                } else {
                    255
                },
                _ => 255,
            };
            Ok((l, l, l, a))
        },
        PixelType::Grayscale8 | PixelType::Grayscale16 => {
            let d: u8 = if pixel_type == PixelType::Grayscale8 {
                8
            } else {
                16
            };
            let v = read_wide_sample(data, col, d);
            let a: u8 = match transparency_chunk {
                Some(TransparencyChunk::Grayscale(t)) => if *t == v {
                    0
                } else {
                    255
                },
                _ => 255,
            };
            Ok((v, v, v, a))
        },
        PixelType::Rgb8 | PixelType::Rgb16 => {
            let d: u8 = if pixel_type == PixelType::Rgb8 {
                8
            } else {
                16
            };
            let r = read_wide_sample(data, 3 * col, d);
            let g = read_wide_sample(data, 3 * col + 1, d);
            let b = read_wide_sample(data, 3 * col + 2, d);
            let a: u8 = match transparency_chunk {
                Some(TransparencyChunk::Rgb(tr, tg, tb)) => if *tr == r && *tg == g && *tb == b {
                    0
                } else {
                    255
                },
                _ => 255,
            };
            Ok((r, g, b, a))
        },
        PixelType::Palette1 | PixelType::Palette2 | PixelType::Palette4 => {
            let d: u8 = match pixel_type {
                PixelType::Palette1 => 1,
                PixelType::Palette2 => 2,
                _ => 4,
            };
            let idx = read_packed_sample(data, col, d);
            palette_lookup(palette_chunk, transparency_chunk, idx)
        },
        PixelType::Palette8 => palette_lookup(palette_chunk, transparency_chunk, data[col]),
        PixelType::GrayscaleAlpha8 | PixelType::GrayscaleAlpha16 => {
            let d: u8 = if pixel_type == PixelType::GrayscaleAlpha8 {
                8
            } else {
                16
            };
            let l = read_wide_sample(data, 2 * col, d);
            let a = read_wide_sample(data, 2 * col + 1, d);
            Ok((l, l, l, a))
        },
        PixelType::RgbAlpha8 | PixelType::RgbAlpha16 => {
            let d: u8 = if pixel_type == PixelType::RgbAlpha8 {
                8
            } else {
                16
            };
            let r = read_wide_sample(data, 4 * col, d);
            let g = read_wide_sample(data, 4 * col + 1, d);
            let b = read_wide_sample(data, 4 * col + 2, d);
            let a = read_wide_sample(data, 4 * col + 3, d);
            Ok((r, g, b, a))
        },
    }
}

} // verus!
