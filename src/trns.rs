//! The transparency (tRNS) chunk.
use vstd::prelude::*;

use crate::bitmap::{PixelType, pixel_color_type};
use crate::common::{be_u16, normalized_u16, normalize_u16_to_u8, u16_from_be_bytes};
use crate::errors::PngDecodeErrorCode;

verus! {

/// What a tRNS chunk says, by color type.
#[derive(Debug, PartialEq, Eq)]
pub enum TransparencyChunk {
    /// Alpha of the palette entries, in palette order; missing entries are opaque.
    Palette(Vec<u8>),
    /// The grey sample that is fully transparent.
    Grayscale(u8),
    /// The (red, green, blue) sample that is fully transparent.
    Rgb(u8, u8, u8),
}

/// The sample a 16-bit tRNS value stands for at the pixel type's depth.
pub open spec fn trns_sample(chunk: Seq<u8>, i: int, depth16: bool) -> u8 {
    if depth16 {
        normalized_u16(be_u16(chunk[2 * i], chunk[2 * i + 1]))
    } else {
        chunk[2 * i + 1]
    }
}

/// The grey key of a tRNS chunk for a greyscale pixel type: the low bits
/// of the 16-bit value for depths up to 8, the normalized value for depth 16.
pub open spec fn grey_key(pt: PixelType, chunk: Seq<u8>) -> u8 {
    match pt {
        PixelType::Grayscale1 => chunk[1] % 2,
        PixelType::Grayscale2 => chunk[1] % 4,
        PixelType::Grayscale4 => chunk[1] % 16,
        PixelType::Grayscale16 => trns_sample(chunk, 0, true),
        _ => chunk[1],
    }
}

pub open spec fn is_grey_type(pt: PixelType) -> bool {
    matches!(pt, PixelType::Grayscale1 | PixelType::Grayscale2 | PixelType::Grayscale4
        | PixelType::Grayscale8 | PixelType::Grayscale16)
}

pub open spec fn is_rgb_type(pt: PixelType) -> bool {
    matches!(pt, PixelType::Rgb8 | PixelType::Rgb16)
}

pub open spec fn is_palette_type(pt: PixelType) -> bool {
    matches!(pt, PixelType::Palette1 | PixelType::Palette2 | PixelType::Palette4
        | PixelType::Palette8)
}

/// Bytes a tRNS chunk needs for the pixel type to be read.
pub open spec fn trns_needed_len(pt: PixelType) -> int {
    if is_grey_type(pt) {
        2
    } else if is_rgb_type(pt) {
        6
    } else {
        0
    }
}

/// `t` is what a tRNS chunk holding `chunk` says for pixel type `pt`; a
/// chunk too short for the pixel type says nothing.
pub open spec fn trns_read(t: Option<TransparencyChunk>, chunk: Seq<u8>, pt: PixelType) -> bool {
    if chunk.len() < trns_needed_len(pt) {
        t is None
    } else {
        match t {
            Some(TransparencyChunk::Palette(v)) => is_palette_type(pt) && v@ == chunk,
            Some(TransparencyChunk::Grayscale(g)) => is_grey_type(pt) && g == grey_key(pt, chunk),
            Some(TransparencyChunk::Rgb(red, green, blue)) => is_rgb_type(pt) && red == trns_sample(
                chunk,
                0,
                pt == PixelType::Rgb16,
            ) && green == trns_sample(chunk, 1, pt == PixelType::Rgb16) && blue == trns_sample(
                chunk,
                2,
                pt == PixelType::Rgb16,
            ),
            None => !is_grey_type(pt) && !is_rgb_type(pt) && !is_palette_type(pt),
        }
    }
}

impl TransparencyChunk {
    /// Interprets the tRNS chunk data for the pixel type. Pixel types with an
    /// alpha channel take no tRNS chunk (`Ok(None)`); a chunk too short for a
    /// greyscale or truecolor key is `InvalidTransparencyLength`.
    pub fn new(chunk: Vec<u8>, pixel_type: PixelType) -> (r: Result<
        Option<Self>,
        PngDecodeErrorCode,
    >)
        ensures
            chunk@.len() < trns_needed_len(pixel_type) ==> r == Err::<
                Option<Self>,
                PngDecodeErrorCode,
            >(
                PngDecodeErrorCode::InvalidTransparencyLength(
                    pixel_color_type(pixel_type),
                    chunk@.len() as usize,
                ),
            ),
            chunk@.len() >= trns_needed_len(pixel_type) ==> match r {
                Ok(Some(TransparencyChunk::Palette(v))) => is_palette_type(pixel_type) && v@
                    == chunk@,
                Ok(Some(TransparencyChunk::Grayscale(g))) => is_grey_type(pixel_type) && g
                    == grey_key(pixel_type, chunk@),
                Ok(Some(TransparencyChunk::Rgb(red, green, blue))) => is_rgb_type(pixel_type)
                    && red == trns_sample(chunk@, 0, pixel_type == PixelType::Rgb16) && green
                    == trns_sample(chunk@, 1, pixel_type == PixelType::Rgb16) && blue
                    == trns_sample(chunk@, 2, pixel_type == PixelType::Rgb16),
                Ok(None) => !is_grey_type(pixel_type) && !is_rgb_type(pixel_type)
                    && !is_palette_type(pixel_type),
                Err(_) => false,
            },
    {
        let len = chunk.len();
        match pixel_type {
            PixelType::Grayscale1 | PixelType::Grayscale2 | PixelType::Grayscale4
            | PixelType::Grayscale8 | PixelType::Grayscale16 => {
                if len < 2 {
                    return Err(
                        PngDecodeErrorCode::InvalidTransparencyLength(
                            crate::chunk_helpers::ColorType::Greyscale,
                            len,
                        ),
                    );
                }
                let key = match pixel_type {
                    PixelType::Grayscale1 => chunk[1] % 2,
                    PixelType::Grayscale2 => chunk[1] % 4,
                    PixelType::Grayscale4 => chunk[1] % 16,
                    PixelType::Grayscale16 => normalize_u16_to_u8(
                        u16_from_be_bytes(chunk[0], chunk[1]),
                    ),
                    _ => chunk[1],
                };
                Ok(Some(TransparencyChunk::Grayscale(key)))
            },
            PixelType::Rgb8 | PixelType::Rgb16 => {
                if len < 6 {
                    return Err(
                        PngDecodeErrorCode::InvalidTransparencyLength(
                            crate::chunk_helpers::ColorType::Truecolor,
                            len,
                        ),
                    );
                }
                if pixel_type == PixelType::Rgb16 {
                    let r = normalize_u16_to_u8(u16_from_be_bytes(chunk[0], chunk[1]));
                    let g = normalize_u16_to_u8(u16_from_be_bytes(chunk[2], chunk[3]));
                    let b = normalize_u16_to_u8(u16_from_be_bytes(chunk[4], chunk[5]));
                    Ok(Some(TransparencyChunk::Rgb(r, g, b)))
                } else {
                    Ok(Some(TransparencyChunk::Rgb(chunk[1], chunk[3], chunk[5])))
                }
            },
            PixelType::Palette1 | PixelType::Palette2 | PixelType::Palette4
            | PixelType::Palette8 => Ok(Some(TransparencyChunk::Palette(chunk))),
            _ => Ok(None),
        }
    }
}

} // verus!
