//! The IHDR field types and the rules that tie color types to bit depths.
use vstd::prelude::*;

use crate::errors::PngDecodeErrorCode;

verus! {

/// The eight bytes every PNG stream starts with.
pub const PNG_HEADER: [u8; 8] = [137, 80, 78, 71, 13, 10, 26, 10];

/// How the pixel samples are interpreted. The IHDR codes are 0, 2, 3, 4 and 6.
#[derive(Debug, Clone, Copy, PartialEq, Eq, Structural)]
pub enum ColorType {
    Greyscale,
    Truecolor,
    /// Each pixel is a palette index.
    IndexedColor,
    GreyscaleAlpha,
    TruecolorAlpha,
}

/// The color type that an IHDR code stands for.
pub open spec fn color_type_of_code(v: u8) -> Option<ColorType> {
    if v == 0 {
        Some(ColorType::Greyscale)
    } else if v == 2 {
        Some(ColorType::Truecolor)
    } else if v == 3 {
        Some(ColorType::IndexedColor)
    } else if v == 4 {
        Some(ColorType::GreyscaleAlpha)
    } else if v == 6 {
        Some(ColorType::TruecolorAlpha)
    } else {
        None
    }
}

impl ColorType {
    /// Reads a color type code of the IHDR chunk.
    pub fn try_from_code(v: u8) -> (r: Result<ColorType, PngDecodeErrorCode>)
        ensures
            r == (match color_type_of_code(v) {
                Some(c) => Ok(c),
                None => Err(PngDecodeErrorCode::UnsupportedColorType(v)),
            }),
    {
        match v {
            0 => Ok(ColorType::Greyscale),
            2 => Ok(ColorType::Truecolor),
            3 => Ok(ColorType::IndexedColor),
            4 => Ok(ColorType::GreyscaleAlpha),
            6 => Ok(ColorType::TruecolorAlpha),
            _ => Err(PngDecodeErrorCode::UnsupportedColorType(v)),
        }
    }
}

/// The bit depths permitted for each color type, in increasing order.
pub open spec fn supported_bit_depths(c: ColorType) -> Seq<u8> {
    match c {
        ColorType::Greyscale => seq![1u8, 2, 4, 8, 16],
        ColorType::IndexedColor => seq![1u8, 2, 4, 8],
        _ => seq![8u8, 16],
    }
}

/// Whether `d` is a permitted bit depth for color type `c`.
pub open spec fn is_supported_bit_depth(c: ColorType, d: u8) -> bool {
    match c {
        ColorType::Greyscale => d == 1 || d == 2 || d == 4 || d == 8 || d == 16,
        ColorType::IndexedColor => d == 1 || d == 2 || d == 4 || d == 8,
        _ => d == 8 || d == 16,
    }
}

/// The permitted bit depths of a color type.
pub fn get_supported_color_type_to_bit_depths(color_type: ColorType) -> (r: Vec<u8>)
    ensures
        r@ == supported_bit_depths(color_type),
{
    let r = match color_type {
        ColorType::Greyscale => vec![1u8, 2, 4, 8, 16],
        ColorType::Truecolor => vec![8u8, 16],
        ColorType::IndexedColor => vec![1u8, 2, 4, 8],
        ColorType::GreyscaleAlpha => vec![8u8, 16],
        ColorType::TruecolorAlpha => vec![8u8, 16],
    };
    assert(r@ =~= supported_bit_depths(color_type));
    r
}

/// Whether the list of permitted bit depths holds `d`.
pub fn contains_bit_depth(depths: &Vec<u8>, d: u8) -> (r: bool)
    ensures
        r == depths@.contains(d),
{
    let mut i: usize = 0;
    while i < depths.len()
        invariant
            i <= depths.len(),
            forall|j: int| 0 <= j < i ==> depths@[j] != d,
        decreases depths.len() - i,
    {
        if depths[i] == d {
            return true;
        }
        i = i + 1;
    }
    false
}

/// The permitted bit depths are exactly those that `is_supported_bit_depth` accepts.
pub proof fn lemma_supported_bit_depths(c: ColorType, d: u8)
    ensures
        supported_bit_depths(c).contains(d) == is_supported_bit_depth(c, d),
{
    let s = supported_bit_depths(c);
    if is_supported_bit_depth(c, d) {
        match c {
            ColorType::Greyscale => {
                assert(s[0] == 1 && s[1] == 2 && s[2] == 4 && s[3] == 8 && s[4] == 16);
            },
            ColorType::IndexedColor => {
                assert(s[0] == 1 && s[1] == 2 && s[2] == 4 && s[3] == 8);
            },
            _ => {
                assert(s[0] == 8 && s[1] == 16);
            },
        }
    }
}

/// Number of samples per pixel.
pub open spec fn channels_of(c: ColorType) -> u8 {
    match c {
        ColorType::Greyscale => 1,
        ColorType::Truecolor => 3,
        ColorType::IndexedColor => 1,
        ColorType::GreyscaleAlpha => 2,
        ColorType::TruecolorAlpha => 4,
    }
}

/// Number of samples per pixel of a color type.
pub fn colortype_to_channel(color_type: ColorType) -> (r: u8)
    ensures
        r == channels_of(color_type),
{
    match color_type {
        ColorType::Greyscale => 1,
        ColorType::Truecolor => 3,
        ColorType::IndexedColor => 1,
        ColorType::GreyscaleAlpha => 2,
        ColorType::TruecolorAlpha => 4,
    }
}

/// Length of a tRNS chunk for the color type; 0 where the length is not
/// fixed (indexed color) or where no tRNS chunk may appear.
pub open spec fn alpha_byte_length(c: ColorType) -> u8 {
    match c {
        ColorType::Greyscale => 2,
        ColorType::Truecolor => 6,
        _ => 0,
    }
}

pub fn colortype_to_alpha_byte_length(color_type: ColorType) -> (r: u8)
    ensures
        r == alpha_byte_length(color_type),
{
    match color_type {
        ColorType::Greyscale => 2,
        ColorType::Truecolor => 6,
        _ => 0,
    }
}

/// Whether the color type carries its own alpha channel.
pub open spec fn has_alpha_channel(c: ColorType) -> bool {
    c == ColorType::GreyscaleAlpha || c == ColorType::TruecolorAlpha
}

pub fn does_colortype_support_alpha_channel(color_type: ColorType) -> (r: bool)
    ensures
        r == has_alpha_channel(color_type),
{
    color_type == ColorType::GreyscaleAlpha || color_type == ColorType::TruecolorAlpha
}

/// Compression method of the IHDR chunk; only deflate (code 0) exists.
#[derive(Debug, Clone, Copy, PartialEq, Eq, Structural)]
pub enum CompressionMethod {
    Deflate,
}

impl CompressionMethod {
    pub fn try_from_code(v: u8) -> (r: Option<CompressionMethod>)
        ensures
            r is Some <==> v == 0,
    {
        if v == 0 {
            Some(CompressionMethod::Deflate)
        } else {
            None
        }
    }
}

/// Filter method of the IHDR chunk; only adaptive filtering (code 0) exists.
#[derive(Debug, Clone, Copy, PartialEq, Eq, Structural)]
pub enum FilterMethod {
    Adaptive,
}

impl FilterMethod {
    pub fn try_from_code(v: u8) -> (r: Option<FilterMethod>)
        ensures
            r is Some <==> v == 0,
    {
        if v == 0 {
            Some(FilterMethod::Adaptive)
        } else {
            None
        }
    }
}

/// Interlace method of the IHDR chunk: 0 for none, 1 for Adam7.
#[derive(Debug, Clone, Copy, PartialEq, Eq, Structural)]
pub enum InterlaceMethod {
    /// Scanlines stored top to bottom.
    NoInterlace,
    Adam7,
}

impl InterlaceMethod {
    pub fn try_from_code(v: u8) -> (r: Result<InterlaceMethod, PngDecodeErrorCode>)
        ensures
            v == 0 ==> r == Ok::<InterlaceMethod, PngDecodeErrorCode>(InterlaceMethod::NoInterlace),
            v == 1 ==> r == Ok::<InterlaceMethod, PngDecodeErrorCode>(InterlaceMethod::Adam7),
            v > 1 ==> r == Err::<InterlaceMethod, PngDecodeErrorCode>(
                PngDecodeErrorCode::UnsupportedInterlaceMethod(v),
            ),
    {
        if v == 0 {
            Ok(InterlaceMethod::NoInterlace)
        } else if v == 1 {
            Ok(InterlaceMethod::Adam7)
        } else {
            Err(PngDecodeErrorCode::UnsupportedInterlaceMethod(v))
        }
    }
}

} // verus!
