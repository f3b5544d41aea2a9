//! Error taxonomy of the decoder and the policy that decides whether decoding
//! goes on after an error.
use vstd::prelude::*;

use crate::chunk_helpers::ColorType;

verus! {

/// Every problem the decoder can detect.
#[derive(Debug, Clone, Copy, PartialEq, Eq)]
pub enum PngDecodeErrorCode {
    /// The first eight bytes are not the PNG signature; holds what was found,
    /// read as a big-endian number.
    InvalidSignature(u64),
    /// A PLTE chunk came before IHDR or after the first IDAT chunk.
    PaletteOutOfOrder,
    /// The IHDR chunk does not hold exactly 13 bytes; holds its length.
    InvalidHeaderLength(usize),
    /// The bit depth is not permitted for the color type; holds the bit depth.
    UnsupportedBitDepth(u8),
    /// More than one PLTE chunk.
    DuplicatePalette,
    /// A PLTE chunk for a color type that forbids one.
    PaletteForbidden(ColorType),
    /// A chunk's stored CRC differs from the computed one: `(computed, stored)`.
    CrcMismatch(u32, u32),
    /// An IHDR chunk after a PLTE chunk.
    HeaderAfterPalette,
    /// The PLTE chunk length is not a multiple of three; holds the length.
    InvalidPaletteLength(usize),
    /// Compression method other than deflate.
    UnsupportedCompressionMethod(u8),
    /// Filter method other than adaptive.
    UnsupportedFilterMethod(u8),
    /// Interlace method other than none or Adam7.
    UnsupportedInterlaceMethod(u8),
    /// The first chunk is not IHDR; holds the chunk type found, read as a
    /// big-endian number.
    FirstChunkNotHeader(u32),
    /// The concatenated image data is not a valid zlib stream.
    InflateFailed,
    /// IEND was reached without an IHDR chunk.
    MissingHeader,
    /// IEND was reached without the PLTE chunk that the color type requires.
    MissingPalette(ColorType),
    /// A scanline starts with a filter type outside `0..=4`.
    UnknownFilterType(u8),
    /// The color type code is not one of 0, 2, 3, 4, 6.
    UnsupportedColorType(u8),
    /// A tRNS chunk before IHDR.
    TransparencyBeforeHeader,
    /// A tRNS chunk for a color type with an alpha channel.
    TransparencyForbidden,
    /// The tRNS chunk length does not fit the color type.
    InvalidTransparencyLength(ColorType, usize),
    /// The (color type, bit depth) combination is not permitted.
    ForbiddenCombination(ColorType, u8),
    /// A tRNS chunk came before the pixel type was known.
    PixelTypeUnresolved,
    /// A palette index points past the end of the palette.
    PaletteIndexOutOfRange(u8),
    /// The input ends in the middle of a chunk.
    UnexpectedEndOfData,
    /// The inflated image data is shorter than the image needs.
    ImageDataTooShort,
    /// The image buffers would not fit in memory addresses.
    ImageTooLarge,
}

/// Whether decoding may go on after an error of this kind.
pub open spec fn is_recoverable(code: PngDecodeErrorCode) -> bool {
    match code {
        PngDecodeErrorCode::InvalidSignature(_) => true,
        PngDecodeErrorCode::PaletteForbidden(_) => true,
        PngDecodeErrorCode::CrcMismatch(_, _) => true,
        PngDecodeErrorCode::UnsupportedCompressionMethod(_) => true,
        PngDecodeErrorCode::UnsupportedFilterMethod(_) => true,
        PngDecodeErrorCode::UnsupportedInterlaceMethod(_) => true,
        PngDecodeErrorCode::FirstChunkNotHeader(_) => true,
        PngDecodeErrorCode::TransparencyForbidden => true,
        PngDecodeErrorCode::InvalidTransparencyLength(_, _) => true,
        _ => false,
    }
}

/// Classifies an error as recoverable or not.
pub fn recoverable_map(code: PngDecodeErrorCode) -> (r: bool)
    ensures
        r == is_recoverable(code),
{
    match code {
        PngDecodeErrorCode::InvalidSignature(_) => true,
        PngDecodeErrorCode::PaletteForbidden(_) => true,
        PngDecodeErrorCode::CrcMismatch(_, _) => true,
        PngDecodeErrorCode::UnsupportedCompressionMethod(_) => true,
        PngDecodeErrorCode::UnsupportedFilterMethod(_) => true,
        PngDecodeErrorCode::UnsupportedInterlaceMethod(_) => true,
        PngDecodeErrorCode::FirstChunkNotHeader(_) => true,
        PngDecodeErrorCode::TransparencyForbidden => true,
        PngDecodeErrorCode::InvalidTransparencyLength(_, _) => true,
        _ => false,
    }
}

/// An error together with its classification and the approximate input
/// offset at which it was detected.
#[derive(Debug, Clone, Copy, PartialEq, Eq)]
pub struct PngDecodeError {
    pub is_recoverable: bool,
    pub code: PngDecodeErrorCode,
    pub approx_byte_location: usize,
}

impl PngDecodeError {
    pub fn new(code: PngDecodeErrorCode, approx_byte_location: usize) -> (r: Self)
        ensures
            r.code == code,
            r.is_recoverable == is_recoverable(code),
            r.approx_byte_location == approx_byte_location,
    {
        PngDecodeError { is_recoverable: recoverable_map(code), code, approx_byte_location }
    }
}

/// Why a decode was stopped before its end.
#[derive(Debug, Clone, Copy, PartialEq, Eq)]
pub enum ForceExitReason {
    /// The caller asked to stop at the first error.
    FailFast,
    /// The error leaves nothing sensible to continue with.
    Unrecoverable,
}

/// How a decode that ran to its end finished.
#[derive(Debug, Clone, Copy, PartialEq, Eq)]
pub enum ExitReason {
    JobDone,
}

/// Whether reporting an error with this code stops the decode.
pub open spec fn stops(code: PngDecodeErrorCode, fail_fast: bool) -> bool {
    !is_recoverable(code) || fail_fast
}

/// The reason a decode stops on an error with this code.
pub open spec fn stop_reason(code: PngDecodeErrorCode) -> ForceExitReason {
    if !is_recoverable(code) {
        ForceExitReason::Unrecoverable
    } else {
        ForceExitReason::FailFast
    }
}

/// Collects the errors of one decode and applies the stop policy.
pub struct MultiErrorsManager {
    errors: Vec<PngDecodeError>,
    fail_fast: bool,
}

impl MultiErrorsManager {
    pub closed spec fn errors_view(&self) -> Seq<PngDecodeError> {
        self.errors@
    }

    pub closed spec fn fail_fast_view(&self) -> bool {
        self.fail_fast
    }

    pub fn new(fail_fast: bool) -> (r: Self)
        ensures
            r.errors_view() == Seq::<PngDecodeError>::empty(),
            r.fail_fast_view() == fail_fast,
    {
        MultiErrorsManager { errors: Vec::new(), fail_fast }
    }

    /// Records an error. Returns `Err` with the reason when the decode has to
    /// stop: the error is unrecoverable, or the manager fails fast.
    pub fn handle_err(&mut self, err: PngDecodeError) -> (r: Result<(), ForceExitReason>)
        requires
            err.is_recoverable == is_recoverable(err.code),
        ensures
            final(self).errors_view() == old(self).errors_view().push(err),
            final(self).fail_fast_view() == old(self).fail_fast_view(),
            r is Err <==> stops(err.code, old(self).fail_fast_view()),
            r is Err ==> r->Err_0 == stop_reason(err.code),
    {
        self.errors.push(err);
        if !err.is_recoverable {
            return Err(ForceExitReason::Unrecoverable);
        }
        if self.fail_fast {
            return Err(ForceExitReason::FailFast);
        }
        Ok(())
    }

    /// The errors recorded so far, oldest first.
    pub fn errors(&self) -> (r: &Vec<PngDecodeError>)
        ensures
            r@ == self.errors_view(),
    {
        &self.errors
    }

    pub fn into_errors(self) -> (r: Vec<PngDecodeError>)
        ensures
            r@ == self.errors_view(),
    {
        self.errors
    }
}

} // verus!
