//! The chunk stream as values: the errors each chunk raises, the order
//! rules between chunks, and what a whole stream says about its image.
use vstd::prelude::*;

use crate::bitmap::{PixelType, pixel_type_of};
use crate::byte_reader::{be_u32, be_u64};
use crate::chunk_helpers::{channels_of, color_type_of_code, is_supported_bit_depth, ColorType, PNG_HEADER};
use crate::chunk_types::{ChunkKind, kind_of};
use crate::common::bytes_per_line;
use crate::errors::{stops, PngDecodeError, PngDecodeErrorCode};

verus! {

/// CRC-32 (IEEE 802.3, reflected polynomial 0xEDB88320) of a byte sequence.
pub uninterp spec fn crc32_of(data: Seq<u8>) -> u32;

/// Relies on `crc32fast::hash`: the CRC-32 (IEEE) checksum of the bytes, as
/// PNG chunks carry it.
#[verifier::external_body]
pub(crate) fn crc32(data: &[u8]) -> (r: u32)
    ensures
        r == crc32_of(data@),
{
    crc32fast::hash(data)
}

/// The codes of a list of errors.
pub open spec fn codes_of(errs: Seq<PngDecodeError>) -> Seq<PngDecodeErrorCode> {
    errs.map_values(|e: PngDecodeError| e.code)
}

/// The codes that reporting `codes` in order records: all of them, or those
/// up to and including the first one that stops the decode.
pub open spec fn emitted(codes: Seq<PngDecodeErrorCode>, fail_fast: bool) -> Seq<PngDecodeErrorCode>
    decreases codes.len(),
{
    if codes.len() == 0 {
        codes
    } else if stops(codes[0], fail_fast) {
        seq![codes[0]]
    } else {
        seq![codes[0]] + emitted(codes.drop_first(), fail_fast)
    }
}

/// Whether reporting `codes` stops the decode.
pub open spec fn halts(codes: Seq<PngDecodeErrorCode>, fail_fast: bool) -> bool {
    exists|i: int| 0 <= i < codes.len() && stops(#[trigger] codes[i], fail_fast)
}

/// The one-element list `[code]` if `cond` holds, else the empty list.
pub open spec fn code_if(cond: bool, code: PngDecodeErrorCode) -> Seq<PngDecodeErrorCode> {
    if cond {
        seq![code]
    } else {
        Seq::empty()
    }
}

/// Width stored in an IHDR chunk.
pub open spec fn ihdr_width(chunk: Seq<u8>) -> u32 {
    be_u32(chunk.subrange(0, 4))
}

/// Height stored in an IHDR chunk.
pub open spec fn ihdr_height(chunk: Seq<u8>) -> u32 {
    be_u32(chunk.subrange(4, 8))
}

/// The errors an IHDR chunk raises, in the order they are detected.
pub open spec fn ihdr_codes(chunk: Seq<u8>, has_plte: bool) -> Seq<PngDecodeErrorCode> {
    if has_plte {
        seq![PngDecodeErrorCode::HeaderAfterPalette]
    } else if chunk.len() != 13 {
        seq![PngDecodeErrorCode::InvalidHeaderLength(chunk.len() as usize)]
    } else {
        match color_type_of_code(chunk[9]) {
            None => seq![PngDecodeErrorCode::UnsupportedColorType(chunk[9])],
            Some(ct) => if !is_supported_bit_depth(ct, chunk[8]) {
                seq![PngDecodeErrorCode::UnsupportedBitDepth(chunk[8])]
            } else if bytes_per_line(channels_of(ct) as int, chunk[8] as int, ihdr_width(chunk) as int) > usize::MAX {
                seq![PngDecodeErrorCode::ImageTooLarge]
            } else {
                code_if(chunk[10] != 0, PngDecodeErrorCode::UnsupportedCompressionMethod(chunk[10]))
                    + code_if(chunk[11] != 0, PngDecodeErrorCode::UnsupportedFilterMethod(chunk[11]))
                    + code_if(chunk[12] > 1, PngDecodeErrorCode::UnsupportedInterlaceMethod(chunk[12]))
            },
        }
    }
}

/// The errors a PLTE chunk raises, given the color type read so far.
pub open spec fn plte_codes(
    len: int,
    has_ihdr: bool,
    has_idat: bool,
    has_plte: bool,
    color_type: Option<ColorType>,
) -> Seq<PngDecodeErrorCode> {
    code_if(len % 3 != 0, PngDecodeErrorCode::InvalidPaletteLength(len as usize))
        + code_if(has_idat, PngDecodeErrorCode::PaletteOutOfOrder)
        + code_if(has_plte, PngDecodeErrorCode::DuplicatePalette)
        + code_if(!has_ihdr || color_type is None, PngDecodeErrorCode::PaletteOutOfOrder)
        + match color_type {
            Some(ct) => code_if(
                ct == ColorType::Greyscale || ct == ColorType::GreyscaleAlpha,
                PngDecodeErrorCode::PaletteForbidden(ct),
            ),
            None => Seq::empty(),
        }
}

/// The errors a tRNS chunk raises, given what IHDR said.
pub open spec fn trns_codes(
    len: int,
    color_type: Option<ColorType>,
    pixel_type: Option<PixelType>,
) -> Seq<PngDecodeErrorCode> {
    match color_type {
        None => seq![PngDecodeErrorCode::TransparencyBeforeHeader],
        Some(ct) => {
            let expected = crate::chunk_helpers::alpha_byte_length(ct);
            code_if(
                len != expected && expected != 0,
                PngDecodeErrorCode::InvalidTransparencyLength(ct, len as usize),
            ) + if pixel_type is None {
                seq![PngDecodeErrorCode::PixelTypeUnresolved]
            } else {
                code_if(
                    crate::chunk_helpers::has_alpha_channel(ct),
                    PngDecodeErrorCode::TransparencyForbidden,
                )
            }
        },
    }
}

/// The errors the IEND chunk raises.
pub open spec fn iend_codes(
    has_ihdr: bool,
    has_plte: bool,
    color_type: Option<ColorType>,
) -> Seq<PngDecodeErrorCode> {
    if !has_ihdr || color_type is None {
        seq![PngDecodeErrorCode::MissingHeader]
    } else {
        code_if(
            !has_plte && color_type == Some(ColorType::IndexedColor),
            PngDecodeErrorCode::MissingPalette(ColorType::IndexedColor),
        )
    }
}

/// Reporting codes none of which stops the decode records them all.
pub proof fn lemma_emitted_no_halt(codes: Seq<PngDecodeErrorCode>, fail_fast: bool)
    requires
        !halts(codes, fail_fast),
    ensures
        emitted(codes, fail_fast) == codes,
    decreases codes.len(),
{
    if codes.len() > 0 {
        assert(!stops(codes[0], fail_fast));
        let rest = codes.drop_first();
        assert forall|i: int| 0 <= i < rest.len() implies !stops(#[trigger] rest[i], fail_fast) by {
            assert(rest[i] == codes[i + 1]);
        }
        lemma_emitted_no_halt(rest, fail_fast);
        assert(seq![codes[0]] + rest =~= codes);
    }
}

/// None of the recorded errors stops the decode.
pub open spec fn all_continue(errs: Seq<PngDecodeError>, fail_fast: bool) -> bool {
    forall|i: int| 0 <= i < errs.len() ==> !stops(#[trigger] errs[i].code, fail_fast)
}

/// A single code that stops the decode halts it.
pub(crate) proof fn lemma_single_halts(codes: Seq<PngDecodeErrorCode>, fail_fast: bool)
    requires
        codes.len() >= 1,
        stops(codes[0], fail_fast),
    ensures
        halts(codes, fail_fast),
{
}

/// Recording codes none of which stops the decode keeps every error continuing.
pub(crate) proof fn lemma_continue_extend(
    old_errs: Seq<PngDecodeError>,
    new_errs: Seq<PngDecodeError>,
    extra: Seq<PngDecodeErrorCode>,
    fail_fast: bool,
)
    requires
        all_continue(old_errs, fail_fast),
        forall|i: int| 0 <= i < extra.len() ==> !stops(#[trigger] extra[i], fail_fast),
        codes_of(new_errs) == codes_of(old_errs) + extra,
    ensures
        all_continue(new_errs, fail_fast),
{
    assert(codes_of(new_errs).len() == new_errs.len());
    assert(codes_of(old_errs).len() == old_errs.len());
    assert forall|i: int| 0 <= i < new_errs.len() implies !stops(
        #[trigger] new_errs[i].code,
        fail_fast,
    ) by {
        assert(codes_of(new_errs)[i] == new_errs[i].code);
        if i < old_errs.len() {
            assert(codes_of(old_errs)[i] == old_errs[i].code);
        } else {
            assert(codes_of(new_errs)[i] == extra[i - old_errs.len()]);
        }
    }
}

/// Appending codes that were all recorded without a stop keeps every error continuing.
pub(crate) proof fn lemma_continue_after(
    old_errs: Seq<PngDecodeError>,
    new_errs: Seq<PngDecodeError>,
    codes: Seq<PngDecodeErrorCode>,
    fail_fast: bool,
)
    requires
        all_continue(old_errs, fail_fast),
        !halts(codes, fail_fast),
        codes_of(new_errs) == codes_of(old_errs) + emitted(codes, fail_fast),
    ensures
        all_continue(new_errs, fail_fast),
{
    lemma_emitted_no_halt(codes, fail_fast);
    lemma_continue_extend(old_errs, new_errs, codes, fail_fast);
}

/// What decides which errors the next chunk raises: whether IHDR, PLTE and
/// IDAT were seen, and the color and pixel types IHDR gave.
#[derive(Debug, Clone, Copy, PartialEq, Eq, Structural)]
pub struct ChunkOrderState {
    pub has_ihdr: bool,
    pub has_plte: bool,
    pub has_idat: bool,
    pub color_type: Option<ColorType>,
    pub pixel_type: Option<PixelType>,
}

/// The state before the first chunk.
pub open spec fn initial_order_state() -> ChunkOrderState {
    ChunkOrderState {
        has_ihdr: false,
        has_plte: false,
        has_idat: false,
        color_type: None,
        pixel_type: None,
    }
}

/// Data length of the chunk at `pos`.
pub open spec fn chunk_len_at(input: Seq<u8>, pos: int) -> int {
    be_u32(input.subrange(pos, pos + 4)) as int
}

/// Type of the chunk at `pos`.
pub open spec fn chunk_type_at(input: Seq<u8>, pos: int) -> Seq<u8> {
    input.subrange(pos + 4, pos + 8)
}

/// Data of the chunk at `pos`.
pub open spec fn chunk_data_at(input: Seq<u8>, pos: int) -> Seq<u8> {
    input.subrange(pos + 8, pos + 8 + chunk_len_at(input, pos))
}

/// Stored CRC of the chunk at `pos`.
pub open spec fn chunk_crc_at(input: Seq<u8>, pos: int) -> u32 {
    let end = pos + 8 + chunk_len_at(input, pos);
    be_u32(input.subrange(end, end + 4))
}

/// The error for a first chunk of type `t` that is not IHDR.
pub open spec fn first_chunk_code(t: Seq<u8>) -> PngDecodeErrorCode {
    PngDecodeErrorCode::FirstChunkNotHeader(be_u32(t))
}

/// The error for signature bytes `sig` that are not the PNG signature.
pub open spec fn signature_code(sig: Seq<u8>) -> PngDecodeErrorCode {
    PngDecodeErrorCode::InvalidSignature(be_u64(sig))
}

/// The errors a chunk of type `t` with data `data` raises before its CRC is read.
pub open spec fn chunk_codes(st: ChunkOrderState, t: Seq<u8>, data: Seq<u8>) -> Seq<PngDecodeErrorCode> {
    code_if(!st.has_ihdr && kind_of(t) != ChunkKind::Header, first_chunk_code(t)) + match kind_of(
        t,
    ) {
        ChunkKind::Header => ihdr_codes(data, st.has_plte),
        ChunkKind::Palette => plte_codes(
            data.len() as int,
            st.has_ihdr,
            st.has_idat,
            st.has_plte,
            st.color_type,
        ),
        ChunkKind::Transparency => trns_codes(data.len() as int, st.color_type, st.pixel_type),
        ChunkKind::End => iend_codes(st.has_ihdr, st.has_plte, st.color_type),
        _ => Seq::empty(),
    }
}

/// The state after a chunk that did not stop the decode.
pub open spec fn chunk_step(st: ChunkOrderState, t: Seq<u8>, data: Seq<u8>) -> ChunkOrderState {
    match kind_of(t) {
        ChunkKind::Header => ChunkOrderState {
            has_ihdr: true,
            color_type: color_type_of_code(data[9]),
            pixel_type: pixel_type_of(color_type_of_code(data[9])->Some_0, data[8]),
            ..st
        },
        ChunkKind::Palette => ChunkOrderState { has_plte: true, ..st },
        ChunkKind::ImageData => ChunkOrderState { has_idat: true, ..st },
        _ => st,
    }
}

/// The CRC error of the chunk at `pos`, if CRCs are checked and it does not match.
pub open spec fn crc_codes(input: Seq<u8>, pos: int, validate_crc: bool) -> Seq<PngDecodeErrorCode> {
    let covered = chunk_type_at(input, pos) + chunk_data_at(input, pos);
    code_if(
        validate_crc && crc32_of(covered) != chunk_crc_at(input, pos),
        PngDecodeErrorCode::CrcMismatch(crc32_of(covered), chunk_crc_at(input, pos)),
    )
}

/// The errors that reading the chunks from `pos` on records, and whether
/// the stream ends in an IEND chunk without an error that stops the decode.
pub open spec fn parse_outcome(
    input: Seq<u8>,
    pos: int,
    st: ChunkOrderState,
    fail_fast: bool,
    validate_crc: bool,
) -> (Seq<PngDecodeErrorCode>, bool)
    decreases input.len() - pos,
{
    if pos < 0 || pos + 8 > input.len() {
        (seq![PngDecodeErrorCode::UnexpectedEndOfData], false)
    } else {
        let len = chunk_len_at(input, pos);
        let t = chunk_type_at(input, pos);
        let data = chunk_data_at(input, pos);
        let pre = chunk_codes(st, t, data);
        if pos + 8 + len > input.len() {
            (seq![PngDecodeErrorCode::UnexpectedEndOfData], false)
        } else if halts(pre, fail_fast) {
            (emitted(pre, fail_fast), false)
        } else if pos + 12 + len > input.len() {
            (pre.push(PngDecodeErrorCode::UnexpectedEndOfData), false)
        } else {
            let crc = crc_codes(input, pos, validate_crc);
            if halts(crc, fail_fast) {
                (pre + crc, false)
            } else if kind_of(t) == ChunkKind::End {
                (pre + crc, true)
            } else {
                let rest = parse_outcome(
                    input,
                    pos + 12 + len,
                    chunk_step(st, t, data),
                    fail_fast,
                    validate_crc,
                );
                (pre + crc + rest.0, rest.1)
            }
        }
    }
}

/// The errors that reading a whole PNG stream records, and whether its
/// chunks end in IEND without an error that stops the decode.
pub open spec fn png_outcome(input: Seq<u8>, fail_fast: bool, validate_crc: bool) -> (
    Seq<PngDecodeErrorCode>,
    bool,
) {
    if input.len() < 8 {
        (seq![PngDecodeErrorCode::UnexpectedEndOfData], false)
    } else {
        let sig = input.subrange(0, 8);
        let sig_codes = code_if(!(sig =~= PNG_HEADER@), signature_code(sig));
        if halts(sig_codes, fail_fast) {
            (sig_codes, false)
        } else {
            let rest = parse_outcome(input, 8, initial_order_state(), fail_fast, validate_crc);
            (sig_codes + rest.0, rest.1)
        }
    }
}

/// Recording codes that do not stop the decode, then others, records both in turn.
pub proof fn lemma_emitted_concat(a: Seq<PngDecodeErrorCode>, b: Seq<PngDecodeErrorCode>, fail_fast: bool)
    ensures
        !halts(a, fail_fast) ==> emitted(a + b, fail_fast) == a + emitted(b, fail_fast),
        halts(a, fail_fast) ==> emitted(a + b, fail_fast) == emitted(a, fail_fast),
        halts(a + b, fail_fast) == (halts(a, fail_fast) || halts(b, fail_fast)),
    decreases a.len(),
{
    if a.len() == 0 {
        assert(a + b =~= b);
        assert(a =~= Seq::<PngDecodeErrorCode>::empty());
    } else {
        let rest = a.drop_first();
        lemma_emitted_concat(rest, b, fail_fast);
        assert((a + b).drop_first() =~= rest + b);
        assert((a + b)[0] == a[0]);
        if halts(a, fail_fast) && !stops(a[0], fail_fast) {
            let i = choose|i: int| 0 <= i < a.len() && stops(#[trigger] a[i], fail_fast);
            assert(rest[i - 1] == a[i]);
        }
        if halts(rest, fail_fast) {
            let i = choose|i: int| 0 <= i < rest.len() && stops(#[trigger] rest[i], fail_fast);
            assert(a[i + 1] == rest[i]);
        }
        if halts(a + b, fail_fast) {
            let i = choose|i: int| 0 <= i < (a + b).len() && stops(#[trigger] (a + b)[i], fail_fast);
            if i >= a.len() {
                assert(b[i - a.len()] == (a + b)[i]);
            } else {
                assert(a[i] == (a + b)[i]);
            }
        }
        if halts(b, fail_fast) {
            let i = choose|i: int| 0 <= i < b.len() && stops(#[trigger] b[i], fail_fast);
            assert((a + b)[i + a.len()] == b[i]);
        }
        if !stops(a[0], fail_fast) {
            assert(seq![a[0]] + (rest + b) =~= (seq![a[0]] + rest) + b);
            assert(seq![a[0]] + rest =~= a);
        }
        if stops(a[0], fail_fast) {
            assert(halts(a, fail_fast));
        }
    }
}

/// What the chunks read so far say about the image, as plain values.
pub struct ParsedImage {
    pub order: ChunkOrderState,
    /// Width, height, bit depth and whether Adam7 is used, from the last IHDR.
    pub header: Option<(u32, u32, u8, bool)>,
    /// Data of the last PLTE chunk.
    pub palette: Option<Seq<u8>>,
    /// Data of the last tRNS chunk that applies, with the pixel type it was read for.
    pub transparency: Option<(Seq<u8>, PixelType)>,
    /// The IDAT payloads, in order.
    pub stream: Seq<u8>,
}

/// Nothing read yet.
pub open spec fn initial_parsed_image() -> ParsedImage {
    ParsedImage {
        order: initial_order_state(),
        header: None,
        palette: None,
        transparency: None,
        stream: Seq::empty(),
    }
}

/// What a chunk of type `t` with data `data` that did not stop the decode adds.
pub open spec fn image_step(v: ParsedImage, t: Seq<u8>, data: Seq<u8>) -> ParsedImage {
    let order = chunk_step(v.order, t, data);
    match kind_of(t) {
        ChunkKind::Header => ParsedImage {
            order,
            header: Some((ihdr_width(data), ihdr_height(data), data[8], data[12] == 1)),
            ..v
        },
        ChunkKind::Palette => ParsedImage { order, palette: Some(data), ..v },
        ChunkKind::ImageData => ParsedImage { order, stream: v.stream + data, ..v },
        ChunkKind::Transparency => match (v.order.color_type, v.order.pixel_type) {
            (Some(ct), Some(pt)) => if !crate::chunk_helpers::has_alpha_channel(ct) {
                ParsedImage { order, transparency: Some((data, pt)), ..v }
            } else {
                ParsedImage { order, ..v }
            },
            _ => ParsedImage { order, ..v },
        },
        _ => ParsedImage { order, ..v },
    }
}

/// A zero-length IDAT chunk adds no image data: after it, only the record
/// that image data was seen differs.
pub proof fn lemma_empty_image_data_chunk(v: ParsedImage)
    ensures
        image_step(v, crate::chunk_types::IDAT@, Seq::<u8>::empty()) == (ParsedImage {
            order: ChunkOrderState { has_idat: true, ..v.order },
            ..v
        }),
{
    let t = crate::chunk_types::IDAT@;
    assert(t[1] != crate::chunk_types::IHDR@[1]);
    assert(t[0] != crate::chunk_types::PLTE@[0]);
    assert(!(t =~= crate::chunk_types::IHDR@));
    assert(!(t =~= crate::chunk_types::PLTE@));
    assert(kind_of(t) == ChunkKind::ImageData);
    assert(v.stream + Seq::<u8>::empty() =~= v.stream);
}

/// What the chunks from `pos` up to IEND add to `v`.
pub open spec fn parse_final(
    input: Seq<u8>,
    pos: int,
    v: ParsedImage,
    fail_fast: bool,
    validate_crc: bool,
) -> ParsedImage
    decreases input.len() - pos,
{
    if pos < 0 || pos + 8 > input.len() {
        v
    } else {
        let len = chunk_len_at(input, pos);
        let t = chunk_type_at(input, pos);
        let data = chunk_data_at(input, pos);
        if pos + 12 + len > input.len() || halts(chunk_codes(v.order, t, data), fail_fast)
            || halts(crc_codes(input, pos, validate_crc), fail_fast) {
            v
        } else if kind_of(t) == ChunkKind::End {
            image_step(v, t, data)
        } else {
            parse_final(input, pos + 12 + len, image_step(v, t, data), fail_fast, validate_crc)
        }
    }
}

/// What a whole PNG stream says about its image.
pub open spec fn png_image(input: Seq<u8>, fail_fast: bool, validate_crc: bool) -> ParsedImage {
    parse_final(input, 8, initial_parsed_image(), fail_fast, validate_crc)
}

} // verus!
