//! The decoder: the chunk state machine, then reconstruction and conversion
//! of the image data to RGBA8.
use vstd::prelude::*;

use crate::bitmap::{pixel_bit_depth, pixel_channels, pixel_type_of, to_rgba_pixel_bytes, PixelType};
use crate::byte_reader::ByteReader;
use crate::chunk_helpers::{
    channels_of,
    color_type_of_code,
    ColorType,
    CompressionMethod,
    FilterMethod,
    InterlaceMethod,
    PNG_HEADER,
};
use crate::chunk_stream::{
    all_continue,
    chunk_codes,
    chunk_crc_at,
    chunk_data_at,
    chunk_len_at,
    chunk_step,
    chunk_type_at,
    code_if,
    codes_of,
    crc32,
    crc32_of,
    crc_codes,
    emitted,
    first_chunk_code,
    halts,
    iend_codes,
    ihdr_codes,
    ihdr_height,
    ihdr_width,
    image_step,
    initial_order_state,
    initial_parsed_image,
    lemma_continue_after,
    lemma_continue_extend,
    lemma_emitted_concat,
    lemma_emitted_no_halt,
    lemma_single_halts,
    parse_final,
    parse_outcome,
    plte_codes,
    png_image,
    png_outcome,
    signature_code,
    trns_codes,
    ChunkOrderState,
    ParsedImage,
};
use crate::chunk_types::{kind_of, ChunkKind, ChunkTypes};
use crate::common::{bytes_per_line, bytes_per_pixel};
use crate::deinterlace::{
    create_reduced_images,
    interlaced_bands,
    pass_bpl,
    pass_in_len,
    pass_in_offset,
    pass_is_empty,
    pass_out_offset,
    reduced_height,
    reduced_width,
};
use crate::errors::{
    is_recoverable,
    stops,
    ForceExitReason,
    MultiErrorsManager,
    PngDecodeError,
    PngDecodeErrorCode,
};
use crate::image::{
    filtered_len,
    image_filters_known,
    pixel_matches,
    rgba_image_matches,
    source_line,
    source_pixel,
    unfiltered_image,
    unfiltered_len,
};
use crate::trns::{trns_read, TransparencyChunk};
use crate::unfilter::{filters_known, UnfilterProcessor};
use crate::zlib::{zlib_inflated, ZlibDecompressStream};

verus! {

/// What the caller chooses for one decode.
#[derive(Debug, Clone, Copy, PartialEq, Eq, Structural)]
pub struct PngDecoderOptions {
    /// Stop at the first error, recoverable or not.
    pub fail_fast: bool,
    /// Check the CRC of every chunk.
    pub validate_crc: bool,
}

impl PngDecoderOptions {
    pub fn new(fail_fast: bool, validate_crc: bool) -> (r: Self)
        ensures
            r.fail_fast == fail_fast,
            r.validate_crc == validate_crc,
    {
        PngDecoderOptions { fail_fast, validate_crc }
    }
}

/// A finished decode: the RGBA8 pixels, and the recoverable errors met on the way.
#[derive(Debug)]
pub struct PngDecoderResult {
    pub bytes: Vec<u8>,
    pub errors: Vec<PngDecodeError>,
}

/// Decodes one PNG byte stream.
pub struct PngDecoder {
    width: Option<u32>,
    height: Option<u32>,
    bit_depth: Option<u8>,
    color_type: Option<ColorType>,
    interlace_method: Option<InterlaceMethod>,
    filter_method: Option<FilterMethod>,
    compression_method: Option<CompressionMethod>,
    palette: Option<Vec<u8>>,
    has_ihdr: bool,
    has_idat: bool,
    has_plte: bool,
    transparency_chunk: Option<TransparencyChunk>,
    pixel_type: Option<PixelType>,
    byte_reader: ByteReader,
    zlib_decompress_stream: ZlibDecompressStream,
    decoder_options: PngDecoderOptions,
    multi_errors_manager: MultiErrorsManager,
    bytes_per_pixel: usize,
    bytes_per_line: usize,
}

impl PngDecoder {
    pub closed spec fn errors_view(&self) -> Seq<PngDecodeError> {
        self.multi_errors_manager.errors_view()
    }

    pub closed spec fn options_view(&self) -> PngDecoderOptions {
        self.decoder_options
    }

    pub closed spec fn input_view(&self) -> Seq<u8> {
        self.byte_reader.data()
    }

    pub closed spec fn pos_view(&self) -> int {
        self.byte_reader.pos()
    }

    pub closed spec fn width_view(&self) -> Option<u32> {
        self.width
    }

    pub closed spec fn height_view(&self) -> Option<u32> {
        self.height
    }

    pub closed spec fn bit_depth_view(&self) -> Option<u8> {
        self.bit_depth
    }

    pub closed spec fn color_type_view(&self) -> Option<ColorType> {
        self.color_type
    }

    pub closed spec fn interlace_view(&self) -> Option<InterlaceMethod> {
        self.interlace_method
    }

    pub closed spec fn pixel_type_view(&self) -> Option<PixelType> {
        self.pixel_type
    }

    pub closed spec fn palette_view(&self) -> Option<Vec<u8>> {
        self.palette
    }

    pub closed spec fn transparency_view(&self) -> Option<TransparencyChunk> {
        self.transparency_chunk
    }

    pub closed spec fn flags_view(&self) -> (bool, bool, bool) {
        (self.has_ihdr, self.has_plte, self.has_idat)
    }

    /// The compressed image data collected from the IDAT chunks so far.
    pub closed spec fn stream_view(&self) -> Seq<u8> {
        self.zlib_decompress_stream.data()
    }

    /// Once IHDR is read, its fields are all present and consistent.
    pub closed spec fn header_ok(&self) -> bool {
        &&& self.has_ihdr ==> {
            &&& self.width is Some
            &&& self.height is Some
            &&& self.bit_depth is Some
            &&& self.color_type is Some
            &&& self.interlace_method is Some
            &&& self.pixel_type == pixel_type_of(self.color_type->Some_0, self.bit_depth->Some_0)
            &&& self.pixel_type is Some
            &&& self.bytes_per_line == bytes_per_line(
                channels_of(self.color_type->Some_0) as int,
                self.bit_depth->Some_0 as int,
                self.width->Some_0 as int,
            )
            &&& self.bytes_per_pixel == bytes_per_pixel(
                channels_of(self.color_type->Some_0) as int,
                self.bit_depth->Some_0 as int,
            )
        }
        &&& self.color_type is Some ==> self.has_ihdr
        &&& self.has_plte ==> self.palette is Some
    }

    pub closed spec fn wf(&self) -> bool {
        &&& self.byte_reader.wf()
        &&& self.multi_errors_manager.fail_fast_view() == self.decoder_options.fail_fast
        &&& self.header_ok()
    }

    /// A decoder for the bytes of `byte_reader`, which has not been read from.
    pub fn new(byte_reader: ByteReader, decoder_options: PngDecoderOptions) -> (r: Self)
        requires
            byte_reader.wf(),
        ensures
            r.wf(),
            r.input_view() == byte_reader.data(),
            r.pos_view() == byte_reader.pos(),
            r.options_view() == decoder_options,
            r.errors_view() == Seq::<PngDecodeError>::empty(),
            r.flags_view() == (false, false, false),
            r.color_type_view() is None,
            r.pixel_type_view() is None,
            r.order_state() == initial_order_state(),
            r.holds(initial_parsed_image()),
            r.stream_view() == Seq::<u8>::empty(),
    {
        PngDecoder {
            width: None,
            height: None,
            bit_depth: None,
            color_type: None,
            interlace_method: None,
            filter_method: None,
            compression_method: None,
            palette: None,
            has_ihdr: false,
            has_idat: false,
            has_plte: false,
            transparency_chunk: None,
            pixel_type: None,
            byte_reader,
            zlib_decompress_stream: ZlibDecompressStream::new(),
            decoder_options,
            multi_errors_manager: MultiErrorsManager::new(decoder_options.fail_fast),
            bytes_per_pixel: 0,
            bytes_per_line: 0,
        }
    }

    /// Records an error at the current input position.
    fn create_error(&mut self, code: PngDecodeErrorCode) -> (r: Result<(), ForceExitReason>)
        requires
            old(self).wf(),
        ensures
            final(self).wf(),
            final(self).errors_view() == old(self).errors_view().push(
                PngDecodeError {
                    is_recoverable: is_recoverable(code),
                    code,
                    approx_byte_location: old(self).pos_view() as usize,
                },
            ),
            r is Err <==> stops(code, old(self).options_view().fail_fast),
            *final(self) == (PngDecoder { multi_errors_manager: final(self).multi_errors_manager, ..*old(self) }),
    {
        let err = PngDecodeError::new(code, self.byte_reader.get_current_byte_pos());
        self.multi_errors_manager.handle_err(err)
    }

    /// Records the errors in order, stopping at the first that stops the decode.
    #[verifier::spinoff_prover]
    fn report_all(&mut self, codes: &Vec<PngDecodeErrorCode>) -> (r: Result<(), ForceExitReason>)
        requires
            old(self).wf(),
        ensures
            final(self).wf(),
            codes_of(final(self).errors_view()) == codes_of(old(self).errors_view()) + emitted(
                codes@,
                old(self).options_view().fail_fast,
            ),
            r is Err <==> halts(codes@, old(self).options_view().fail_fast),
            *final(self) == (PngDecoder { multi_errors_manager: final(self).multi_errors_manager, ..*old(self) }),
    {
        let ghost ff = self.decoder_options.fail_fast;
        let ghost start = codes_of(self.errors_view());
        let ghost s0 = *self;
        let mut i: usize = 0;
        assert(codes@.skip(0) =~= codes@);
        while i < codes.len()
            invariant
                i <= codes@.len(),
                self.wf(),
                s0 == *old(self),
                start == codes_of(old(self).errors_view()),
                ff == self.decoder_options.fail_fast,
                *self == (PngDecoder { multi_errors_manager: self.multi_errors_manager, ..s0 }),
                start + emitted(codes@, ff) == codes_of(self.errors_view()) + emitted(
                    codes@.skip(i as int),
                    ff,
                ),
                forall|j: int| 0 <= j < i ==> !stops(#[trigger] codes@[j], ff),
            decreases codes@.len() - i,
        {
            let ghost before = codes_of(self.errors_view());
            let ghost rest = codes@.skip(i as int);
            assert(rest[0] == codes@[i as int]);
            assert(rest.drop_first() =~= codes@.skip(i + 1));
            let r = self.create_error(codes[i]);
            assert(codes_of(self.errors_view()) =~= before.push(codes@[i as int]));
            if r.is_err() {
                assert(emitted(rest, ff) =~= seq![codes@[i as int]]);
                assert(start + emitted(codes@, ff) =~= codes_of(self.errors_view()));
                return r;
            }
            assert(emitted(rest, ff) =~= seq![codes@[i as int]] + emitted(codes@.skip(i + 1), ff));
            i = i + 1;
        }
        assert(codes@.skip(i as int) =~= Seq::<PngDecodeErrorCode>::empty());
        assert(start + emitted(codes@, ff) =~= codes_of(self.errors_view()));
        Ok(())
    }

    /// The errors the IHDR chunk `chunk` raises, in detection order.
    fn validate_ihdr_chunk(&self, chunk: &[u8]) -> (r: Vec<PngDecodeErrorCode>)
        ensures
            r@ == ihdr_codes(chunk@, self.has_plte),
    {
        let mut codes: Vec<PngDecodeErrorCode> = Vec::new();
        if self.has_plte {
            codes.push(PngDecodeErrorCode::HeaderAfterPalette);
            assert(codes@ =~= ihdr_codes(chunk@, self.has_plte));
            return codes;
        }
        let ihdr_chunk_data_length = chunk.len();
        if ihdr_chunk_data_length != 13 {
            codes.push(PngDecodeErrorCode::InvalidHeaderLength(ihdr_chunk_data_length));
            assert(codes@ =~= ihdr_codes(chunk@, self.has_plte));
            return codes;
        }
        let color_type = match ColorType::try_from_code(chunk[9]) {
            Ok(ct) => ct,
            Err(e) => {
                codes.push(e);
                assert(codes@ =~= ihdr_codes(chunk@, self.has_plte));
                return codes;
            },
        };
        let bit_depth = chunk[8];
        let supported_bit_depths = crate::chunk_helpers::get_supported_color_type_to_bit_depths(
            color_type,
        );
        proof {
            crate::chunk_helpers::lemma_supported_bit_depths(color_type, bit_depth);
        }
        if !crate::chunk_helpers::contains_bit_depth(&supported_bit_depths, bit_depth) {
            codes.push(PngDecodeErrorCode::UnsupportedBitDepth(bit_depth));
            assert(codes@ =~= ihdr_codes(chunk@, self.has_plte));
            return codes;
        }
        let width = self.byte_reader.read_next_u32_num(vstd::slice::slice_subrange(chunk, 0, 4));
        let channel = crate::chunk_helpers::colortype_to_channel(color_type);
        let w = width as u64;
        let d = bit_depth as u64;
        let c = channel as u64;
        assert(w * d * c <= 0xffff_ffff * 16 * 4) by (nonlinear_arith)
            requires
                w <= 0xffff_ffff,
                d <= 16,
                c <= 4,
        ;
        if (w * d * c + 7) / 8 > usize::MAX as u64 {
            codes.push(PngDecodeErrorCode::ImageTooLarge);
            assert(codes@ =~= ihdr_codes(chunk@, self.has_plte));
            return codes;
        }
        if chunk[10] != 0 {
            codes.push(PngDecodeErrorCode::UnsupportedCompressionMethod(chunk[10]));
        }
        if chunk[11] != 0 {
            codes.push(PngDecodeErrorCode::UnsupportedFilterMethod(chunk[11]));
        }
        if chunk[12] > 1 {
            codes.push(PngDecodeErrorCode::UnsupportedInterlaceMethod(chunk[12]));
        }
        assert(codes@ =~= ihdr_codes(chunk@, self.has_plte));
        codes
    }

    /// Reads the IHDR chunk. Unsupported compression, filter or interlace
    /// methods are recoverable: deflate, adaptive filtering and no
    /// interlacing stand in for them.
    #[verifier::spinoff_prover]
    fn decode_ihdr_chunk(&mut self, chunk: &[u8]) -> (r: Result<(), ForceExitReason>)
        requires
            old(self).wf(),
        ensures
            final(self).wf(),
            codes_of(final(self).errors_view()) == codes_of(old(self).errors_view()) + emitted(
                ihdr_codes(chunk@, old(self).flags_view().1),
                old(self).options_view().fail_fast,
            ),
            r is Err <==> halts(
                ihdr_codes(chunk@, old(self).flags_view().1),
                old(self).options_view().fail_fast,
            ),
            final(self).input_view() == old(self).input_view(),
            final(self).pos_view() == old(self).pos_view(),
            final(self).options_view() == old(self).options_view(),
            final(self).stream_view() == old(self).stream_view(),
            final(self).palette_view() == old(self).palette_view(),
            final(self).transparency_view() == old(self).transparency_view(),
            final(self).flags_view().1 == old(self).flags_view().1,
            final(self).flags_view().2 == old(self).flags_view().2,
            r is Ok ==> {
                &&& final(self).flags_view().0
                &&& final(self).width_view() == Some(ihdr_width(chunk@))
                &&& final(self).height_view() == Some(ihdr_height(chunk@))
                &&& final(self).bit_depth_view() == Some(chunk@[8])
                &&& final(self).color_type_view() == color_type_of_code(chunk@[9])
                &&& final(self).interlace_view() == Some(
                    if chunk@[12] == 1 {
                        InterlaceMethod::Adam7
                    } else {
                        InterlaceMethod::NoInterlace
                    },
                )
            },
    {
        let ghost ff = self.decoder_options.fail_fast;
        let codes = self.validate_ihdr_chunk(chunk);
        let reported = self.report_all(&codes);
        if reported.is_err() {
            return reported;
        }
        proof {
            let cs = ihdr_codes(chunk@, self.has_plte);
            if cs.len() == 1 && stops(cs[0], ff) {
                assert(halts(cs, ff));
            }
        }
        let color_type = match ColorType::try_from_code(chunk[9]) {
            Ok(ct) => ct,
            Err(_) => ColorType::Greyscale,
        };
        let bit_depth = chunk[8];
        let width = self.byte_reader.read_next_u32_num(vstd::slice::slice_subrange(chunk, 0, 4));
        let height = self.byte_reader.read_next_u32_num(vstd::slice::slice_subrange(chunk, 4, 8));
        let compression_method = match CompressionMethod::try_from_code(chunk[10]) {
            Some(m) => m,
            None => CompressionMethod::Deflate,
        };
        let filter_method = match FilterMethod::try_from_code(chunk[11]) {
            Some(m) => m,
            None => FilterMethod::Adaptive,
        };
        let interlace_method = match InterlaceMethod::try_from_code(chunk[12]) {
            Ok(m) => m,
            Err(_) => InterlaceMethod::NoInterlace,
        };
        proof {
            crate::bitmap::lemma_pixel_type_of(color_type, bit_depth);
        }
        let pixel_type = match PixelType::new(color_type, bit_depth) {
            Ok(pt) => pt,
            Err(_) => PixelType::Grayscale8,
        };
        let (bytes_per_pixel, bytes_per_line) = crate::common::calc_bytes_per_pixel_and_line(
            crate::chunk_helpers::colortype_to_channel(color_type),
            bit_depth,
            width,
        );
        self.has_ihdr = true;
        self.width = Some(width);
        self.height = Some(height);
        self.bit_depth = Some(bit_depth);
        self.color_type = Some(color_type);
        self.compression_method = Some(compression_method);
        self.filter_method = Some(filter_method);
        self.interlace_method = Some(interlace_method);
        self.bytes_per_line = bytes_per_line;
        self.bytes_per_pixel = bytes_per_pixel;
        self.pixel_type = Some(pixel_type);
        Ok(())
    }

    /// The errors a PLTE chunk of `chunk_length` bytes raises now.
    fn validate_plte_chunk(&self, chunk_length: usize) -> (r: Vec<PngDecodeErrorCode>)
        ensures
            r@ == plte_codes(
                chunk_length as int,
                self.has_ihdr,
                self.has_idat,
                self.has_plte,
                self.color_type,
            ),
    {
        let mut codes: Vec<PngDecodeErrorCode> = Vec::new();
        if chunk_length % 3 != 0 {
            codes.push(PngDecodeErrorCode::InvalidPaletteLength(chunk_length));
        }
        if self.has_idat {
            codes.push(PngDecodeErrorCode::PaletteOutOfOrder);
        }
        if self.has_plte {
            codes.push(PngDecodeErrorCode::DuplicatePalette);
        }
        if !self.has_ihdr || self.color_type.is_none() {
            codes.push(PngDecodeErrorCode::PaletteOutOfOrder);
        }
        match self.color_type {
            Some(ct) => {
                if ct == ColorType::Greyscale || ct == ColorType::GreyscaleAlpha {
                    codes.push(PngDecodeErrorCode::PaletteForbidden(ct));
                }
            },
            None => {},
        }
        assert(codes@ =~= plte_codes(
            chunk_length as int,
            self.has_ihdr,
            self.has_idat,
            self.has_plte,
            self.color_type,
        ));
        codes
    }

    /// Reads a PLTE chunk: the palette is kept as it stands.
    fn decode_plte_chunk(&mut self, chunk: Vec<u8>) -> (r: Result<(), ForceExitReason>)
        requires
            old(self).wf(),
        ensures
            final(self).wf(),
            codes_of(final(self).errors_view()) == codes_of(old(self).errors_view()) + emitted(
                plte_codes(
                    chunk@.len() as int,
                    old(self).flags_view().0,
                    old(self).flags_view().2,
                    old(self).flags_view().1,
                    old(self).color_type_view(),
                ),
                old(self).options_view().fail_fast,
            ),
            r is Err <==> halts(
                plte_codes(
                    chunk@.len() as int,
                    old(self).flags_view().0,
                    old(self).flags_view().2,
                    old(self).flags_view().1,
                    old(self).color_type_view(),
                ),
                old(self).options_view().fail_fast,
            ),
            final(self).input_view() == old(self).input_view(),
            final(self).pos_view() == old(self).pos_view(),
            final(self).options_view() == old(self).options_view(),
            final(self).stream_view() == old(self).stream_view(),
            final(self).color_type_view() == old(self).color_type_view(),
            final(self).pixel_type_view() == old(self).pixel_type_view(),
            final(self).transparency_view() == old(self).transparency_view(),
            r is Ok ==> final(self).flags_view() == (
                old(self).flags_view().0,
                true,
                old(self).flags_view().2,
            ) && final(self).palette_view() is Some && final(self).palette_view()->Some_0@
                == chunk@,
            r is Ok ==> *final(self) == (PngDecoder {
                has_plte: true,
                palette: final(self).palette,
                multi_errors_manager: final(self).multi_errors_manager,
                ..*old(self)
            }),
    {
        let codes = self.validate_plte_chunk(chunk.len());
        let reported = self.report_all(&codes);
        if reported.is_err() {
            return reported;
        }
        self.has_plte = true;
        self.palette = Some(chunk);
        Ok(())
    }

    /// Reads an IDAT chunk: its payload continues the compressed stream.
    fn decode_idat_chunk(&mut self, chunk: &[u8])
        requires
            old(self).wf(),
        ensures
            final(self).wf(),
            *final(self) == (PngDecoder {
                has_idat: true,
                zlib_decompress_stream: final(self).zlib_decompress_stream,
                ..*old(self)
            }),
            final(self).stream_view() == old(self).stream_view() + chunk@,
    {
        if chunk.len() == 0 {
            self.has_idat = true;
            assert(self.zlib_decompress_stream.data() =~= old(self).stream_view() + chunk@);
            return ;
        }
        self.zlib_decompress_stream.decompress(chunk);
        self.has_idat = true;
    }

    /// The errors a tRNS chunk of `chunk_length` bytes raises now.
    #[allow(non_snake_case)]
    fn validate_tRNS_chunk(&self, chunk_length: usize) -> (r: Vec<PngDecodeErrorCode>)
        ensures
            r@ == trns_codes(chunk_length as int, self.color_type, self.pixel_type),
    {
        let mut codes: Vec<PngDecodeErrorCode> = Vec::new();
        let color_type = match self.color_type {
            Some(ct) => ct,
            None => {
                codes.push(PngDecodeErrorCode::TransparencyBeforeHeader);
                assert(codes@ =~= trns_codes(chunk_length as int, self.color_type, self.pixel_type));
                return codes;
            },
        };
        let expected = crate::chunk_helpers::colortype_to_alpha_byte_length(color_type);
        if chunk_length != expected as usize && expected != 0 {
            codes.push(PngDecodeErrorCode::InvalidTransparencyLength(color_type, chunk_length));
        }
        if self.pixel_type.is_none() {
            codes.push(PngDecodeErrorCode::PixelTypeUnresolved);
        } else if crate::chunk_helpers::does_colortype_support_alpha_channel(color_type) {
            codes.push(PngDecodeErrorCode::TransparencyForbidden);
        }
        assert(codes@ =~= trns_codes(chunk_length as int, self.color_type, self.pixel_type));
        codes
    }

    /// Reads a tRNS chunk. A chunk too short for the color type leaves the
    /// image without transparency.
    #[allow(non_snake_case)]
    fn decode_tRNS_chunk(&mut self, chunk: Vec<u8>) -> (r: Result<(), ForceExitReason>)
        requires
            old(self).wf(),
        ensures
            final(self).wf(),
            codes_of(final(self).errors_view()) == codes_of(old(self).errors_view()) + emitted(
                trns_codes(
                    chunk@.len() as int,
                    old(self).color_type_view(),
                    old(self).pixel_type_view(),
                ),
                old(self).options_view().fail_fast,
            ),
            r is Err <==> halts(
                trns_codes(
                    chunk@.len() as int,
                    old(self).color_type_view(),
                    old(self).pixel_type_view(),
                ),
                old(self).options_view().fail_fast,
            ),
            final(self).input_view() == old(self).input_view(),
            final(self).pos_view() == old(self).pos_view(),
            final(self).options_view() == old(self).options_view(),
            final(self).stream_view() == old(self).stream_view(),
            final(self).color_type_view() == old(self).color_type_view(),
            final(self).pixel_type_view() == old(self).pixel_type_view(),
            final(self).palette_view() == old(self).palette_view(),
            final(self).flags_view() == old(self).flags_view(),
            r is Ok ==> *final(self) == (PngDecoder {
                transparency_chunk: final(self).transparency_chunk,
                multi_errors_manager: final(self).multi_errors_manager,
                ..*old(self)
            }),
            r is Ok ==> match (old(self).color_type, old(self).pixel_type) {
                (Some(ct), Some(pt)) => if !crate::chunk_helpers::has_alpha_channel(ct) {
                    trns_read(final(self).transparency_chunk, chunk@, pt)
                } else {
                    final(self).transparency_chunk == old(self).transparency_chunk
                },
                _ => final(self).transparency_chunk == old(self).transparency_chunk,
            },
    {
        let ghost data = chunk@;
        let codes = self.validate_tRNS_chunk(chunk.len());
        let reported = self.report_all(&codes);
        if reported.is_err() {
            return reported;
        }
        match (self.color_type, self.pixel_type) {
            (Some(ct), Some(pt)) => {
                if !crate::chunk_helpers::does_colortype_support_alpha_channel(ct) {
                    self.transparency_chunk = match TransparencyChunk::new(chunk, pt) {
                        Ok(t) => t,
                        Err(_) => None,
                    };
                }
            },
            _ => {},
        }
        Ok(())
    }

    /// Checks at IEND that the image header and, for indexed color, the palette were seen.
    fn finalize_at_iend_chunk(&mut self) -> (r: Result<(), ForceExitReason>)
        requires
            old(self).wf(),
        ensures
            final(self).wf(),
            codes_of(final(self).errors_view()) == codes_of(old(self).errors_view()) + emitted(
                iend_codes(
                    old(self).flags_view().0,
                    old(self).flags_view().1,
                    old(self).color_type_view(),
                ),
                old(self).options_view().fail_fast,
            ),
            r is Err <==> halts(
                iend_codes(
                    old(self).flags_view().0,
                    old(self).flags_view().1,
                    old(self).color_type_view(),
                ),
                old(self).options_view().fail_fast,
            ),
            *final(self) == (PngDecoder {
                multi_errors_manager: final(self).multi_errors_manager,
                ..*old(self)
            }),
    {
        let mut codes: Vec<PngDecodeErrorCode> = Vec::new();
        if !self.has_ihdr || self.color_type.is_none() {
            codes.push(PngDecodeErrorCode::MissingHeader);
        } else if !self.has_plte && self.color_type == Some(ColorType::IndexedColor) {
            codes.push(PngDecodeErrorCode::MissingPalette(ColorType::IndexedColor));
        }
        assert(codes@ =~= iend_codes(self.has_ihdr, self.has_plte, self.color_type));
        self.report_all(&codes)
    }

    /// Compares a chunk's stored CRC with the CRC of its type and data.
    fn validate_crc(&mut self, actual_chunk_crc: u32, chunk_type_and_chunk_data: &[u8]) -> (r:
        Result<(), ForceExitReason>)
        requires
            old(self).wf(),
        ensures
            final(self).wf(),
            codes_of(final(self).errors_view()) == codes_of(old(self).errors_view()) + code_if(
                crc32_of(chunk_type_and_chunk_data@) != actual_chunk_crc,
                PngDecodeErrorCode::CrcMismatch(crc32_of(chunk_type_and_chunk_data@), actual_chunk_crc),
            ),
            r is Err <==> crc32_of(chunk_type_and_chunk_data@) != actual_chunk_crc
                && old(self).options_view().fail_fast,
            *final(self) == (PngDecoder {
                multi_errors_manager: final(self).multi_errors_manager,
                ..*old(self)
            }),
    {
        let expected_chunk_crc = crc32(chunk_type_and_chunk_data);
        if actual_chunk_crc != expected_chunk_crc {
            let r = self.create_error(
                PngDecodeErrorCode::CrcMismatch(expected_chunk_crc, actual_chunk_crc),
            );
            assert(codes_of(self.errors_view()) =~= codes_of(old(self).errors_view()) + code_if(
                crc32_of(chunk_type_and_chunk_data@) != actual_chunk_crc,
                PngDecodeErrorCode::CrcMismatch(crc32_of(chunk_type_and_chunk_data@), actual_chunk_crc),
            ));
            return r;
        }
        assert(codes_of(self.errors_view()) =~= codes_of(old(self).errors_view()) + code_if(
            crc32_of(chunk_type_and_chunk_data@) != actual_chunk_crc,
            PngDecodeErrorCode::CrcMismatch(crc32_of(chunk_type_and_chunk_data@), actual_chunk_crc),
        ));
        Ok(())
    }

    /// Whether the chunk stream has been read up to a well-formed IEND.
    pub closed spec fn parsed(&self) -> bool {
        &&& self.has_ihdr
        &&& self.color_type is Some
        &&& self.color_type == Some(ColorType::IndexedColor) ==> self.has_plte
    }

    /// The decoder holds what `v` says about the image.
    pub closed spec fn holds(&self, v: ParsedImage) -> bool {
        &&& self.order_state() == v.order
        &&& match v.header {
            Some((w, h, d, adam7)) => self.width == Some(w) && self.height == Some(h)
                && self.bit_depth == Some(d) && self.interlace_method == Some(
                if adam7 {
                    InterlaceMethod::Adam7
                } else {
                    InterlaceMethod::NoInterlace
                },
            ),
            None => self.width is None && self.height is None && self.bit_depth is None
                && self.interlace_method is None,
        }
        &&& match v.palette {
            Some(p) => self.palette is Some && self.palette->Some_0@ == p,
            None => self.palette is None,
        }
        &&& match v.transparency {
            Some((chunk, pt)) => trns_read(self.transparency_chunk, chunk, pt),
            None => self.transparency_chunk is None,
        }
        &&& self.stream_view() == v.stream
    }

    /// The part of the decoder state that decides which errors the next chunk raises.
    pub closed spec fn order_state(&self) -> ChunkOrderState {
        ChunkOrderState {
            has_ihdr: self.has_ihdr,
            has_plte: self.has_plte,
            has_idat: self.has_idat,
            color_type: self.color_type,
            pixel_type: self.pixel_type,
        }
    }

    /// Checks the eight signature bytes.
    #[verifier::spinoff_prover]
    fn read_header(&mut self) -> (r: Result<(), ForceExitReason>)
        requires
            old(self).wf(),
            old(self).pos_view() == 0,
        ensures
            final(self).wf(),
            final(self).input_view() == old(self).input_view(),
            final(self).options_view() == old(self).options_view(),
            final(self).order_state() == old(self).order_state(),
            final(self).stream_view() == old(self).stream_view(),
            *final(self) == (PngDecoder {
                byte_reader: final(self).byte_reader,
                multi_errors_manager: final(self).multi_errors_manager,
                ..*old(self)
            }),
            old(self).input_view().len() < 8 ==> r is Err && codes_of(final(self).errors_view())
                == codes_of(old(self).errors_view()).push(PngDecodeErrorCode::UnexpectedEndOfData),
            old(self).input_view().len() >= 8 ==> {
                let sig = old(self).input_view().subrange(0, 8);
                let sig_codes = code_if(!(sig =~= PNG_HEADER@), signature_code(sig));
                &&& final(self).pos_view() == 8
                &&& codes_of(final(self).errors_view()) == codes_of(old(self).errors_view())
                    + sig_codes
                &&& r is Err <==> halts(sig_codes, old(self).options_view().fail_fast)
            },
    {
        let ghost before = codes_of(self.errors_view());
        let buffer = match self.byte_reader.read_next_n_bytes(8) {
            Some(b) => b,
            None => {
                let r = self.create_error(PngDecodeErrorCode::UnexpectedEndOfData);
                assert(codes_of(self.errors_view()) =~= before.push(
                    PngDecodeErrorCode::UnexpectedEndOfData,
                ));
                return r;
            },
        };
        let mut i: usize = 0;
        let mut same = true;
        while i < 8
            invariant
                i <= 8,
                buffer@.len() == 8,
                same == (forall|j: int| 0 <= j < i ==> buffer@[j] == PNG_HEADER@[j]),
            decreases 8 - i,
        {
            if buffer[i] != PNG_HEADER[i] {
                same = false;
            }
            i = i + 1;
        }
        let ghost sig = buffer@;
        if same {
            assert(sig =~= PNG_HEADER@);
            assert(codes_of(self.errors_view()) =~= before + code_if(
                !(sig =~= PNG_HEADER@),
                signature_code(sig),
            ));
            return Ok(());
        }
        let found = self.byte_reader.read_u64_num(buffer.as_slice());
        assert(buffer@.subrange(0, 8) =~= sig);
        let code = PngDecodeErrorCode::InvalidSignature(found);
        proof {
            assert(!(sig =~= PNG_HEADER@));
        }
        let r = self.create_error(code);
        proof {
            let sig_codes = code_if(!(sig =~= PNG_HEADER@), signature_code(sig));
            assert(sig_codes =~= seq![code]);
            assert(codes_of(self.errors_view()) =~= before + sig_codes);
            if stops(code, self.decoder_options.fail_fast) {
                assert(sig_codes[0] == code);
            }
        }
        r
    }

    /// Acts on a chunk whose type and data were read: the error for a first
    /// chunk that is not IHDR, then the chunk's own handler. `Ok(true)` for IEND.
    #[verifier::rlimit(100)]
    #[verifier::spinoff_prover]
    fn dispatch_chunk(
        &mut self,
        chunk_type: &Vec<u8>,
        chunk_data: &Vec<u8>,
        Ghost(v): Ghost<ParsedImage>,
    ) -> (r: Result<bool, ForceExitReason>)
        requires
            old(self).wf(),
            old(self).holds(v),
            chunk_type@.len() == 4,
            all_continue(old(self).errors_view(), old(self).options_view().fail_fast),
        ensures
            final(self).wf(),
            final(self).input_view() == old(self).input_view(),
            final(self).pos_view() == old(self).pos_view(),
            final(self).options_view() == old(self).options_view(),
            codes_of(final(self).errors_view()) == codes_of(old(self).errors_view()) + emitted(
                chunk_codes(old(self).order_state(), chunk_type@, chunk_data@),
                old(self).options_view().fail_fast,
            ),
            r is Err <==> halts(
                chunk_codes(old(self).order_state(), chunk_type@, chunk_data@),
                old(self).options_view().fail_fast,
            ),
            r is Ok ==> {
                &&& final(self).order_state() == chunk_step(
                    old(self).order_state(),
                    chunk_type@,
                    chunk_data@,
                )
                &&& all_continue(final(self).errors_view(), final(self).options_view().fail_fast)
                &&& (r->Ok_0 <==> kind_of(chunk_type@) == ChunkKind::End)
                &&& r->Ok_0 ==> final(self).parsed()
                &&& final(self).holds(image_step(v, chunk_type@, chunk_data@))
            },
    {
        let ghost ff = self.decoder_options.fail_fast;
        let ghost st0 = self.order_state();
        let ghost codes0 = codes_of(self.errors_view());
        let ghost t = chunk_type@;
        let ghost data = chunk_data@;
        let ghost first = code_if(
            !st0.has_ihdr && kind_of(t) != ChunkKind::Header,
            first_chunk_code(t),
        );
        let ghost pre = chunk_codes(st0, t, data);
        let ghost handler = pre.subrange(first.len() as int, pre.len() as int);
        assert(pre =~= first + handler);
        let kind = ChunkTypes::classify(chunk_type.as_slice());
        if !self.has_ihdr && kind != ChunkKind::Header {
            let code = PngDecodeErrorCode::FirstChunkNotHeader(
                self.byte_reader.read_next_u32_num(chunk_type.as_slice()),
            );
            assert(first =~= seq![code]);
            let ghost before = self.errors_view();
            let r = self.create_error(code);
            if r.is_err() {
                proof {
                    assert(first[0] == code);
                    lemma_emitted_concat(first, handler, ff);
                    assert(emitted(first, ff) =~= first);
                    assert(codes_of(self.errors_view()) =~= codes0 + emitted(pre, ff));
                }
                return Err(r.unwrap_err());
            }
            proof {
                assert(codes_of(self.errors_view()) =~= codes0 + first);
                let errs = self.errors_view();
                assert forall|k: int| 0 <= k < errs.len() implies !stops(
                    #[trigger] errs[k].code,
                    ff,
                ) by {
                    if k < before.len() {
                        assert(errs[k] == before[k]);
                    }
                }
                if halts(first, ff) {
                    let i = choose|i: int| 0 <= i < first.len() && stops(#[trigger] first[i], ff);
                    assert(first[i] == code);
                }
            }
        } else {
            assert(first =~= Seq::<PngDecodeErrorCode>::empty());
            assert(codes_of(self.errors_view()) =~= codes0 + first);
        }
        proof {
            lemma_emitted_concat(first, handler, ff);
        }
        let ghost before = self.errors_view();
        let mut is_end = false;
        match kind {
            ChunkKind::Header => {
                let r = self.decode_ihdr_chunk(chunk_data.as_slice());
                if r.is_err() {
                    assert(codes_of(self.errors_view()) =~= codes0 + emitted(pre, ff));
                    return Err(r.unwrap_err());
                }
                proof {
                    lemma_continue_after(before, self.errors_view(), handler, ff);
                }
            },
            ChunkKind::ImageData => {
                self.decode_idat_chunk(chunk_data.as_slice());
                assert(handler =~= Seq::<PngDecodeErrorCode>::empty());
                assert(codes_of(self.errors_view()) =~= codes_of(before) + emitted(handler, ff));
            },
            ChunkKind::Palette => {
                let r = self.decode_plte_chunk(chunk_data.clone());
                if r.is_err() {
                    assert(codes_of(self.errors_view()) =~= codes0 + emitted(pre, ff));
                    return Err(r.unwrap_err());
                }
                proof {
                    lemma_continue_after(before, self.errors_view(), handler, ff);
                }
            },
            ChunkKind::Transparency => {
                let r = self.decode_tRNS_chunk(chunk_data.clone());
                if r.is_err() {
                    assert(codes_of(self.errors_view()) =~= codes0 + emitted(pre, ff));
                    return Err(r.unwrap_err());
                }
                proof {
                    lemma_continue_after(before, self.errors_view(), handler, ff);
                }
            },
            ChunkKind::End => {
                let r = self.finalize_at_iend_chunk();
                if r.is_err() {
                    assert(codes_of(self.errors_view()) =~= codes0 + emitted(pre, ff));
                    return Err(r.unwrap_err());
                }
                proof {
                    if handler.len() == 1 && stops(handler[0], ff) {
                        lemma_single_halts(handler, ff);
                    }
                    lemma_continue_after(before, self.errors_view(), handler, ff);
                }
                is_end = true;
            },
            ChunkKind::Other => {
                assert(handler =~= Seq::<PngDecodeErrorCode>::empty());
                assert(codes_of(self.errors_view()) =~= codes_of(before) + emitted(handler, ff));
            },
        }
        proof {
            assert(codes_of(self.errors_view()) =~= codes0 + emitted(pre, ff));
        }
        Ok(is_end)
    }

    /// Reads one chunk and its CRC and acts on it. `Ok(true)` after IEND,
    /// `Ok(false)` when more chunks follow, `Err` when the decode stops.
    #[verifier::rlimit(100)]
    #[verifier::spinoff_prover]
    fn decode_next_chunk(&mut self, Ghost(v): Ghost<ParsedImage>) -> (r: Result<
        bool,
        ForceExitReason,
    >)
        requires
            old(self).wf(),
            old(self).holds(v),
            old(self).pos_view() >= 0,
            all_continue(old(self).errors_view(), old(self).options_view().fail_fast),
        ensures
            final(self).wf(),
            final(self).input_view() == old(self).input_view(),
            final(self).options_view() == old(self).options_view(),
            ({
                let po = parse_outcome(
                    old(self).input_view(),
                    old(self).pos_view(),
                    old(self).order_state(),
                    old(self).options_view().fail_fast,
                    old(self).options_view().validate_crc,
                );
                let codes0 = codes_of(old(self).errors_view());
                let codes = codes_of(final(self).errors_view());
                match r {
                    Err(_) => codes == codes0 + po.0 && !po.1,
                    Ok(true) => codes == codes0 + po.0 && po.1 && final(self).parsed() && all_continue(
                        final(self).errors_view(),
                        final(self).options_view().fail_fast,
                    ) && final(self).holds(
                        parse_final(
                            old(self).input_view(),
                            old(self).pos_view(),
                            v,
                            old(self).options_view().fail_fast,
                            old(self).options_view().validate_crc,
                        ),
                    ),
                    Ok(false) => {
                        let rest = parse_outcome(
                            old(self).input_view(),
                            final(self).pos_view(),
                            final(self).order_state(),
                            old(self).options_view().fail_fast,
                            old(self).options_view().validate_crc,
                        );
                        &&& codes + rest.0 == codes0 + po.0
                        &&& rest.1 == po.1
                        &&& final(self).pos_view() > old(self).pos_view()
                        &&& final(self).pos_view() <= final(self).input_view().len()
                        &&& final(self).holds(
                            image_step(
                                v,
                                chunk_type_at(old(self).input_view(), old(self).pos_view()),
                                chunk_data_at(old(self).input_view(), old(self).pos_view()),
                            ),
                        )
                        &&& parse_final(
                            old(self).input_view(),
                            final(self).pos_view(),
                            image_step(
                                v,
                                chunk_type_at(old(self).input_view(), old(self).pos_view()),
                                chunk_data_at(old(self).input_view(), old(self).pos_view()),
                            ),
                            old(self).options_view().fail_fast,
                            old(self).options_view().validate_crc,
                        ) == parse_final(
                            old(self).input_view(),
                            old(self).pos_view(),
                            v,
                            old(self).options_view().fail_fast,
                            old(self).options_view().validate_crc,
                        )
                        &&& all_continue(final(self).errors_view(), final(self).options_view().fail_fast)
                    },
                }
            }),
    {
        let ghost ff = self.decoder_options.fail_fast;
        let ghost vcrc = self.decoder_options.validate_crc;
        let ghost input = self.input_view();
        let ghost pos0 = self.pos_view();
        let ghost st0 = self.order_state();
        let ghost codes0 = codes_of(self.errors_view());
        let ghost po = parse_outcome(input, pos0, st0, ff, vcrc);
        let chunk_data_length = match self.byte_reader.read_next_4bytes_num() {
            Some(n) => n,
            None => {
                let reason = self.fail(PngDecodeErrorCode::UnexpectedEndOfData);
                assert(codes_of(self.errors_view()) =~= codes0 + po.0);
                return Err(reason);
            },
        };
        let chunk_type = match self.byte_reader.read_next_4bytes() {
            Some(t) => t,
            None => {
                let reason = self.fail(PngDecodeErrorCode::UnexpectedEndOfData);
                assert(codes_of(self.errors_view()) =~= codes0 + po.0);
                return Err(reason);
            },
        };
        let chunk_data = match self.byte_reader.read_next_n_bytes(chunk_data_length as usize) {
            Some(d) => d,
            None => {
                let reason = self.fail(PngDecodeErrorCode::UnexpectedEndOfData);
                assert(codes_of(self.errors_view()) =~= codes0 + po.0);
                return Err(reason);
            },
        };
        let ghost t = chunk_type@;
        let ghost data = chunk_data@;
        let ghost pre = chunk_codes(st0, t, data);
        assert(t == chunk_type_at(input, pos0));
        assert(chunk_data_length as int == chunk_len_at(input, pos0));
        assert(data == chunk_data_at(input, pos0));
        assert(self.pos_view() == pos0 + 8 + chunk_len_at(input, pos0));
        let is_end = match self.dispatch_chunk(&chunk_type, &chunk_data, Ghost(v)) {
            Ok(e) => e,
            Err(reason) => {
                assert(codes_of(self.errors_view()) =~= codes0 + po.0);
                return Err(reason);
            },
        };
        proof {
            lemma_emitted_no_halt(pre, ff);
        }
        let chunk_crc = match self.byte_reader.read_next_4bytes_num() {
            Some(n) => n,
            None => {
                assert(pos0 + 12 + chunk_len_at(input, pos0) > input.len());
                let reason = self.fail(PngDecodeErrorCode::UnexpectedEndOfData);
                assert(codes_of(self.errors_view()) =~= codes0 + po.0);
                return Err(reason);
            },
        };
        assert(chunk_crc == chunk_crc_at(input, pos0));
        let ghost crc = crc_codes(input, pos0, vcrc);
        if self.decoder_options.validate_crc {
            let mut chunk_type_and_chunk_data = chunk_type;
            let mut rest_of_chunk = chunk_data;
            chunk_type_and_chunk_data.append(&mut rest_of_chunk);
            let ghost before_crc = self.errors_view();
            assert(chunk_type_and_chunk_data@ == t + data);
            let r = self.validate_crc(chunk_crc, chunk_type_and_chunk_data.as_slice());
            if r.is_err() {
                proof {
                    assert(crc[0] == PngDecodeErrorCode::CrcMismatch(crc32_of(t + data), chunk_crc));
                    assert(codes_of(self.errors_view()) =~= codes0 + po.0);
                }
                return Err(r.unwrap_err());
            }
            proof {
                assert forall|i: int| 0 <= i < crc.len() implies !stops(#[trigger] crc[i], ff) by {
                    assert(crc[i] == PngDecodeErrorCode::CrcMismatch(crc32_of(t + data), chunk_crc));
                }
                lemma_continue_extend(before_crc, self.errors_view(), crc, ff);
            }
        } else {
            assert(crc =~= Seq::<PngDecodeErrorCode>::empty());
            assert(codes_of(self.errors_view()) =~= codes0 + pre + crc);
        }
        proof {
            assert(!halts(crc, ff)) by {
                if halts(crc, ff) {
                    let i = choose|i: int| 0 <= i < crc.len() && stops(#[trigger] crc[i], ff);
                    assert(crc[i] == PngDecodeErrorCode::CrcMismatch(crc32_of(t + data), chunk_crc));
                }
            }
            assert(codes_of(self.errors_view()) =~= codes0 + pre + crc);
        }
        if is_end {
            assert(codes_of(self.errors_view()) =~= codes0 + po.0);
            return Ok(true);
        }
        assert(codes0 + po.0 =~= codes_of(self.errors_view()) + parse_outcome(
            input,
            self.pos_view(),
            self.order_state(),
            ff,
            vcrc,
        ).0);
        Ok(false)
    }

    /// Reads the chunks from the signature up to IEND, checking their order
    /// and, when asked, their CRCs. The errors recorded and the success are
    /// those that `png_outcome` gives for the input.
    #[verifier::spinoff_prover]
    fn decode_chunks(&mut self) -> (r: Result<(), ForceExitReason>)
        requires
            old(self).wf(),
            old(self).errors_view() == Seq::<PngDecodeError>::empty(),
            old(self).pos_view() == 0,
            old(self).order_state() == initial_order_state(),
            old(self).holds(initial_parsed_image()),
        ensures
            final(self).wf(),
            final(self).input_view() == old(self).input_view(),
            final(self).options_view() == old(self).options_view(),
            r is Ok ==> final(self).holds(
                png_image(
                    old(self).input_view(),
                    old(self).options_view().fail_fast,
                    old(self).options_view().validate_crc,
                ),
            ),
            codes_of(final(self).errors_view()) == png_outcome(
                old(self).input_view(),
                old(self).options_view().fail_fast,
                old(self).options_view().validate_crc,
            ).0,
            r is Ok <==> png_outcome(
                old(self).input_view(),
                old(self).options_view().fail_fast,
                old(self).options_view().validate_crc,
            ).1,
            r is Ok ==> final(self).parsed(),
            r is Ok ==> all_continue(final(self).errors_view(), final(self).options_view().fail_fast),
    {
        let ghost ff = self.decoder_options.fail_fast;
        let ghost vcrc = self.decoder_options.validate_crc;
        let ghost input = self.input_view();
        let ghost outcome = png_outcome(input, ff, vcrc);
        proof {
            assert(codes_of(self.errors_view()) =~= Seq::<PngDecodeErrorCode>::empty());
        }
        let h = self.read_header();
        if h.is_err() {
            proof {
                if input.len() >= 8 {
                    let sig = input.subrange(0, 8);
                    assert(Seq::<PngDecodeErrorCode>::empty() + code_if(
                        !(sig =~= PNG_HEADER@),
                        signature_code(sig),
                    ) =~= code_if(!(sig =~= PNG_HEADER@), signature_code(sig)));
                } else {
                    assert(Seq::<PngDecodeErrorCode>::empty().push(
                        PngDecodeErrorCode::UnexpectedEndOfData,
                    ) =~= seq![PngDecodeErrorCode::UnexpectedEndOfData]);
                }
            }
            return h;
        }
        proof {
            let sig = input.subrange(0, 8);
            let sig_codes = code_if(!(sig =~= PNG_HEADER@), signature_code(sig));
            assert(Seq::<PngDecodeErrorCode>::empty() + sig_codes =~= sig_codes);
            if sig_codes.len() > 0 {
                assert(!stops(sig_codes[0], ff));
                assert(all_continue(self.errors_view(), ff)) by {
                    assert(codes_of(self.errors_view())[0] == self.errors_view()[0].code);
                }
            }
        }
        let ghost mut v = initial_parsed_image();
        loop
            invariant_except_break
                self.pos_view() >= 0,
                self.pos_view() <= input.len(),
                self.holds(v),
                parse_final(input, self.pos_view(), v, ff, vcrc) == png_image(input, ff, vcrc),
                codes_of(self.errors_view()) + parse_outcome(
                    input,
                    self.pos_view(),
                    self.order_state(),
                    ff,
                    vcrc,
                ).0 == outcome.0,
                parse_outcome(input, self.pos_view(), self.order_state(), ff, vcrc).1
                    == outcome.1,
            invariant
                self.wf(),
                self.input_view() == input,
                input == old(self).input_view(),
                self.options_view() == old(self).options_view(),
                ff == self.decoder_options.fail_fast,
                vcrc == self.decoder_options.validate_crc,
                outcome == png_outcome(input, ff, vcrc),
                all_continue(self.errors_view(), ff),
            ensures
                self.wf(),
                self.input_view() == input,
                self.options_view() == old(self).options_view(),
                self.parsed(),
                all_continue(self.errors_view(), ff),
                codes_of(self.errors_view()) == outcome.0,
                outcome.1,
                self.holds(png_image(input, ff, vcrc)),
            decreases input.len() - self.pos_view(),
        {
            let ghost pos0 = self.pos_view();
            match self.decode_next_chunk(Ghost(v)) {
                Ok(true) => {
                    break ;
                },
                Ok(false) => {
                    proof {
                        v = image_step(v, chunk_type_at(input, pos0), chunk_data_at(input, pos0));
                    }
                },
                Err(reason) => {
                    return Err(reason);
                },
            }
        }
        Ok(())
    }

    pub closed spec fn interlaced(&self) -> bool {
        self.interlace_method == Some(InterlaceMethod::Adam7)
    }

    pub closed spec fn channels_view(&self) -> int {
        channels_of(self.color_type->Some_0) as int
    }

    pub closed spec fn depth_view(&self) -> int {
        self.bit_depth->Some_0 as int
    }

    /// Reconstructs a non-interlaced image from the inflated image data.
    fn unfilter_non_interlaced_image(&self, data: &[u8]) -> (r: Result<Vec<u8>, PngDecodeErrorCode>)
        requires
            self.wf(),
            self.parsed(),
        ensures
            match r {
                Ok(v) => data@.len() >= filtered_len(
                    false,
                    self.width_view()->Some_0 as int,
                    self.height_view()->Some_0 as int,
                    self.channels_view(),
                    self.depth_view(),
                ) && v@ == unfiltered_image(
                    data@,
                    false,
                    self.width_view()->Some_0 as int,
                    self.height_view()->Some_0 as int,
                    self.channels_view(),
                    self.depth_view(),
                ),
                Err(e) => e == PngDecodeErrorCode::ImageDataTooShort || e is UnknownFilterType,
            },
            r is Ok <==> data@.len() >= filtered_len(
                false,
                self.width_view()->Some_0 as int,
                self.height_view()->Some_0 as int,
                self.channels_view(),
                self.depth_view(),
            ) && image_filters_known(
                data@,
                false,
                self.width_view()->Some_0 as int,
                self.height_view()->Some_0 as int,
                self.channels_view(),
                self.depth_view(),
            ),
    {
        let height = match self.height {
            Some(h) => h,
            None => 0,
        };
        let bpl = self.bytes_per_line;
        assert(height * (bpl + 1) <= 0xffff_ffff * 0x1_0000_0000_0000_0000) by (nonlinear_arith)
            requires
                height <= 0xffff_ffff,
                bpl <= 0xffff_ffff_ffff_ffff,
        ;
        let need: u128 = height as u128 * (bpl as u128 + 1);
        if need > data.len() as u128 {
            return Err(PngDecodeErrorCode::ImageDataTooShort);
        }
        proof {
            assert(self.bytes_per_pixel >= 1) by (nonlinear_arith)
                requires
                    self.bytes_per_pixel == (self.channels_view() * self.depth_view() + 7) / 8,
                    self.channels_view() >= 1,
                    self.depth_view() >= 1,
            ;
        }
        let unfilter_processor = UnfilterProcessor::new(height, self.bytes_per_pixel, bpl);
        unfilter_processor.unfilter(data)
    }

    /// Reconstructs the seven Adam7 passes from the inflated image data, each
    /// pass with its own scanline length; empty passes take no bytes.
    #[verifier::spinoff_prover]
    fn unfilter_interlaced_image(&self, data: &[u8]) -> (r: Result<Vec<u8>, PngDecodeErrorCode>)
        requires
            self.wf(),
            self.parsed(),
        ensures
            match r {
                Ok(v) => data@.len() >= filtered_len(
                    true,
                    self.width_view()->Some_0 as int,
                    self.height_view()->Some_0 as int,
                    self.channels_view(),
                    self.depth_view(),
                ) && v@ == unfiltered_image(
                    data@,
                    true,
                    self.width_view()->Some_0 as int,
                    self.height_view()->Some_0 as int,
                    self.channels_view(),
                    self.depth_view(),
                ),
                Err(e) => e == PngDecodeErrorCode::ImageDataTooShort || e is UnknownFilterType,
            },
            r is Ok <==> data@.len() >= filtered_len(
                true,
                self.width_view()->Some_0 as int,
                self.height_view()->Some_0 as int,
                self.channels_view(),
                self.depth_view(),
            ) && image_filters_known(
                data@,
                true,
                self.width_view()->Some_0 as int,
                self.height_view()->Some_0 as int,
                self.channels_view(),
                self.depth_view(),
            ),
    {
        let width = match self.width {
            Some(w) => w,
            None => 0,
        };
        let height = match self.height {
            Some(h) => h,
            None => 0,
        };
        let bit_depth = match self.bit_depth {
            Some(d) => d,
            None => 0,
        };
        let color_type = match self.color_type {
            Some(c) => c,
            None => ColorType::Greyscale,
        };
        let channel = crate::chunk_helpers::colortype_to_channel(color_type);
        let ghost w = width as int;
        let ghost h = height as int;
        let ghost c = channel as int;
        let ghost d = bit_depth as int;
        let reduced_images = create_reduced_images(width, height, channel, bit_depth);
        proof {
            assert(self.bytes_per_pixel >= 1) by (nonlinear_arith)
                requires
                    self.bytes_per_pixel == (c * d + 7) / 8,
                    c >= 1,
                    d >= 1,
            ;
        }
        let mut out: Vec<u8> = Vec::new();
        let mut cursor: usize = 0;
        let mut pass: usize = 0;
        while pass < 7
            invariant
                pass <= 7,
                w == width,
                h == height,
                c == channel,
                d == bit_depth,
                c == self.channels_view(),
                d == self.depth_view(),
                w == self.width_view()->Some_0 as int,
                h == self.height_view()->Some_0 as int,
                c >= 1,
                d >= 1,
                self.bytes_per_line == bytes_per_line(c, d, w),
                self.bytes_per_pixel == bytes_per_pixel(c, d),
                self.bytes_per_pixel >= 1,
                forall|i: int| 0 <= i < 7 ==> reduced_images[i] == crate::deinterlace::reduced_image_spec(i + 1, w, h, c, d),
                cursor == pass_in_offset(pass + 1, w, h, c, d),
                cursor <= data@.len(),
                forall|q: int|
                    1 <= q <= pass && !pass_is_empty(q, w, h) ==> #[trigger] filters_known(
                        data@.subrange(
                            pass_in_offset(q, w, h, c, d),
                            pass_in_offset(q, w, h, c, d) + pass_in_len(q, w, h, c, d),
                        ),
                        pass_bpl(q, w, c, d),
                        reduced_height(q, h),
                    ),
                out@ == interlaced_bands(data@, pass as int, w, h, c, d),
            decreases 7 - pass,
        {
            let ghost p = pass + 1;
            let reduced_image = reduced_images[pass];
            proof {
                crate::deinterlace::lemma_reduced_bounds(p, w, h);
                crate::deinterlace::lemma_bytes_per_line_monotonic(c, d, reduced_width(p, w), w);
                crate::deinterlace::lemma_pass_lens_nonneg(p, w, h, c, d);
            }
            if reduced_image.pixel_width == 0 || reduced_image.pixel_height == 0 {
                assert(out@ =~= interlaced_bands(data@, p, w, h, c, d));
                pass = pass + 1;
                continue ;
            }
            let rh = reduced_image.pixel_height;
            let bpl = reduced_image.bytes_per_line;
            assert(rh * (bpl + 1) <= 0xffff_ffff * 0x1_0000_0000_0000_0000) by (nonlinear_arith)
                requires
                    rh <= 0xffff_ffff,
                    bpl <= 0xffff_ffff_ffff_ffff,
            ;
            let need: u128 = rh as u128 * (bpl as u128 + 1);
            if need > (data.len() - cursor) as u128 {
                proof {
                    crate::deinterlace::lemma_pass_offsets_grow(p, 8, w, h, c, d);
                    assert(!crate::deinterlace::pass_is_empty(p, w, h));
                    assert(need == crate::deinterlace::pass_in_len(p, w, h, c, d));
                    assert(data@.len() < pass_in_offset(8, w, h, c, d));
                }
                return Err(PngDecodeErrorCode::ImageDataTooShort);
            }
            let need = need as usize;
            let band_in = vstd::slice::slice_subrange(data, cursor, cursor + need);
            let unfilter_processor = UnfilterProcessor::new(rh, self.bytes_per_pixel, bpl);
            let band = match unfilter_processor.unfilter(band_in) {
                Ok(b) => b,
                Err(e) => {
                    proof {
                        let sub = data@.subrange(cursor as int, cursor + need);
                        assert(!filters_known(sub, pass_bpl(p, w, c, d), reduced_height(p, h)));
                    }
                    return Err(e);
                },
            };
            let mut band = band;
            out.append(&mut band);
            assert(out@ =~= interlaced_bands(data@, p, w, h, c, d));
            cursor = cursor + need;
            pass = pass + 1;
        }
        Ok(out)
    }

    /// Where each pass starts in the reconstructed bytes (entry `p` for pass `p`).
    fn pass_offsets(
        reduced_images: &[crate::deinterlace::ReducedImage; 7],
        width: u32,
        height: u32,
        channel: u8,
        bit_depth: u8,
    ) -> (r: Vec<usize>)
        requires
            forall|i: int|
                0 <= i < 7 ==> reduced_images[i] == crate::deinterlace::reduced_image_spec(
                    i + 1,
                    width as int,
                    height as int,
                    channel as int,
                    bit_depth as int,
                ),
            pass_out_offset(8, width as int, height as int, channel as int, bit_depth as int)
                <= usize::MAX,
            bytes_per_line(channel as int, bit_depth as int, width as int) <= usize::MAX,
        ensures
            r@.len() == 8,
            forall|p: int|
                1 <= p <= 7 ==> r@[p] == pass_out_offset(
                    p,
                    width as int,
                    height as int,
                    channel as int,
                    bit_depth as int,
                ),
    {
        let ghost w = width as int;
        let ghost h = height as int;
        let ghost c = channel as int;
        let ghost d = bit_depth as int;
        let mut offsets: Vec<usize> = Vec::new();
        offsets.push(0);
        offsets.push(0);
        let mut p: usize = 2;
        while p <= 7
            invariant
                2 <= p <= 8,
                offsets@.len() == p,
                w == width,
                h == height,
                c == channel,
                d == bit_depth,
                forall|i: int| 0 <= i < 7 ==> reduced_images[i] == crate::deinterlace::reduced_image_spec(i + 1, w, h, c, d),
                pass_out_offset(8, w, h, c, d) <= usize::MAX,
                bytes_per_line(c, d, w) <= usize::MAX,
                forall|q: int| 1 <= q < p ==> offsets@[q] == pass_out_offset(q, w, h, c, d),
            decreases 8 - p,
        {
            let prev = reduced_images[p - 2];
            proof {
                crate::deinterlace::lemma_pass_offsets_grow(p as int - 1, 8, w, h, c, d);
                crate::deinterlace::lemma_reduced_bounds(p as int - 1, w, h);
                crate::deinterlace::lemma_pass_lens_nonneg(p as int - 1, w, h, c, d);
                crate::deinterlace::lemma_bytes_per_line_monotonic(
                    c,
                    d,
                    reduced_width(p as int - 1, w),
                    w,
                );
                assert(prev.pixel_height as int == reduced_height(p as int - 1, h));
                assert(prev.bytes_per_line as int == pass_bpl(p as int - 1, w, c, d));
                assert(offsets@[p - 1] == pass_out_offset(p as int - 1, w, h, c, d));
            }
            let next = offsets[p - 1] + prev.pixel_height as usize * prev.bytes_per_line;
            offsets.push(next);
            assert(offsets@[p as int] == pass_out_offset(p as int, w, h, c, d));
            p = p + 1;
        }
        offsets
    }


    /// The RGBA value of pixel `(x, y)`, read from its pass.
    #[verifier::spinoff_prover]
    fn pixel_at(
        &self,
        unfiltered: &[u8],
        reduced_images: &[crate::deinterlace::ReducedImage; 7],
        offsets: &Vec<usize>,
        interlaced: bool,
        x: usize,
        y: usize,
    ) -> (r: Result<(u8, u8, u8, u8), PngDecodeErrorCode>)
        requires
        self.wf(),
        self.parsed(),
        interlaced == self.interlaced(),
        x < self.width_view()->Some_0,
        y < self.height_view()->Some_0,
        unfiltered@.len() == unfiltered_len(
            interlaced,
            self.width_view()->Some_0 as int,
            self.height_view()->Some_0 as int,
            self.channels_view(),
            self.depth_view(),
        ),
        forall|k: int|
            0 <= k < 7 ==> reduced_images[k] == crate::deinterlace::reduced_image_spec(
                k + 1,
                self.width_view()->Some_0 as int,
                self.height_view()->Some_0 as int,
                self.channels_view(),
                self.depth_view(),
            ),
        interlaced ==> offsets@.len() == 8,
        interlaced ==> forall|p: int|
            1 <= p <= 7 ==> offsets@[p] == pass_out_offset(
                p,
                self.width_view()->Some_0 as int,
                self.height_view()->Some_0 as int,
                self.channels_view(),
                self.depth_view(),
            ),
        ensures
        r == source_pixel(
            self.pixel_type_view()->Some_0,
            self.transparency_view(),
            self.palette_view(),
            unfiltered@,
            interlaced,
            self.width_view()->Some_0 as int,
            self.height_view()->Some_0 as int,
            x as int,
            y as int,
        ),
    {
        let pixel_type = match self.pixel_type {
        Some(pt) => pt,
        None => PixelType::Grayscale8,
        };
        let ghost w = self.width_view()->Some_0 as int;
        let ghost h = self.height_view()->Some_0 as int;
        let ghost c = self.channels_view();
        let ghost d = self.depth_view();
        let ghost unf = unfiltered@;
        // The slice length bounds the offsets below.
        let _unf_len = unfiltered.len();
        proof {
            crate::bitmap::lemma_pixel_type_of(self.color_type->Some_0, self.bit_depth->Some_0);
        }
        let (pass, col, row, offset, bpl): (u8, usize, usize, usize, usize) = if interlaced {
            let (p, col, row) = crate::deinterlace::adam7_source(x, y);
            proof {
                crate::deinterlace::lemma_adam7_source(x as int, y as int, w, h);
            }
            let reduced_image = reduced_images[(p - 1) as usize];
            (p, col, row, offsets[p as usize], reduced_image.bytes_per_line)
        } else {
            (0, x, y, 0, self.bytes_per_line)
        };
        let ghost p = pass as int;
        proof {
            if !interlaced {
                assert(row + 1 <= h);
            }
            crate::deinterlace::lemma_reduced_bounds(p, w, h);
            crate::deinterlace::lemma_bytes_per_line_monotonic(c, d, reduced_width(p, w), w);
            crate::deinterlace::lemma_bytes_per_line_monotonic(c, d, col + 1, reduced_width(p, w));
            crate::deinterlace::lemma_pass_lens_nonneg(p, w, h, c, d);
            if interlaced {
                crate::deinterlace::lemma_pass_offsets_grow(p, 8, w, h, c, d);
            }
            assert(bpl == pass_bpl(p, w, c, d));
            assert(offset == pass_out_offset(p, w, h, c, d));
            let rh = reduced_height(p, h);
            assert(row < rh);
            assert(row * bpl + bpl <= rh * bpl) by (nonlinear_arith)
                requires
                    row < rh,
                    bpl >= 0,
            ;
            assert(offset + row * bpl + bpl <= unf.len());
        }
        let start = offset + row * bpl;
        let line = vstd::slice::slice_subrange(unfiltered, start, start + bpl);
        assert(line@ == source_line(pixel_type, unf, interlaced, w, h, x as int, y as int));
        to_rgba_pixel_bytes(pixel_type, &self.transparency_chunk, &self.palette, col, line)
    }

    /// Converts the reconstructed bytes to RGBA8, pixel by pixel in row-major
    /// order, each pixel read from its pass. Stops at the first pixel whose
    /// palette index has no palette entry.
    #[verifier::spinoff_prover]
    fn to_rgba_vec(&self, unfiltered: &[u8]) -> (r: Result<Vec<u8>, PngDecodeErrorCode>)
        requires
            self.wf(),
            self.parsed(),
            unfiltered@.len() == unfiltered_len(
                self.interlaced(),
                self.width_view()->Some_0 as int,
                self.height_view()->Some_0 as int,
                self.channels_view(),
                self.depth_view(),
            ),
            self.width_view()->Some_0 * self.height_view()->Some_0 * 4 <= usize::MAX,
        ensures
            match r {
                Ok(v) => rgba_image_matches(
                    v@,
                    self.pixel_type_view()->Some_0,
                    self.transparency_view(),
                    self.palette_view(),
                    unfiltered@,
                    self.interlaced(),
                    self.width_view()->Some_0 as int,
                    self.height_view()->Some_0 as int,
                ),
                Err(e) => exists|i: int|
                    0 <= i < self.width_view()->Some_0 * self.height_view()->Some_0
                        && #[trigger] source_pixel(
                        self.pixel_type_view()->Some_0,
                        self.transparency_view(),
                        self.palette_view(),
                        unfiltered@,
                        self.interlaced(),
                        self.width_view()->Some_0 as int,
                        self.height_view()->Some_0 as int,
                        i % (self.width_view()->Some_0 as int),
                        i / (self.width_view()->Some_0 as int),
                    ) == Err::<(u8, u8, u8, u8), PngDecodeErrorCode>(e),
            },
    {
        let width = match self.width {
            Some(w) => w,
            None => 0,
        };
        let height = match self.height {
            Some(h) => h,
            None => 0,
        };
        let bit_depth = match self.bit_depth {
            Some(d) => d,
            None => 0,
        };
        let color_type = match self.color_type {
            Some(c) => c,
            None => ColorType::Greyscale,
        };
        let pixel_type = match self.pixel_type {
            Some(pt) => pt,
            None => PixelType::Grayscale8,
        };
        let interlaced = self.interlace_method == Some(InterlaceMethod::Adam7);
        let channel = crate::chunk_helpers::colortype_to_channel(color_type);
        let ghost w = width as int;
        let ghost h = height as int;
        let ghost c = channel as int;
        let ghost d = bit_depth as int;
        let ghost unf = unfiltered@;
        let ghost trns = self.transparency_chunk;
        let ghost palette = self.palette;
        proof {
            crate::bitmap::lemma_pixel_type_of(color_type, bit_depth);
            if interlaced {
                crate::deinterlace::lemma_pass_offsets_grow(1, 8, w, h, c, d);
            }
        }
        let reduced_images = create_reduced_images(width, height, channel, bit_depth);
        // The slice length bounds the offsets below.
        let _unf_len = unfiltered.len();
        let offsets = if interlaced {
            Self::pass_offsets(&reduced_images, width, height, channel, bit_depth)
        } else {
            Vec::new()
        };
        let w_usize = width as usize;
        let total = w_usize * height as usize;
        let mut rgba_data: Vec<u8> = Vec::new();
        let mut i: usize = 0;
        while i < total
            invariant
                self.wf(),
                self.parsed(),
                i <= total,
                total == w * h,
                w == width,
                h == height,
                c == channel,
                d == bit_depth,
                w_usize == width,
                w * h * 4 <= usize::MAX,
                unf == unfiltered@,
                trns == self.transparency_chunk,
                palette == self.palette,
                interlaced == self.interlaced(),
                c == self.channels_view(),
                d == self.depth_view(),
                w == self.width_view()->Some_0 as int,
                h == self.height_view()->Some_0 as int,
                pixel_type == self.pixel_type_view()->Some_0,
                pixel_channels(pixel_type) == channel,
                pixel_bit_depth(pixel_type) == bit_depth,
                self.bytes_per_line == bytes_per_line(c, d, w),
                unf.len() == unfiltered_len(interlaced, w, h, c, d),
                forall|k: int| 0 <= k < 7 ==> reduced_images[k] == crate::deinterlace::reduced_image_spec(k + 1, w, h, c, d),
                interlaced ==> offsets@.len() == 8,
                interlaced ==> forall|p: int| 1 <= p <= 7 ==> offsets@[p] == pass_out_offset(p, w, h, c, d),
                rgba_data@.len() == 4 * i,
                forall|j: int| 0 <= j < i ==> #[trigger] pixel_matches(rgba_data@, j, pixel_type, trns, palette, unf, interlaced, w, h),
            decreases total - i,
        {
            let x = i % w_usize;
            let y = i / w_usize;
            proof {
                assert(y < h) by (nonlinear_arith)
                    requires
                        y as int == i as int / w,
                        i < w * h,
                        w > 0,
                ;
                assert(4 * i + 4 <= w * h * 4);
            }
            let pixel = self.pixel_at(unfiltered, &reduced_images, &offsets, interlaced, x, y);
            match pixel {
                Ok((r, g, b, a)) => {
                    let ghost before = rgba_data@;
                    rgba_data.push(r);
                    rgba_data.push(g);
                    rgba_data.push(b);
                    rgba_data.push(a);
                    proof {
                        assert forall|j: int| 0 <= j <= i implies #[trigger] pixel_matches(
                            rgba_data@,
                            j,
                            pixel_type,
                            trns,
                            palette,
                            unf,
                            interlaced,
                            w,
                            h,
                        ) by {
                            if j < i {
                                assert(pixel_matches(before, j, pixel_type, trns, palette, unf, interlaced, w, h));
                                assert(4 * j + 3 < 4 * i) by (nonlinear_arith)
                                    requires
                                        j < i,
                                ;
                            }
                        }
                    }
                },
                Err(e) => {
                    assert(source_pixel(pixel_type, trns, palette, unf, interlaced, w, h, i as int % w, i as int / w) == Err::<(u8, u8, u8, u8), PngDecodeErrorCode>(e));
                    return Err(e);
                },
            }
            i = i + 1;
        }
        Ok(rgba_data)
    }

    /// The decode of the chunk stream read so far yields `rgba`: the chunks
    /// ended in a well-formed IEND, every recorded error let the decode go
    /// on, the IDAT payloads form a valid zlib stream with enough image data,
    /// and each pixel of `rgba` is the RGBA value of its source pixel.
    pub open spec fn decodes_to(&self, rgba: Seq<u8>) -> bool {
        let w = self.width_view()->Some_0 as int;
        let h = self.height_view()->Some_0 as int;
        let c = self.channels_view();
        let d = self.depth_view();
        let interlaced = self.interlaced();
        let inflated = zlib_inflated(self.stream_view())->Some_0;
        &&& self.parsed()
        &&& all_continue(self.errors_view(), self.options_view().fail_fast)
        &&& zlib_inflated(self.stream_view()) is Some
        &&& inflated.len() >= filtered_len(interlaced, w, h, c, d)
        &&& rgba.len() == w * h * 4
        &&& rgba_image_matches(
            rgba,
            self.pixel_type_view()->Some_0,
            self.transparency_view(),
            self.palette_view(),
            unfiltered_image(inflated, interlaced, w, h, c, d),
            interlaced,
            w,
            h,
        )
    }

    /// The image data of the chunk stream read so far can be turned into
    /// pixels: the IDAT payloads form a valid zlib stream, it holds enough
    /// bytes, every scanline has a known filter type, the RGBA buffer fits in
    /// memory addresses, and every palette index has a palette entry.
    pub open spec fn image_decodable(&self) -> bool {
        let w = self.width_view()->Some_0 as int;
        let h = self.height_view()->Some_0 as int;
        let c = self.channels_view();
        let d = self.depth_view();
        let interlaced = self.interlaced();
        let inflated = zlib_inflated(self.stream_view())->Some_0;
        let unf = unfiltered_image(inflated, interlaced, w, h, c, d);
        &&& self.stream_view().len() > 0
        &&& zlib_inflated(self.stream_view()) is Some
        &&& inflated.len() >= filtered_len(interlaced, w, h, c, d)
        &&& image_filters_known(inflated, interlaced, w, h, c, d)
        &&& w * h * 4 <= usize::MAX
        &&& forall|i: int|
            0 <= i < w * h ==> #[trigger] source_pixel(
                self.pixel_type_view()->Some_0,
                self.transparency_view(),
                self.palette_view(),
                unf,
                interlaced,
                w,
                h,
                i % w,
                i / w,
            ) is Ok
    }

    /// The recorded errors, giving up the decoder.
    pub fn into_errors(self) -> (r: Vec<PngDecodeError>)
        ensures
            r@ == self.errors_view(),
    {
        self.multi_errors_manager.into_errors()
    }

    /// Records an error that ends the decode and returns why it ended.
    fn fail(&mut self, code: PngDecodeErrorCode) -> (r: ForceExitReason)
        requires
            old(self).wf(),
            !is_recoverable(code),
        ensures
            final(self).wf(),
            codes_of(final(self).errors_view()) == codes_of(old(self).errors_view()).push(code),
            r == ForceExitReason::Unrecoverable,
            *final(self) == (PngDecoder {
                multi_errors_manager: final(self).multi_errors_manager,
                ..*old(self)
            }),
    {
        let ghost before = self.errors_view();
        let _ = self.create_error(code);
        assert(codes_of(self.errors_view()) =~= codes_of(before).push(code));
        ForceExitReason::Unrecoverable
    }

    /// The errors recorded so far, oldest first.
    pub fn errors(&self) -> (r: &Vec<PngDecodeError>)
        ensures
            r@ == self.errors_view(),
    {
        self.multi_errors_manager.errors()
    }

    /// Decodes the whole stream into RGBA8: four bytes per pixel, rows top
    /// to bottom. On success every recorded error let the decode go on, the
    /// IDAT payloads form a valid zlib stream, and each output pixel is the
    /// RGBA value of its source pixel in the reconstructed image data.
    #[verifier::spinoff_prover]
    pub fn run(&mut self) -> (r: Result<Vec<u8>, ForceExitReason>)
        requires
            old(self).wf(),
            old(self).errors_view() == Seq::<PngDecodeError>::empty(),
            old(self).pos_view() == 0,
            old(self).order_state() == initial_order_state(),
            old(self).holds(initial_parsed_image()),
        ensures
            final(self).wf(),
            final(self).input_view() == old(self).input_view(),
            final(self).options_view() == old(self).options_view(),
            r is Ok ==> final(self).decodes_to(r->Ok_0@),
            ({
                let outcome = png_outcome(
                    old(self).input_view(),
                    old(self).options_view().fail_fast,
                    old(self).options_view().validate_crc,
                );
                let codes = codes_of(final(self).errors_view());
                &&& r is Ok <==> outcome.1 && final(self).image_decodable()
                &&& outcome.1 ==> final(self).parsed() && final(self).holds(
                    png_image(
                        old(self).input_view(),
                        old(self).options_view().fail_fast,
                        old(self).options_view().validate_crc,
                    ),
                )
                &&& !outcome.1 ==> codes == outcome.0
                &&& r is Ok ==> codes == outcome.0
                &&& outcome.1 && r is Err ==> codes.len() == outcome.0.len() + 1 && codes.subrange(
                    0,
                    outcome.0.len() as int,
                ) == outcome.0 && !is_recoverable(codes.last())
            }),
    {
        let parsed = self.decode_chunks();
        match parsed {
            Ok(()) => {},
            Err(reason) => {
                return Err(reason);
            },
        }
        let ghost ff = self.decoder_options.fail_fast;
        let ghost c0 = codes_of(self.errors_view());
        let decompressed_data = match self.zlib_decompress_stream.get_out_buffer() {
            Ok(v) => v,
            Err(code) => {
                let reason = self.fail(code);
                assert(codes_of(self.errors_view()).subrange(0, c0.len() as int) =~= c0);
                return Err(reason);
            },
        };
        let unfiltered = if self.interlace_method == Some(InterlaceMethod::Adam7) {
            self.unfilter_interlaced_image(decompressed_data.as_slice())
        } else {
            self.unfilter_non_interlaced_image(decompressed_data.as_slice())
        };
        let unfiltered = match unfiltered {
            Ok(v) => v,
            Err(code) => {
                let reason = self.fail(code);
                assert(codes_of(self.errors_view()).subrange(0, c0.len() as int) =~= c0);
                return Err(reason);
            },
        };
        let width = match self.width {
            Some(w) => w,
            None => 0,
        };
        let height = match self.height {
            Some(h) => h,
            None => 0,
        };
        assert(width * height * 4 <= 0xffff_ffff * 0xffff_ffff * 4) by (nonlinear_arith)
            requires
                width <= 0xffff_ffff,
                height <= 0xffff_ffff,
        ;
        if width as u128 * height as u128 * 4 > usize::MAX as u128 {
            let reason = self.fail(PngDecodeErrorCode::ImageTooLarge);
            assert(codes_of(self.errors_view()).subrange(0, c0.len() as int) =~= c0);
            return Err(reason);
        }
        proof {
            let w = width as int;
            let h = height as int;
            let c = self.channels_view();
            let d = self.depth_view();
            if self.interlaced() {
                crate::deinterlace::lemma_interlaced_bands_len(decompressed_data@, 7, w, h, c, d);
            } else {
                crate::unfilter::lemma_prefix_len(
                    decompressed_data@,
                    bytes_per_pixel(c, d),
                    bytes_per_line(c, d, w),
                    (h * bytes_per_line(c, d, w)) as nat,
                );
            }
        }
        let rgba = self.to_rgba_vec(unfiltered.as_slice());
        match rgba {
            Ok(v) => {
                proof {
                    let w = width as int;
                    let h = height as int;
                    assert forall|i: int| 0 <= i < w * h implies #[trigger] source_pixel(
                        self.pixel_type_view()->Some_0,
                        self.transparency_view(),
                        self.palette_view(),
                        unfiltered@,
                        self.interlaced(),
                        w,
                        h,
                        i % w,
                        i / w,
                    ) is Ok by {
                        assert(pixel_matches(
                            v@,
                            i,
                            self.pixel_type_view()->Some_0,
                            self.transparency_view(),
                            self.palette_view(),
                            unfiltered@,
                            self.interlaced(),
                            w,
                            h,
                        ));
                    }
                }
                Ok(v)
            },
            Err(code) => {
                let reason = self.fail(code);
                assert(codes_of(self.errors_view()).subrange(0, c0.len() as int) =~= c0);
                Err(reason)
            },
        }
    }
}

/// Decodes a whole PNG byte stream. On success, the RGBA8 pixels and the
/// recoverable errors met on the way; otherwise every error recorded, the one
/// that stopped the decode last.
pub fn decode(raw_bytes: Vec<u8>, options: PngDecoderOptions) -> (r: Result<
    PngDecoderResult,
    Vec<PngDecodeError>,
>)
    ensures
        ({
            let outcome = png_outcome(raw_bytes@, options.fail_fast, options.validate_crc);
            &&& !outcome.1 ==> r is Err && codes_of(r->Err_0@) == outcome.0
            &&& outcome.1 ==> exists|d: PngDecoder|
                {
                    &&& d.input_view() == raw_bytes@
                    &&& d.options_view() == options
                    &&& d.parsed()
                    &&& d.holds(png_image(raw_bytes@, options.fail_fast, options.validate_crc))
                    &&& (r is Ok <==> d.image_decodable())
                    &&& r is Ok ==> d.decodes_to(r->Ok_0.bytes@) && r->Ok_0.errors@
                        == d.errors_view() && codes_of(d.errors_view()) == outcome.0
                    &&& r is Err ==> r->Err_0@ == d.errors_view() && codes_of(d.errors_view()).len()
                        == outcome.0.len() + 1
                }
        }),
{
    let byte_reader = ByteReader::new(crate::byte_reader::ByteReaderMode::RAW, raw_bytes);
    let mut decoder = PngDecoder::new(byte_reader, options);
    let outcome = decoder.run();
    let ghost d = decoder;
    let errors = decoder.into_errors();
    let ghost po = png_outcome(raw_bytes@, options.fail_fast, options.validate_crc);
    match outcome {
        Ok(bytes) => {
            let r = Ok(PngDecoderResult { bytes, errors });
            assert(d.input_view() == raw_bytes@ && d.options_view() == options && d.parsed()
                && d.holds(png_image(raw_bytes@, options.fail_fast, options.validate_crc)) && (
            r is Ok <==> d.image_decodable()) && (r is Ok ==> d.decodes_to(r->Ok_0.bytes@)
                && r->Ok_0.errors@ == d.errors_view() && codes_of(d.errors_view()) == po.0));
            r
        },
        Err(_) => {
            let r: Result<PngDecoderResult, Vec<PngDecodeError>> = Err(errors);
            proof {
                if po.1 {
                    assert(d.input_view() == raw_bytes@ && d.options_view() == options && d.parsed()
                        && d.holds(png_image(raw_bytes@, options.fail_fast, options.validate_crc))
                        && (r is Ok <==> d.image_decodable()) && (r is Err ==> r->Err_0@
                        == d.errors_view() && codes_of(d.errors_view()).len() == po.0.len() + 1));
                }
            }
            r
        },
    }
}

} // verus!
