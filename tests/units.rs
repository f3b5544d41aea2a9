use png_rs::bitmap::{to_rgba_pixel_bytes, PixelType};
use png_rs::byte_reader::{ByteReader, ByteReaderMode};
use png_rs::chunk_helpers::{
    colortype_to_alpha_byte_length, colortype_to_channel, does_colortype_support_alpha_channel,
    get_supported_color_type_to_bit_depths, ColorType, InterlaceMethod,
};
use png_rs::chunk_types::{ChunkKind, ChunkTypes};
use png_rs::cli::Cli;
use png_rs::common::{calc_bytes_per_pixel_and_line, normalize_u16_to_u8};
use png_rs::deinterlace::{calc_interlaced_pixel_index, create_reduced_images};
use png_rs::errors::{recoverable_map, ForceExitReason, MultiErrorsManager, PngDecodeError, PngDecodeErrorCode};
use png_rs::trns::TransparencyChunk;
use png_rs::unfilter::UnfilterProcessor;
use png_rs::zlib::ZlibDecompressStream;

#[test]
fn paeth_of_equal_neighbours_is_that_value() {
    let p = UnfilterProcessor::new(1, 1, 1);
    for a in 0..=255u8 {
        assert_eq!(p.paeth_predictor(a, a, a), a);
    }
}

#[test]
fn paeth_picks_nearest_neighbour() {
    let p = UnfilterProcessor::new(1, 1, 1);
    assert_eq!(p.paeth_predictor(8, 21, 7), 21);
    assert_eq!(p.paeth_predictor(10, 20, 20), 10);
    assert_eq!(p.paeth_predictor(255, 0, 255), 0);
    assert_eq!(p.paeth_predictor(0, 255, 255), 0);
    assert_eq!(p.paeth_predictor(100, 50, 200), 50);
}

#[test]
fn average_first_line_of_zeros_stays_zero() {
    for bpp in 1..=8usize {
        let p = UnfilterProcessor::new(1, bpp, 16);
        let mut input = vec![3u8];
        input.extend(vec![0u8; 16]);
        assert_eq!(p.unfilter(&input).unwrap(), vec![0u8; 16]);
    }
}

#[test]
fn unfilter_with_two_byte_pixels() {
    let p = UnfilterProcessor::new(2, 2, 4);
    let input = [1, 1, 2, 3, 4, 4, 1, 1, 1, 1];
    assert_eq!(p.unfilter(&input).unwrap(), vec![1, 2, 4, 6, 2, 3, 5, 7]);
}

#[test]
fn unfilter_sub_wraps_modulo_256() {
    let p = UnfilterProcessor::new(1, 1, 3);
    assert_eq!(p.unfilter(&[1, 200, 100, 0]).unwrap(), vec![200, 44, 44]);
}

#[test]
fn unfilter_rejects_unknown_filter_type() {
    let p = UnfilterProcessor::new(2, 1, 1);
    assert_eq!(p.unfilter(&[0, 1, 9, 1]), Err(PngDecodeErrorCode::UnknownFilterType(9)));
}

#[test]
fn normalization_rounds_to_nearest() {
    assert_eq!(normalize_u16_to_u8(0), 0);
    assert_eq!(normalize_u16_to_u8(65535), 255);
    assert_eq!(normalize_u16_to_u8(257), 1);
    assert_eq!(normalize_u16_to_u8(128), 0);
    assert_eq!(normalize_u16_to_u8(129), 1);
    assert_eq!(normalize_u16_to_u8(32896), 128);
}

#[test]
fn bytes_per_pixel_and_line() {
    assert_eq!(calc_bytes_per_pixel_and_line(1, 1, 3), (1, 1));
    assert_eq!(calc_bytes_per_pixel_and_line(1, 1, 9), (1, 2));
    assert_eq!(calc_bytes_per_pixel_and_line(3, 16, 5), (6, 30));
    assert_eq!(calc_bytes_per_pixel_and_line(4, 8, 32), (4, 128));
    assert_eq!(calc_bytes_per_pixel_and_line(1, 4, 3), (1, 2));
}

#[test]
fn reduced_images_of_a_32_pixel_square() {
    let r = create_reduced_images(32, 32, 3, 8);
    let dims: Vec<(u32, u32)> = r.iter().map(|i| (i.pixel_width, i.pixel_height)).collect();
    assert_eq!(dims, vec![(4, 4), (4, 4), (8, 4), (8, 8), (16, 8), (16, 16), (32, 16)]);
    assert_eq!(r[0].bytes_per_line, 12);
    assert_eq!(r[6].bytes_per_line, 96);
    assert!(r.iter().all(|i| i.bytes_per_pixel == 3));
}

#[test]
fn reduced_images_of_a_small_image() {
    let r = create_reduced_images(5, 3, 1, 1);
    let dims: Vec<(u32, u32)> = r.iter().map(|i| (i.pixel_width, i.pixel_height)).collect();
    assert_eq!(dims, vec![(1, 1), (1, 1), (2, 0), (1, 1), (3, 1), (2, 2), (5, 1)]);
    assert_eq!(r[6].bytes_per_line, 1);
}

#[test]
fn interlaced_pixel_index() {
    assert_eq!(calc_interlaced_pixel_index(1, 2, 1, 32), 2080);
    assert_eq!(calc_interlaced_pixel_index(0, 0, 2, 32), 16);
    assert_eq!(calc_interlaced_pixel_index(1, 0, 3, 10), (4 * 10 + 4) * 4);
    assert_eq!(calc_interlaced_pixel_index(0, 1, 4, 10), (4 * 10 + 2) * 4);
    assert_eq!(calc_interlaced_pixel_index(2, 0, 5, 10), (2 * 10 + 4) * 4);
    assert_eq!(calc_interlaced_pixel_index(0, 1, 6, 10), (2 * 10 + 1) * 4);
    assert_eq!(calc_interlaced_pixel_index(3, 1, 7, 10), (3 * 10 + 3) * 4);
}

#[test]
fn color_type_tables() {
    assert_eq!(get_supported_color_type_to_bit_depths(ColorType::Greyscale), vec![1, 2, 4, 8, 16]);
    assert_eq!(get_supported_color_type_to_bit_depths(ColorType::IndexedColor), vec![1, 2, 4, 8]);
    assert_eq!(get_supported_color_type_to_bit_depths(ColorType::TruecolorAlpha), vec![8, 16]);
    assert_eq!(colortype_to_channel(ColorType::Truecolor), 3);
    assert_eq!(colortype_to_channel(ColorType::GreyscaleAlpha), 2);
    assert_eq!(colortype_to_alpha_byte_length(ColorType::Truecolor), 6);
    assert_eq!(colortype_to_alpha_byte_length(ColorType::IndexedColor), 0);
    assert!(does_colortype_support_alpha_channel(ColorType::GreyscaleAlpha));
    assert!(!does_colortype_support_alpha_channel(ColorType::IndexedColor));
    assert_eq!(ColorType::try_from_code(3), Ok(ColorType::IndexedColor));
    assert_eq!(ColorType::try_from_code(1), Err(PngDecodeErrorCode::UnsupportedColorType(1)));
    assert_eq!(InterlaceMethod::try_from_code(1), Ok(InterlaceMethod::Adam7));
    assert_eq!(InterlaceMethod::try_from_code(2), Err(PngDecodeErrorCode::UnsupportedInterlaceMethod(2)));
}

#[test]
fn pixel_types() {
    assert_eq!(PixelType::new(ColorType::Greyscale, 2), Ok(PixelType::Grayscale2));
    assert_eq!(PixelType::new(ColorType::TruecolorAlpha, 16), Ok(PixelType::RgbAlpha16));
    assert_eq!(
        PixelType::new(ColorType::Truecolor, 4),
        Err(PngDecodeErrorCode::ForbiddenCombination(ColorType::Truecolor, 4))
    );
}

#[test]
fn rgba_of_single_pixels() {
    let none: Option<TransparencyChunk> = None;
    let no_palette: Option<Vec<u8>> = None;
    let line = [0b0110_1100u8];
    assert_eq!(to_rgba_pixel_bytes(PixelType::Grayscale2, &none, &no_palette, 1, &line), Ok((170, 170, 170, 255)));
    assert_eq!(to_rgba_pixel_bytes(PixelType::Grayscale4, &none, &no_palette, 1, &line), Ok((204, 204, 204, 255)));
    assert_eq!(to_rgba_pixel_bytes(PixelType::Grayscale1, &none, &no_palette, 7, &line), Ok((0, 0, 0, 255)));
    let key = Some(TransparencyChunk::Grayscale(3));
    assert_eq!(to_rgba_pixel_bytes(PixelType::Grayscale2, &key, &no_palette, 3, &line), Ok((0, 0, 0, 255)));
    assert_eq!(to_rgba_pixel_bytes(PixelType::Grayscale2, &key, &no_palette, 2, &line), Ok((255, 255, 255, 0)));
    let rgb = [1u8, 2, 3, 4, 5, 6];
    let rgb_key = Some(TransparencyChunk::Rgb(4, 5, 6));
    assert_eq!(to_rgba_pixel_bytes(PixelType::Rgb8, &rgb_key, &no_palette, 1, &rgb), Ok((4, 5, 6, 0)));
    let palette = Some(vec![9u8, 8, 7, 6, 5, 4]);
    let alphas = Some(TransparencyChunk::Palette(vec![128]));
    assert_eq!(to_rgba_pixel_bytes(PixelType::Palette8, &alphas, &palette, 0, &[1, 0]), Ok((6, 5, 4, 255)));
    assert_eq!(to_rgba_pixel_bytes(PixelType::Palette8, &alphas, &palette, 1, &[1, 0]), Ok((9, 8, 7, 128)));
    assert_eq!(
        to_rgba_pixel_bytes(PixelType::Palette8, &alphas, &palette, 0, &[2]),
        Err(PngDecodeErrorCode::PaletteIndexOutOfRange(2))
    );
}

#[test]
fn transparency_chunks() {
    assert_eq!(TransparencyChunk::new(vec![0, 0xff], PixelType::Grayscale2), Ok(Some(TransparencyChunk::Grayscale(3))));
    assert_eq!(TransparencyChunk::new(vec![0xff, 0xff], PixelType::Grayscale16), Ok(Some(TransparencyChunk::Grayscale(255))));
    assert_eq!(
        TransparencyChunk::new(vec![0, 1, 0, 2, 0, 3], PixelType::Rgb8),
        Ok(Some(TransparencyChunk::Rgb(1, 2, 3)))
    );
    assert_eq!(
        TransparencyChunk::new(vec![1, 1, 2, 2, 3, 3], PixelType::Rgb16),
        Ok(Some(TransparencyChunk::Rgb(1, 2, 3)))
    );
    assert_eq!(TransparencyChunk::new(vec![5, 6], PixelType::Palette4), Ok(Some(TransparencyChunk::Palette(vec![5, 6]))));
    assert_eq!(TransparencyChunk::new(vec![5, 6], PixelType::RgbAlpha8), Ok(None));
    assert_eq!(
        TransparencyChunk::new(vec![5], PixelType::Grayscale8),
        Err(PngDecodeErrorCode::InvalidTransparencyLength(ColorType::Greyscale, 1))
    );
}

#[test]
fn byte_reader_reads_in_order() {
    let mut r = ByteReader::new(ByteReaderMode::RAW, vec![0, 0, 1, 2, 9, 8, 7]);
    assert_eq!(r.read_next_4bytes_num(), Some(258));
    assert_eq!(r.get_current_byte_pos(), 4);
    assert_eq!(r.read_next_n_bytes(4), None);
    assert_eq!(r.read_next_n_bytes(3), Some(vec![9, 8, 7]));
    assert_eq!(r.read_next_4bytes(), None);
    assert_eq!(r.read_next_u32_num(&[1, 2, 3, 4]), 0x0102_0304);
}

#[test]
fn chunk_types_are_classified() {
    assert_eq!(ChunkTypes::classify(b"IHDR"), ChunkKind::Header);
    assert_eq!(ChunkTypes::classify(b"tRNS"), ChunkKind::Transparency);
    assert_eq!(ChunkTypes::classify(b"IEND"), ChunkKind::End);
    assert_eq!(ChunkTypes::classify(b"gAMA"), ChunkKind::Other);
}

#[test]
fn zlib_stream_collects_and_inflates() {
    let raw: Vec<u8> = (0..200u32).map(|i| (i % 7) as u8).collect();
    let compressed = miniz_oxide::deflate::compress_to_vec_zlib(&raw, 6);
    let mut s = ZlibDecompressStream::new();
    assert_eq!(s.get_out_buffer(), Err(PngDecodeErrorCode::InflateFailed));
    s.decompress(&compressed[..5]);
    s.decompress(&[]);
    s.decompress(&compressed[5..]);
    assert_eq!(s.get_out_buffer(), Ok(raw));
}

#[test]
fn error_policy() {
    assert!(recoverable_map(PngDecodeErrorCode::CrcMismatch(1, 2)));
    assert!(!recoverable_map(PngDecodeErrorCode::DuplicatePalette));
    let mut tolerant = MultiErrorsManager::new(false);
    assert_eq!(tolerant.handle_err(PngDecodeError::new(PngDecodeErrorCode::TransparencyForbidden, 3)), Ok(()));
    assert_eq!(
        tolerant.handle_err(PngDecodeError::new(PngDecodeErrorCode::MissingHeader, 4)),
        Err(ForceExitReason::Unrecoverable)
    );
    assert_eq!(tolerant.errors().len(), 2);
    assert_eq!(tolerant.errors()[0].approx_byte_location, 3);
    let mut strict = MultiErrorsManager::new(true);
    assert_eq!(
        strict.handle_err(PngDecodeError::new(PngDecodeErrorCode::TransparencyForbidden, 3)),
        Err(ForceExitReason::FailFast)
    );
}

#[test]
fn cli_defaults_and_input() {
    let mut cli = Cli::new();
    assert!(!cli.fail_fast && !cli.verbose && !cli.debug && cli.validate_crc);
    cli.set_input_file_path("a.png".to_string());
    assert_eq!(cli.get_input_file_path(), "a.png");
    let o = cli.decoder_options();
    assert!(!o.fail_fast && o.validate_crc);
}
