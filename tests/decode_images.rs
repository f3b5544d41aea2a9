use png_rs::chunk_helpers::ColorType;
use png_rs::decoder::{decode, PngDecoderOptions};
use png_rs::errors::PngDecodeErrorCode;

const SIGNATURE: [u8; 8] = [137, 80, 78, 71, 13, 10, 26, 10];

fn chunk(kind: &[u8; 4], data: &[u8]) -> Vec<u8> {
    let mut out = Vec::new();
    out.extend_from_slice(&(data.len() as u32).to_be_bytes());
    out.extend_from_slice(kind);
    out.extend_from_slice(data);
    let mut covered = kind.to_vec();
    covered.extend_from_slice(data);
    out.extend_from_slice(&crc32fast::hash(&covered).to_be_bytes());
    out
}

fn ihdr(width: u32, height: u32, bit_depth: u8, color_type: u8, interlace: u8) -> Vec<u8> {
    let mut data = Vec::new();
    data.extend_from_slice(&width.to_be_bytes());
    data.extend_from_slice(&height.to_be_bytes());
    data.extend_from_slice(&[bit_depth, color_type, 0, 0, interlace]);
    chunk(b"IHDR", &data)
}

fn zlib(raw: &[u8]) -> Vec<u8> {
    miniz_oxide::deflate::compress_to_vec_zlib(raw, 6)
}

/// A PNG with the given header, extra chunks before the image data, and the
/// compressed scanlines split into the given IDAT payload sizes.
fn png(header: Vec<u8>, extra: &[Vec<u8>], raw: &[u8]) -> Vec<u8> {
    let mut out = SIGNATURE.to_vec();
    out.extend(header);
    for c in extra {
        out.extend_from_slice(c);
    }
    out.extend(chunk(b"IDAT", &zlib(raw)));
    out.extend(chunk(b"IEND", &[]));
    out
}

/// Unfiltered scanlines (filter type 0) from rows of bytes.
fn rows_to_raw(rows: &[Vec<u8>]) -> Vec<u8> {
    let mut raw = Vec::new();
    for r in rows {
        raw.push(0);
        raw.extend_from_slice(r);
    }
    raw
}

fn opts() -> PngDecoderOptions {
    PngDecoderOptions::new(false, true)
}

fn rgb_pixels(w: usize, h: usize) -> Vec<Vec<[u8; 3]>> {
    (0..h)
        .map(|y| (0..w).map(|x| [(x * 8) as u8, (y * 8) as u8, ((x + y) * 4) as u8]).collect())
        .collect()
}

fn adam7_raw(pixels: &[Vec<[u8; 3]>], w: usize, h: usize) -> Vec<u8> {
    let starts = [(0, 0, 8, 8), (4, 0, 8, 8), (0, 4, 4, 8), (2, 0, 4, 4), (0, 2, 2, 4), (1, 0, 2, 2), (0, 1, 1, 2)];
    let mut raw = Vec::new();
    for (x0, y0, dx, dy) in starts {
        let mut y = y0;
        while y < h {
            let mut line = Vec::new();
            let mut x = x0;
            while x < w {
                line.extend_from_slice(&pixels[y][x]);
                x += dx;
            }
            if !line.is_empty() {
                raw.push(0);
                raw.extend(line);
            }
            y += dy;
        }
    }
    raw
}

#[test]
fn grayscale_1bit_32x32_decodes_to_4096_bytes() {
    let rows: Vec<Vec<u8>> = (0..32).map(|y| vec![if y % 2 == 0 { 0b1010_1010 } else { 0x0f }; 4]).collect();
    let res = decode(png(ihdr(32, 32, 1, 0, 0), &[], &rows_to_raw(&rows)), opts()).unwrap();
    assert_eq!(res.bytes.len(), 4096);
    assert!(res.errors.is_empty());
    assert_eq!(&res.bytes[0..8], &[255, 255, 255, 255, 0, 0, 0, 255]);
    let second_row = 32 * 4;
    assert_eq!(&res.bytes[second_row..second_row + 4], &[0, 0, 0, 255]);
    assert_eq!(&res.bytes[second_row + 16..second_row + 20], &[255, 255, 255, 255]);
}

#[test]
fn truecolor_8bit_32x32_decodes_to_4096_bytes() {
    let pixels = rgb_pixels(32, 32);
    let rows: Vec<Vec<u8>> = pixels.iter().map(|r| r.iter().flatten().copied().collect()).collect();
    let res = decode(png(ihdr(32, 32, 8, 2, 0), &[], &rows_to_raw(&rows)), opts()).unwrap();
    assert_eq!(res.bytes.len(), 4096);
    let at = |x: usize, y: usize| (y * 32 + x) * 4;
    assert_eq!(&res.bytes[at(3, 5)..at(3, 5) + 4], &[24, 40, 32, 255]);
}

#[test]
fn interlaced_truecolor_matches_non_interlaced() {
    let pixels = rgb_pixels(32, 32);
    let rows: Vec<Vec<u8>> = pixels.iter().map(|r| r.iter().flatten().copied().collect()).collect();
    let plain = decode(png(ihdr(32, 32, 8, 2, 0), &[], &rows_to_raw(&rows)), opts()).unwrap();
    let interlaced = decode(png(ihdr(32, 32, 8, 2, 1), &[], &adam7_raw(&pixels, 32, 32)), opts()).unwrap();
    assert_eq!(plain.bytes, interlaced.bytes);
}

#[test]
fn interlaced_odd_size_matches_non_interlaced() {
    let pixels = rgb_pixels(5, 3);
    let rows: Vec<Vec<u8>> = pixels.iter().map(|r| r.iter().flatten().copied().collect()).collect();
    let plain = decode(png(ihdr(5, 3, 8, 2, 0), &[], &rows_to_raw(&rows)), opts()).unwrap();
    let interlaced = decode(png(ihdr(5, 3, 8, 2, 1), &[], &adam7_raw(&pixels, 5, 3)), opts()).unwrap();
    assert_eq!(plain.bytes.len(), 60);
    assert_eq!(plain.bytes, interlaced.bytes);
}

#[test]
fn indexed_with_transparent_entry() {
    let palette = chunk(b"PLTE", &[10, 20, 30, 40, 50, 60]);
    let trns = chunk(b"tRNS", &[0]);
    let rows = vec![vec![0, 1, 1, 0], vec![1, 1, 0, 1]];
    let res = decode(png(ihdr(4, 2, 8, 3, 0), &[palette, trns], &rows_to_raw(&rows)), opts()).unwrap();
    let alphas: Vec<u8> = res.bytes.chunks(4).map(|p| p[3]).collect();
    assert_eq!(alphas, vec![0, 255, 255, 0, 255, 255, 0, 255]);
    assert_eq!(&res.bytes[0..4], &[10, 20, 30, 0]);
    assert_eq!(&res.bytes[4..8], &[40, 50, 60, 255]);
}

#[test]
fn corrupted_signature_is_recoverable() {
    let rows = vec![vec![0xff; 1]];
    let mut bytes = png(ihdr(8, 1, 1, 0, 0), &[], &rows_to_raw(&rows));
    bytes[0] = 137 & 0x7f;
    let res = decode(bytes, opts()).unwrap();
    assert_eq!(res.errors.len(), 1);
    assert_eq!(res.errors[0].code, PngDecodeErrorCode::InvalidSignature(0x0950_4e47_0d0a_1a0a));
    assert!(res.errors[0].is_recoverable);
    assert_eq!(res.bytes.len(), 32);
}

#[test]
fn corrupted_signature_fails_fast() {
    let rows = vec![vec![0xff; 1]];
    let mut bytes = png(ihdr(8, 1, 1, 0, 0), &[], &rows_to_raw(&rows));
    bytes[0] = 9;
    let errs = decode(bytes, PngDecoderOptions::new(true, true)).unwrap_err();
    assert_eq!(errs.len(), 1);
    assert!(matches!(errs[0].code, PngDecodeErrorCode::InvalidSignature(_)));
}

#[test]
fn corrupted_header_crc_is_reported_and_decoding_goes_on() {
    let rows = vec![vec![7u8; 2]; 2];
    let mut bytes = png(ihdr(2, 2, 8, 0, 0), &[], &rows_to_raw(&rows));
    let crc_at = 8 + 8 + 13;
    bytes[crc_at] ^= 0xff;
    let res = decode(bytes.clone(), opts()).unwrap();
    assert_eq!(res.errors.len(), 1);
    match res.errors[0].code {
        PngDecodeErrorCode::CrcMismatch(expected, actual) => {
            assert_eq!(expected, crc32fast::hash(&bytes[12..29]));
            assert_ne!(expected, actual);
        }
        other => panic!("unexpected {:?}", other),
    }
    assert_eq!(res.bytes, vec![7, 7, 7, 255].repeat(4));
    let unchecked = decode(bytes, PngDecoderOptions::new(false, false)).unwrap();
    assert!(unchecked.errors.is_empty());
}

#[test]
fn bit_depth_zero_truecolor_is_unrecoverable() {
    let bytes = png(ihdr(2, 2, 0, 2, 0), &[], &[0, 0, 0, 0, 0, 0, 0]);
    let errs = decode(bytes, opts()).unwrap_err();
    assert_eq!(errs.len(), 1);
    assert_eq!(errs[0].code, PngDecodeErrorCode::UnsupportedBitDepth(0));
    assert!(!errs[0].is_recoverable);
}

fn one_pixel(color_type: u8, bit_depth: u8, line: &[u8], extra: &[Vec<u8>]) -> Vec<u8> {
    let mut raw = vec![0];
    raw.extend_from_slice(line);
    let res = decode(png(ihdr(1, 1, bit_depth, color_type, 0), extra, &raw), opts()).unwrap();
    assert!(res.errors.is_empty());
    res.bytes
}

#[test]
fn one_by_one_images_of_every_kind() {
    assert_eq!(one_pixel(0, 1, &[0b1000_0000], &[]), vec![255, 255, 255, 255]);
    assert_eq!(one_pixel(0, 2, &[0b1000_0000], &[]), vec![170, 170, 170, 255]);
    assert_eq!(one_pixel(0, 4, &[0b0101_0000], &[]), vec![85, 85, 85, 255]);
    assert_eq!(one_pixel(0, 8, &[77], &[]), vec![77, 77, 77, 255]);
    assert_eq!(one_pixel(0, 16, &[0x80, 0x00], &[]), vec![128, 128, 128, 255]);
    assert_eq!(one_pixel(2, 8, &[1, 2, 3], &[]), vec![1, 2, 3, 255]);
    assert_eq!(one_pixel(2, 16, &[0xff, 0xff, 0, 0, 0x01, 0x01], &[]), vec![255, 0, 1, 255]);
    let palette = chunk(b"PLTE", &[1, 2, 3, 4, 5, 6, 7, 8, 9, 10, 11, 12]);
    assert_eq!(one_pixel(3, 1, &[0b1000_0000], &[palette.clone()]), vec![4, 5, 6, 255]);
    assert_eq!(one_pixel(3, 2, &[0b1000_0000], &[palette.clone()]), vec![7, 8, 9, 255]);
    assert_eq!(one_pixel(3, 4, &[0b0011_0000], &[palette.clone()]), vec![10, 11, 12, 255]);
    assert_eq!(one_pixel(3, 8, &[0], &[palette]), vec![1, 2, 3, 255]);
    assert_eq!(one_pixel(4, 8, &[9, 200], &[]), vec![9, 9, 9, 200]);
    assert_eq!(one_pixel(4, 16, &[0, 0, 0xff, 0xff], &[]), vec![0, 0, 0, 255]);
    assert_eq!(one_pixel(6, 8, &[1, 2, 3, 4], &[]), vec![1, 2, 3, 4]);
    assert_eq!(one_pixel(6, 16, &[0, 0x80, 1, 0, 2, 0, 3, 0], &[]), vec![0, 1, 2, 3]);
}

#[test]
fn empty_image_data_chunks_change_nothing() {
    let rows = vec![vec![1u8, 2, 3, 4, 5, 6], vec![7, 8, 9, 10, 11, 12]];
    let compressed = zlib(&rows_to_raw(&rows));
    let mut single = SIGNATURE.to_vec();
    single.extend(ihdr(2, 2, 8, 2, 0));
    single.extend(chunk(b"IDAT", &compressed));
    single.extend(chunk(b"IEND", &[]));
    let mut split = SIGNATURE.to_vec();
    split.extend(ihdr(2, 2, 8, 2, 0));
    split.extend(chunk(b"IDAT", &[]));
    split.extend(chunk(b"IDAT", &compressed[..3]));
    split.extend(chunk(b"IDAT", &[]));
    split.extend(chunk(b"IDAT", &compressed[3..]));
    split.extend(chunk(b"IDAT", &[]));
    split.extend(chunk(b"IEND", &[]));
    let a = decode(single, opts()).unwrap();
    let b = decode(split, opts()).unwrap();
    assert_eq!(a.bytes, b.bytes);
    assert_eq!(a.bytes.len(), 16);
}

#[test]
fn sub_byte_padding_makes_no_extra_pixels() {
    let rows = vec![vec![0b1011_1111], vec![0b0101_1111]];
    let res = decode(png(ihdr(3, 2, 1, 0, 0), &[], &rows_to_raw(&rows)), opts()).unwrap();
    assert_eq!(res.bytes.len(), 3 * 2 * 4);
    let greys: Vec<u8> = res.bytes.chunks(4).map(|p| p[0]).collect();
    assert_eq!(greys, vec![255, 0, 255, 0, 255, 0]);
}

#[test]
fn grayscale_transparency_key() {
    let trns = chunk(b"tRNS", &[0, 77]);
    let res = decode(png(ihdr(2, 1, 8, 0, 0), &[trns], &rows_to_raw(&[vec![77, 78]])), opts()).unwrap();
    assert_eq!(res.bytes, vec![77, 77, 77, 0, 78, 78, 78, 255]);
}

#[test]
fn truecolor_transparency_key() {
    let trns = chunk(b"tRNS", &[0, 1, 0, 2, 0, 3]);
    let res = decode(png(ihdr(2, 1, 8, 2, 0), &[trns], &rows_to_raw(&[vec![1, 2, 3, 1, 2, 4]])), opts()).unwrap();
    assert_eq!(res.bytes, vec![1, 2, 3, 0, 1, 2, 4, 255]);
}

#[test]
fn transparency_for_alpha_color_type_is_recoverable() {
    let trns = chunk(b"tRNS", &[0, 1]);
    let res = decode(png(ihdr(1, 1, 8, 6, 0), &[trns], &[0, 1, 2, 3, 4]), opts()).unwrap();
    assert_eq!(res.errors.len(), 1);
    assert_eq!(res.errors[0].code, PngDecodeErrorCode::TransparencyForbidden);
    assert_eq!(res.bytes, vec![1, 2, 3, 4]);
}

#[test]
fn transparency_of_wrong_length_is_recoverable() {
    let trns = chunk(b"tRNS", &[0, 1, 2]);
    let res = decode(png(ihdr(1, 1, 8, 0, 0), &[trns], &[0, 1]), opts()).unwrap();
    assert_eq!(res.errors[0].code, PngDecodeErrorCode::InvalidTransparencyLength(ColorType::Greyscale, 3));
    assert_eq!(res.bytes, vec![1, 1, 1, 0]);
}

#[test]
fn short_transparency_chunk_leaves_pixels_opaque() {
    let trns = chunk(b"tRNS", &[0]);
    let res = decode(png(ihdr(1, 1, 8, 0, 0), &[trns], &[0, 0]), opts()).unwrap();
    assert_eq!(res.errors[0].code, PngDecodeErrorCode::InvalidTransparencyLength(ColorType::Greyscale, 1));
    assert_eq!(res.bytes, vec![0, 0, 0, 255]);
}

#[test]
fn palette_for_greyscale_is_recoverable() {
    let palette = chunk(b"PLTE", &[1, 2, 3]);
    let res = decode(png(ihdr(1, 1, 8, 0, 0), &[palette], &[0, 5]), opts()).unwrap();
    assert_eq!(res.errors[0].code, PngDecodeErrorCode::PaletteForbidden(ColorType::Greyscale));
    assert_eq!(res.bytes, vec![5, 5, 5, 255]);
}

#[test]
fn duplicate_palette_is_unrecoverable() {
    let palette = chunk(b"PLTE", &[1, 2, 3]);
    let errs = decode(png(ihdr(1, 1, 8, 3, 0), &[palette.clone(), palette], &[0, 0]), opts()).unwrap_err();
    assert_eq!(errs.last().unwrap().code, PngDecodeErrorCode::DuplicatePalette);
}

#[test]
fn palette_length_not_multiple_of_three() {
    let palette = chunk(b"PLTE", &[1, 2, 3, 4]);
    let errs = decode(png(ihdr(1, 1, 8, 3, 0), &[palette], &[0, 0]), opts()).unwrap_err();
    assert_eq!(errs[0].code, PngDecodeErrorCode::InvalidPaletteLength(4));
}

#[test]
fn palette_after_image_data_is_out_of_order() {
    let mut bytes = SIGNATURE.to_vec();
    bytes.extend(ihdr(1, 1, 8, 3, 0));
    bytes.extend(chunk(b"IDAT", &zlib(&[0, 0])));
    bytes.extend(chunk(b"PLTE", &[1, 2, 3]));
    bytes.extend(chunk(b"IEND", &[]));
    let errs = decode(bytes, opts()).unwrap_err();
    assert_eq!(errs[0].code, PngDecodeErrorCode::PaletteOutOfOrder);
}

#[test]
fn missing_palette_for_indexed_color() {
    let errs = decode(png(ihdr(1, 1, 8, 3, 0), &[], &[0, 0]), opts()).unwrap_err();
    assert_eq!(errs[0].code, PngDecodeErrorCode::MissingPalette(ColorType::IndexedColor));
}

#[test]
fn palette_index_out_of_range() {
    let palette = chunk(b"PLTE", &[1, 2, 3]);
    let errs = decode(png(ihdr(1, 1, 8, 3, 0), &[palette], &[0, 1]), opts()).unwrap_err();
    assert_eq!(errs[0].code, PngDecodeErrorCode::PaletteIndexOutOfRange(1));
}

#[test]
fn header_after_palette_is_unrecoverable() {
    let mut bytes = SIGNATURE.to_vec();
    bytes.extend(ihdr(1, 1, 8, 2, 0));
    bytes.extend(chunk(b"PLTE", &[1, 2, 3]));
    bytes.extend(ihdr(1, 1, 8, 2, 0));
    bytes.extend(chunk(b"IEND", &[]));
    let errs = decode(bytes, opts()).unwrap_err();
    assert_eq!(errs[0].code, PngDecodeErrorCode::HeaderAfterPalette);
}

#[test]
fn first_chunk_not_header() {
    let mut bytes = SIGNATURE.to_vec();
    bytes.extend(chunk(b"tEXt", b"hi"));
    bytes.extend(ihdr(1, 1, 8, 0, 0));
    bytes.extend(chunk(b"IDAT", &zlib(&[0, 9])));
    bytes.extend(chunk(b"IEND", &[]));
    let res = decode(bytes, opts()).unwrap();
    assert_eq!(res.errors[0].code, PngDecodeErrorCode::FirstChunkNotHeader(u32::from_be_bytes(*b"tEXt")));
    assert_eq!(res.bytes, vec![9, 9, 9, 255]);
}

#[test]
fn unknown_chunks_are_skipped() {
    let text = chunk(b"gAMA", &[0, 0, 177, 143]);
    let res = decode(png(ihdr(1, 1, 8, 0, 0), &[text], &[0, 3]), opts()).unwrap();
    assert!(res.errors.is_empty());
    assert_eq!(res.bytes, vec![3, 3, 3, 255]);
}

#[test]
fn missing_header_before_end() {
    let mut bytes = SIGNATURE.to_vec();
    bytes.extend(chunk(b"IEND", &[]));
    let errs = decode(bytes, opts()).unwrap_err();
    assert_eq!(errs[0].code, PngDecodeErrorCode::FirstChunkNotHeader(u32::from_be_bytes(*b"IEND")));
    assert_eq!(errs[1].code, PngDecodeErrorCode::MissingHeader);
}

#[test]
fn header_of_wrong_length() {
    let mut bytes = SIGNATURE.to_vec();
    bytes.extend(chunk(b"IHDR", &[0, 0, 0, 1, 0, 0, 0, 1, 8, 0, 0, 0]));
    let errs = decode(bytes, opts()).unwrap_err();
    assert_eq!(errs[0].code, PngDecodeErrorCode::InvalidHeaderLength(12));
}

#[test]
fn unsupported_color_type() {
    let errs = decode(png(ihdr(1, 1, 8, 5, 0), &[], &[0, 0]), opts()).unwrap_err();
    assert_eq!(errs[0].code, PngDecodeErrorCode::UnsupportedColorType(5));
}

#[test]
fn unsupported_methods_are_recoverable() {
    let mut data = Vec::new();
    data.extend_from_slice(&1u32.to_be_bytes());
    data.extend_from_slice(&1u32.to_be_bytes());
    data.extend_from_slice(&[8, 0, 1, 2, 7]);
    let res = decode(png(chunk(b"IHDR", &data), &[], &[0, 4]), opts()).unwrap();
    let codes: Vec<PngDecodeErrorCode> = res.errors.iter().map(|e| e.code).collect();
    assert_eq!(
        codes,
        vec![
            PngDecodeErrorCode::UnsupportedCompressionMethod(1),
            PngDecodeErrorCode::UnsupportedFilterMethod(2),
            PngDecodeErrorCode::UnsupportedInterlaceMethod(7),
        ]
    );
    assert_eq!(res.bytes, vec![4, 4, 4, 255]);
}

#[test]
fn unknown_filter_type() {
    let errs = decode(png(ihdr(1, 1, 8, 0, 0), &[], &[5, 0]), opts()).unwrap_err();
    assert_eq!(errs[0].code, PngDecodeErrorCode::UnknownFilterType(5));
}

#[test]
fn invalid_zlib_stream() {
    let mut bytes = SIGNATURE.to_vec();
    bytes.extend(ihdr(1, 1, 8, 0, 0));
    bytes.extend(chunk(b"IDAT", &[1, 2, 3, 4]));
    bytes.extend(chunk(b"IEND", &[]));
    let errs = decode(bytes, opts()).unwrap_err();
    assert_eq!(errs[0].code, PngDecodeErrorCode::InflateFailed);
}

#[test]
fn image_data_too_short() {
    let errs = decode(png(ihdr(4, 4, 8, 0, 0), &[], &[0, 1, 2, 3, 4]), opts()).unwrap_err();
    assert_eq!(errs[0].code, PngDecodeErrorCode::ImageDataTooShort);
}

#[test]
fn truncated_input() {
    let mut bytes = png(ihdr(1, 1, 8, 0, 0), &[], &[0, 1]);
    bytes.truncate(20);
    let errs = decode(bytes, opts()).unwrap_err();
    assert_eq!(errs[0].code, PngDecodeErrorCode::UnexpectedEndOfData);
}

#[test]
fn filtered_scanlines_are_reconstructed() {
    let raw = vec![1, 10, 20, 5, 2, 1, 1, 1, 3, 2, 2, 2, 4, 1, 1, 1];
    let res = decode(png(ihdr(3, 4, 8, 0, 0), &[], &raw), opts()).unwrap();
    let greys: Vec<u8> = res.bytes.chunks(4).map(|p| p[0]).collect();
    assert_eq!(greys, vec![10, 30, 35, 11, 31, 36, 7, 21, 30, 8, 22, 31]);
}

fn pack_bits(samples: &[u8]) -> Vec<u8> {
    let mut out = vec![0u8; (samples.len() + 7) / 8];
    for (i, s) in samples.iter().enumerate() {
        out[i / 8] |= (s & 1) << (7 - i % 8);
    }
    out
}

#[test]
fn interlaced_one_bit_image_matches_non_interlaced() {
    let (w, h) = (10usize, 9usize);
    let sample = |x: usize, y: usize| ((x * 3 + y * 5) % 7 % 2) as u8;
    let rows: Vec<Vec<u8>> = (0..h).map(|y| pack_bits(&(0..w).map(|x| sample(x, y)).collect::<Vec<u8>>())).collect();
    let plain = decode(png(ihdr(w as u32, h as u32, 1, 0, 0), &[], &rows_to_raw(&rows)), opts()).unwrap();
    let starts = [(0, 0, 8, 8), (4, 0, 8, 8), (0, 4, 4, 8), (2, 0, 4, 4), (0, 2, 2, 4), (1, 0, 2, 2), (0, 1, 1, 2)];
    let mut raw = Vec::new();
    for (x0, y0, dx, dy) in starts {
        let mut y = y0;
        while y < h {
            let samples: Vec<u8> = (x0..w).step_by(dx).map(|x| sample(x, y)).collect();
            if !samples.is_empty() {
                raw.push(0);
                raw.extend(pack_bits(&samples));
            }
            y += dy;
        }
    }
    let interlaced = decode(png(ihdr(w as u32, h as u32, 1, 0, 1), &[], &raw), opts()).unwrap();
    assert_eq!(plain.bytes.len(), w * h * 4);
    assert_eq!(plain.bytes, interlaced.bytes);
}

#[test]
fn transparency_before_header() {
    let mut bytes = SIGNATURE.to_vec();
    bytes.extend(chunk(b"tRNS", &[0, 1]));
    bytes.extend(ihdr(1, 1, 8, 0, 0));
    let errs = decode(bytes, opts()).unwrap_err();
    assert_eq!(errs[0].code, PngDecodeErrorCode::FirstChunkNotHeader(u32::from_be_bytes(*b"tRNS")));
    assert_eq!(errs[1].code, PngDecodeErrorCode::TransparencyBeforeHeader);
    assert_eq!(errs.len(), 2);
}

#[test]
fn sixteen_bit_grey_transparency_key_is_normalized() {
    let trns = chunk(b"tRNS", &[0x80, 0x00]);
    let res = decode(png(ihdr(2, 1, 16, 0, 0), &[trns], &[0, 0x80, 0x10, 0x00, 0x00]), opts()).unwrap();
    assert_eq!(res.bytes, vec![128, 128, 128, 0, 0, 0, 0, 255]);
}
