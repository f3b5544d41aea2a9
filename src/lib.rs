//! A PNG decoder that turns a PNG byte stream into an 8-bit RGBA pixel buffer.
//!
//! The chunk state machine, the filter reconstruction, the Adam7
//! demultiplexing and the pixel conversion carry contracts that Verus proves.
//! CRC-32 and zlib inflation come from `crc32fast` and `miniz_oxide`.

pub mod bitmap;
pub mod byte_reader;
pub mod chunk_helpers;
pub mod chunk_stream;
pub mod chunk_types;
pub mod cli;
pub mod common;
pub mod decoder;
pub mod deinterlace;
pub mod errors;
pub mod image;
pub mod trns;
pub mod unfilter;
pub mod zlib;
