//! The compressed image stream. IDAT payloads are collected in order; chunk
//! boundaries carry no meaning, so the stream is inflated once it is complete.
use vstd::prelude::*;

use crate::errors::PngDecodeErrorCode;

verus! {

/// What zlib decompression (RFC 1950 wrapping RFC 1951, Adler-32 checked)
/// makes of a byte stream: the inflated bytes, or `None` for an invalid stream.
pub uninterp spec fn zlib_inflated(data: Seq<u8>) -> Option<Seq<u8>>;

/// Relies on `miniz_oxide::inflate::decompress_to_vec_zlib`: it inflates a
/// complete zlib stream into a vector, and fails on an invalid or truncated one.
/// An empty input is kept out: the function grows its output buffer from
/// twice the input length.
#[verifier::external_body]
fn inflate_zlib(data: &[u8]) -> (r: Option<Vec<u8>>)
    requires
        data@.len() > 0,
    ensures
        match r {
            Some(v) => zlib_inflated(data@) == Some(v@),
            None => zlib_inflated(data@) is None,
        },
{
    miniz_oxide::inflate::decompress_to_vec_zlib(data).ok()
}

/// The concatenation of the slices, in order.
pub open spec fn concat_parts(parts: Seq<Seq<u8>>) -> Seq<u8>
    decreases parts.len(),
{
    if parts.len() == 0 {
        Seq::empty()
    } else {
        concat_parts(parts.drop_last()) + parts.last()
    }
}

/// The stream made of the slices, with the empty ones left out.
pub open spec fn non_empty_parts(parts: Seq<Seq<u8>>) -> Seq<Seq<u8>> {
    parts.filter(|p: Seq<u8>| p.len() > 0)
}

/// Empty slices do not change the stream: feeding them interleaved with the
/// others gives the stream of the others alone.
pub proof fn lemma_empty_parts_ignored(parts: Seq<Seq<u8>>)
    ensures
        concat_parts(parts) == concat_parts(non_empty_parts(parts)),
    decreases parts.len(),
{
    if parts.len() > 0 {
        let init = parts.drop_last();
        lemma_empty_parts_ignored(init);
        reveal(Seq::filter);
        assert(parts =~= init.push(parts.last()));
        assert(init.push(parts.last()).filter(|p: Seq<u8>| p.len() > 0) == if parts.last().len() > 0 {
            init.filter(|p: Seq<u8>| p.len() > 0).push(parts.last())
        } else {
            init.filter(|p: Seq<u8>| p.len() > 0)
        });
        if parts.last().len() == 0 {
            assert(concat_parts(parts) =~= concat_parts(init));
        } else {
            let f = non_empty_parts(parts);
            assert(f.drop_last() =~= non_empty_parts(init));
        }
    }
}

/// Collects the compressed image data across IDAT chunks.
pub struct ZlibDecompressStream {
    in_buffer: Vec<u8>,
}

impl ZlibDecompressStream {
    /// The compressed bytes received so far.
    pub closed spec fn data(&self) -> Seq<u8> {
        self.in_buffer@
    }

    pub fn new() -> (r: Self)
        ensures
            r.data() == Seq::<u8>::empty(),
    {
        ZlibDecompressStream { in_buffer: Vec::new() }
    }

    /// Appends the payload of one IDAT chunk.
    pub fn decompress(&mut self, raw_image_bytes: &[u8])
        ensures
            final(self).data() == old(self).data() + raw_image_bytes@,
    {
        let mut i: usize = 0;
        let ghost start = self.in_buffer@;
        while i < raw_image_bytes.len()
            invariant
                i <= raw_image_bytes@.len(),
                self.in_buffer@ == start + raw_image_bytes@.subrange(0, i as int),
            decreases raw_image_bytes@.len() - i,
        {
            self.in_buffer.push(raw_image_bytes[i]);
            i = i + 1;
            assert(self.in_buffer@ =~= start + raw_image_bytes@.subrange(0, i as int));
        }
        assert(raw_image_bytes@.subrange(0, i as int) =~= raw_image_bytes@);
    }

    /// Inflates the collected stream. `InflateFailed` when it is empty or not
    /// a valid zlib stream.
    pub fn get_out_buffer(&self) -> (r: Result<Vec<u8>, PngDecodeErrorCode>)
        ensures
            match r {
                Ok(v) => self.data().len() > 0 && zlib_inflated(self.data()) == Some(v@),
                Err(e) => e == PngDecodeErrorCode::InflateFailed && (self.data().len() == 0
                    || zlib_inflated(self.data()) is None),
            },
    {
        if self.in_buffer.len() == 0 {
            return Err(PngDecodeErrorCode::InflateFailed);
        }
        match inflate_zlib(self.in_buffer.as_slice()) {
            Some(v) => Ok(v),
            None => Err(PngDecodeErrorCode::InflateFailed),
        }
    }
}

} // verus!
