//! Sequential reading of the PNG byte stream.
use vstd::prelude::*;

verus! {

/// Where the bytes came from: a file read by the caller, or bytes handed over directly.
#[derive(Debug, Clone, Copy, PartialEq, Eq, Structural)]
pub enum ByteReaderMode {
    FILE,
    RAW,
}

/// The big-endian value of four bytes.
pub open spec fn be_u32(b: Seq<u8>) -> u32 {
    (b[0] as int * 0x100_0000 + b[1] as int * 0x1_0000 + b[2] as int * 0x100 + b[3] as int) as u32
}

/// The big-endian value of eight bytes.
pub open spec fn be_u64(b: Seq<u8>) -> u64 {
    (be_u32(b.subrange(0, 4)) as int * 0x1_0000_0000 + be_u32(b.subrange(4, 8)) as int) as u64
}

/// A cursor over the whole input.
pub struct ByteReader {
    mode: ByteReaderMode,
    raw_bytes: Vec<u8>,
    current_byte_pos: usize,
}

impl ByteReader {
    /// All bytes of the input.
    pub closed spec fn data(&self) -> Seq<u8> {
        self.raw_bytes@
    }

    /// Number of bytes read so far.
    pub closed spec fn pos(&self) -> int {
        self.current_byte_pos as int
    }

    pub closed spec fn mode_view(&self) -> ByteReaderMode {
        self.mode
    }

    pub closed spec fn wf(&self) -> bool {
        self.current_byte_pos <= self.raw_bytes@.len()
    }

    pub fn new(mode: ByteReaderMode, raw_bytes: Vec<u8>) -> (r: Self)
        ensures
            r.wf(),
            r.data() == raw_bytes@,
            r.pos() == 0,
            r.mode_view() == mode,
    {
        ByteReader { mode, raw_bytes, current_byte_pos: 0 }
    }

    /// Where the bytes came from.
    pub fn mode(&self) -> (r: ByteReaderMode)
        ensures
            r == self.mode_view(),
    {
        self.mode
    }

    /// The next `n` bytes, or `None` (and no move) when fewer remain.
    pub fn read_next_n_bytes(&mut self, n: usize) -> (r: Option<Vec<u8>>)
        requires
            old(self).wf(),
        ensures
            final(self).wf(),
            final(self).data() == old(self).data(),
            r is Some ==> r->Some_0@.len() == n,
            old(self).pos() + n <= old(self).data().len() ==> r is Some && r->Some_0@ == old(
                self,
            ).data().subrange(old(self).pos(), old(self).pos() + n) && final(self).pos() == old(
                self,
            ).pos() + n,
            old(self).pos() + n > old(self).data().len() ==> r is None && final(self).pos() == old(
                self,
            ).pos(),
    {
        let pos = self.current_byte_pos;
        if n > self.raw_bytes.len() - pos {
            return None;
        }
        let bytes = vstd::slice::slice_to_vec(
            vstd::slice::slice_subrange(self.raw_bytes.as_slice(), pos, pos + n),
        );
        self.current_byte_pos = pos + n;
        Some(bytes)
    }

    /// The big-endian value of the first four bytes.
    pub fn read_next_u32_num(&self, four_bytes_chunk: &[u8]) -> (r: u32)
        requires
            four_bytes_chunk@.len() >= 4,
        ensures
            r == be_u32(four_bytes_chunk@),
    {
        four_bytes_chunk[0] as u32 * 0x100_0000 + four_bytes_chunk[1] as u32 * 0x1_0000
            + four_bytes_chunk[2] as u32 * 0x100 + four_bytes_chunk[3] as u32
    }

    /// The big-endian value of the first eight bytes.
    pub fn read_u64_num(&self, eight_bytes: &[u8]) -> (r: u64)
        requires
            eight_bytes@.len() >= 8,
        ensures
            r == be_u64(eight_bytes@.subrange(0, 8)),
    {
        let hi = self.read_next_u32_num(vstd::slice::slice_subrange(eight_bytes, 0, 4));
        let lo = self.read_next_u32_num(vstd::slice::slice_subrange(eight_bytes, 4, 8));
        assert(eight_bytes@.subrange(0, 8).subrange(0, 4) =~= eight_bytes@.subrange(0, 4));
        assert(eight_bytes@.subrange(0, 8).subrange(4, 8) =~= eight_bytes@.subrange(4, 8));
        hi as u64 * 0x1_0000_0000 + lo as u64
    }

    /// The next four bytes.
    pub fn read_next_4bytes(&mut self) -> (r: Option<Vec<u8>>)
        requires
            old(self).wf(),
        ensures
            final(self).wf(),
            final(self).data() == old(self).data(),
            r is Some ==> r->Some_0@.len() == 4,
            old(self).pos() + 4 <= old(self).data().len() ==> r is Some && r->Some_0@ == old(
                self,
            ).data().subrange(old(self).pos(), old(self).pos() + 4) && final(self).pos() == old(
                self,
            ).pos() + 4,
            old(self).pos() + 4 > old(self).data().len() ==> r is None && final(self).pos() == old(
                self,
            ).pos(),
    {
        self.read_next_n_bytes(4)
    }

    /// The next four bytes read as a big-endian number.
    pub fn read_next_4bytes_num(&mut self) -> (r: Option<u32>)
        requires
            old(self).wf(),
        ensures
            final(self).wf(),
            final(self).data() == old(self).data(),
            old(self).pos() + 4 <= old(self).data().len() ==> r == Some(
                be_u32(old(self).data().subrange(old(self).pos(), old(self).pos() + 4)),
            ) && final(self).pos() == old(self).pos() + 4,
            old(self).pos() + 4 > old(self).data().len() ==> r is None && final(self).pos() == old(
                self,
            ).pos(),
    {
        match self.read_next_4bytes() {
            Some(b) => Some(self.read_next_u32_num(b.as_slice())),
            None => None,
        }
    }

    pub fn get_current_byte_pos(&self) -> (r: usize)
        ensures
            r == self.pos(),
    {
        self.current_byte_pos
    }
}

} // verus!
