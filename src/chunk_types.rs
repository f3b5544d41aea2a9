//! The chunk types the decoder acts on.
use vstd::prelude::*;

verus! {

/// Type codes of the critical chunks and of the transparency chunk.
#[derive(Debug, Clone, Copy)]
pub struct ChunkTypes;

pub const IHDR: [u8; 4] = [73, 72, 68, 82];

pub const IDAT: [u8; 4] = [73, 68, 65, 84];

pub const IEND: [u8; 4] = [73, 69, 78, 68];

pub const PLTE: [u8; 4] = [80, 76, 84, 69];

#[allow(non_upper_case_globals)]
pub const tRNS: [u8; 4] = [116, 82, 78, 83];

/// The chunk a type code stands for.
#[derive(Debug, Clone, Copy, PartialEq, Eq, Structural)]
pub enum ChunkKind {
    Header,
    Palette,
    ImageData,
    Transparency,
    End,
    Other,
}

/// The kind of a four-byte chunk type; unknown types are `Other`.
pub open spec fn kind_of(t: Seq<u8>) -> ChunkKind {
    if t =~= IHDR@ {
        ChunkKind::Header
    } else if t =~= PLTE@ {
        ChunkKind::Palette
    } else if t =~= IDAT@ {
        ChunkKind::ImageData
    } else if t =~= tRNS@ {
        ChunkKind::Transparency
    } else if t =~= IEND@ {
        ChunkKind::End
    } else {
        ChunkKind::Other
    }
}

fn same_type(t: &[u8], code: [u8; 4]) -> (r: bool)
    requires
        t@.len() == 4,
    ensures
        r == (t@ =~= code@),
{
    let r = t[0] == code[0] && t[1] == code[1] && t[2] == code[2] && t[3] == code[3];
    proof {
        if r {
            assert(t@ =~= code@);
        }
    }
    r
}

impl ChunkTypes {
    /// Classifies a chunk type code.
    pub fn classify(t: &[u8]) -> (r: ChunkKind)
        requires
            t@.len() == 4,
        ensures
            r == kind_of(t@),
    {
        if same_type(t, IHDR) {
            ChunkKind::Header
        } else if same_type(t, PLTE) {
            ChunkKind::Palette
        } else if same_type(t, IDAT) {
            ChunkKind::ImageData
        } else if same_type(t, tRNS) {
            ChunkKind::Transparency
        } else if same_type(t, IEND) {
            ChunkKind::End
        } else {
            ChunkKind::Other
        }
    }
}

} // verus!
