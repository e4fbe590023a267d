use vstd::prelude::*;

verus! {

/// A four-character code: the tag that opens every chunk and sub-record.
#[derive(Debug, Clone, Copy, PartialEq, Eq, Structural)]
pub struct FourCC(pub u8, pub u8, pub u8, pub u8);

impl FourCC {
    /// The code made of the four bytes of `b` starting at `p`.
    pub open spec fn spec_at(b: Seq<u8>, p: int) -> FourCC {
        FourCC(b[p], b[p + 1], b[p + 2], b[p + 3])
    }

    /// The four bytes of the code, in order.
    pub open spec fn spec_bytes(self) -> Seq<u8> {
        seq![self.0, self.1, self.2, self.3]
    }

    pub fn from_bytes(b: [u8; 4]) -> (r: FourCC)
        ensures
            r.spec_bytes() == b@,
    {
        let r = FourCC(b[0], b[1], b[2], b[3]);
        assert(r.spec_bytes() =~= b@);
        r
    }

    pub fn to_bytes(&self) -> (r: Vec<u8>)
        ensures
            r@ == self.spec_bytes(),
    {
        let r = vec![self.0, self.1, self.2, self.3];
        assert(r@ =~= self.spec_bytes());
        r
    }
}

/// Why a walk over a buffer stopped. Every offset is a byte position in the
/// buffer; `tag` names the chunk being read when the error came, where its
/// tag could be read (`None` at a boundary with fewer than four bytes left).
#[allow(inconsistent_fields)]
#[derive(Debug, Clone, Copy, PartialEq, Eq, Structural)]
pub enum ParseError {
    /// A read starting at `offset`, inside the chunk tagged `tag`, needs more
    /// bytes than remain.
    OutOfBounds { offset: usize, tag: Option<FourCC> },
    /// The tag at `offset` is not the one the decoder expects.
    TagMismatch { offset: usize },
    /// At `offset` the container header holds `tag` where "RIFF" or "WAVE"
    /// belongs, or (at offset 4, with tag "RIFF") a declared size that is
    /// not the buffer's length minus eight.
    MalformedContainer { offset: usize, tag: FourCC },
    /// No decoder accepted the chunk that starts at `offset` with `tag`.
    UnrecognizedChunk { offset: usize, tag: FourCC },
    /// The sub-record at `offset` crosses the end of its enclosing block, the
    /// chunk tagged `tag`.
    FramingMismatch { offset: usize, tag: FourCC },
    /// The walk ended at `position`, which is not the buffer's `length`;
    /// `tag` is the tag of the bytes left there, where four remain.
    TrailingOrMissingBytes { position: usize, length: usize, tag: Option<FourCC> },
}

} // verus!
