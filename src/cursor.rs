use vstd::prelude::*;

use crate::error::{FourCC, ParseError};

verus! {

/// The little-endian 16-bit integer in the bytes `p`, `p + 1` of `b`.
pub open spec fn le_u16_at(b: Seq<u8>, p: int) -> u16 {
    (b[p] as int + 256 * b[p + 1] as int) as u16
}

/// The little-endian 32-bit integer in the bytes `p` .. `p + 4` of `b`.
pub open spec fn le_u32_at(b: Seq<u8>, p: int) -> u32 {
    (b[p] as int + 256 * b[p + 1] as int + 65536 * b[p + 2] as int + 16777216 * b[p
        + 3] as int) as u32
}

/// The big-endian 16-bit integer in the bytes `p`, `p + 1` of `b`.
pub open spec fn be_u16_at(b: Seq<u8>, p: int) -> u16 {
    (256 * b[p] as int + b[p + 1] as int) as u16
}

/// The big-endian 32-bit integer in the bytes `p` .. `p + 4` of `b`.
pub open spec fn be_u32_at(b: Seq<u8>, p: int) -> u32 {
    (16777216 * b[p] as int + 65536 * b[p + 1] as int + 256 * b[p + 2] as int + b[p
        + 3] as int) as u32
}

/// The byte order of a fixed-width read.
#[derive(Debug, Clone, Copy, PartialEq, Eq, Structural)]
pub enum Endian {
    Little,
    Big,
}

pub open spec fn u16_at(b: Seq<u8>, p: int, e: Endian) -> u16 {
    match e {
        Endian::Little => le_u16_at(b, p),
        Endian::Big => be_u16_at(b, p),
    }
}

pub open spec fn u32_at(b: Seq<u8>, p: int, e: Endian) -> u32 {
    match e {
        Endian::Little => le_u32_at(b, p),
        Endian::Big => be_u32_at(b, p),
    }
}

/// A read position over a byte buffer. Every read is bounds-checked: one that
/// needs more bytes than remain fails with `OutOfBounds` at the current
/// position and leaves the position where it was.
#[derive(Clone, Copy)]
pub struct ContainerCursor<'a> {
    data: &'a [u8],
    pos: usize,
}

impl<'a> ContainerCursor<'a> {
    /// The buffer read from.
    pub closed spec fn bytes(&self) -> Seq<u8> {
        self.data@
    }

    /// The current read position.
    pub closed spec fn pos(&self) -> int {
        self.pos as int
    }

    pub closed spec fn wf(&self) -> bool {
        self.pos <= self.data@.len() <= usize::MAX
    }

    pub fn new(data: &'a [u8]) -> (r: Self)
        ensures
            r.wf(),
            r.bytes() == data@,
            r.pos() == 0,
    {
        let _ = data.len();
        ContainerCursor { data, pos: 0 }
    }

    pub fn position(&self) -> (r: usize)
        requires
            self.wf(),
        ensures
            r == self.pos(),
            r <= self.bytes().len() <= usize::MAX,
    {
        self.pos
    }

    pub fn len(&self) -> (r: usize)
        ensures
            r == self.bytes().len(),
    {
        self.data.len()
    }

    /// Whether at least `n` bytes remain after the position.
    pub fn has(&self, n: usize) -> (r: bool)
        requires
            self.wf(),
        ensures
            r == (self.pos() + n <= self.bytes().len()),
    {
        n <= self.data.len() - self.pos
    }

    /// Moves the position by `delta` bytes, forwards or backwards.
    pub fn seek_relative(&mut self, delta: i64) -> (r: Result<(), ParseError>)
        requires
            old(self).wf(),
        ensures
            final(self).wf(),
            final(self).bytes() == old(self).bytes(),
            0 <= old(self).pos() + delta <= old(self).bytes().len() ==> r is Ok && final(self).pos() == old(self).pos() + delta,
            !(0 <= old(self).pos() + delta <= old(self).bytes().len()) ==> r == Err::<
                (),
                ParseError,
            >(ParseError::OutOfBounds { offset: old(self).pos() as usize, tag: None })
                && final(self).pos() == old(self).pos(),
    {
        let p = self.pos as i128 + delta as i128;
        if 0 <= p && p <= self.data.len() as i128 {
            self.pos = p as usize;
            Ok(())
        } else {
            Err(ParseError::OutOfBounds { offset: self.pos, tag: None })
        }
    }

    pub fn read_u8(&mut self) -> (r: Result<u8, ParseError>)
        requires
            old(self).wf(),
        ensures
            final(self).wf(),
            final(self).bytes() == old(self).bytes(),
            old(self).pos() + 1 <= old(self).bytes().len() ==> r == Ok::<u8, ParseError>(
                old(self).bytes()[old(self).pos()],
            ) && final(self).pos() == old(self).pos() + 1,
            old(self).pos() + 1 > old(self).bytes().len() ==> r == Err::<u8, ParseError>(
                ParseError::OutOfBounds { offset: old(self).pos() as usize, tag: None },
            ) && final(self).pos() == old(self).pos(),
    {
        if self.pos < self.data.len() {
            let v = self.data[self.pos];
            self.pos = self.pos + 1;
            Ok(v)
        } else {
            Err(ParseError::OutOfBounds { offset: self.pos, tag: None })
        }
    }

    pub fn read_u16(&mut self, e: Endian) -> (r: Result<u16, ParseError>)
        requires
            old(self).wf(),
        ensures
            final(self).wf(),
            final(self).bytes() == old(self).bytes(),
            old(self).pos() + 2 <= old(self).bytes().len() ==> r == Ok::<u16, ParseError>(
                u16_at(old(self).bytes(), old(self).pos(), e),
            ) && final(self).pos() == old(self).pos() + 2,
            old(self).pos() + 2 > old(self).bytes().len() ==> r == Err::<u16, ParseError>(
                ParseError::OutOfBounds { offset: old(self).pos() as usize, tag: None },
            ) && final(self).pos() == old(self).pos(),
    {
        if 2 <= self.data.len() - self.pos {
            let b0 = self.data[self.pos] as u16;
            let b1 = self.data[self.pos + 1] as u16;
            self.pos = self.pos + 2;
            match e {
                Endian::Little => Ok(b0 + 256 * b1),
                Endian::Big => Ok(256 * b0 + b1),
            }
        } else {
            Err(ParseError::OutOfBounds { offset: self.pos, tag: None })
        }
    }

    pub fn read_u32(&mut self, e: Endian) -> (r: Result<u32, ParseError>)
        requires
            old(self).wf(),
        ensures
            final(self).wf(),
            final(self).bytes() == old(self).bytes(),
            old(self).pos() + 4 <= old(self).bytes().len() ==> r == Ok::<u32, ParseError>(
                u32_at(old(self).bytes(), old(self).pos(), e),
            ) && final(self).pos() == old(self).pos() + 4,
            old(self).pos() + 4 > old(self).bytes().len() ==> r == Err::<u32, ParseError>(
                ParseError::OutOfBounds { offset: old(self).pos() as usize, tag: None },
            ) && final(self).pos() == old(self).pos(),
    {
        if 4 <= self.data.len() - self.pos {
            let b0 = self.data[self.pos] as u32;
            let b1 = self.data[self.pos + 1] as u32;
            let b2 = self.data[self.pos + 2] as u32;
            let b3 = self.data[self.pos + 3] as u32;
            self.pos = self.pos + 4;
            match e {
                Endian::Little => Ok(b0 + 256 * b1 + 65536 * b2 + 16777216 * b3),
                Endian::Big => Ok(16777216 * b0 + 65536 * b1 + 256 * b2 + b3),
            }
        } else {
            Err(ParseError::OutOfBounds { offset: self.pos, tag: None })
        }
    }

    /// Reads a four-character code.
    pub fn read_tag(&mut self) -> (r: Result<FourCC, ParseError>)
        requires
            old(self).wf(),
        ensures
            final(self).wf(),
            final(self).bytes() == old(self).bytes(),
            old(self).pos() + 4 <= old(self).bytes().len() ==> r == Ok::<FourCC, ParseError>(
                FourCC::spec_at(old(self).bytes(), old(self).pos()),
            ) && final(self).pos() == old(self).pos() + 4,
            old(self).pos() + 4 > old(self).bytes().len() ==> r == Err::<FourCC, ParseError>(
                ParseError::OutOfBounds { offset: old(self).pos() as usize, tag: None },
            ) && final(self).pos() == old(self).pos(),
    {
        if 4 <= self.data.len() - self.pos {
            let p = self.pos;
            let t = FourCC(self.data[p], self.data[p + 1], self.data[p + 2], self.data[p + 3]);
            self.pos = p + 4;
            Ok(t)
        } else {
            Err(ParseError::OutOfBounds { offset: self.pos, tag: None })
        }
    }

    /// Reads `n` raw bytes.
    pub fn read_bytes(&mut self, n: usize) -> (r: Result<Vec<u8>, ParseError>)
        requires
            old(self).wf(),
        ensures
            final(self).wf(),
            final(self).bytes() == old(self).bytes(),
            old(self).pos() + n <= old(self).bytes().len() ==> r is Ok && r->Ok_0@ == old(self).bytes().subrange(old(self).pos(), old(self).pos() + n) && final(self).pos() == old(self).pos() + n,
            old(self).pos() + n > old(self).bytes().len() ==> r == Err::<Vec<u8>, ParseError>(
                ParseError::OutOfBounds { offset: old(self).pos() as usize, tag: None },
            ) && final(self).pos() == old(self).pos(),
    {
        if n <= self.data.len() - self.pos {
            let start = self.pos;
            let end: usize = start + n;
            let mut out: Vec<u8> = Vec::with_capacity(n);
            let mut i: usize = 0;
            while i < n
                invariant
                    self.wf(),
                    self.pos == start,
                    end == start + n,
                    end <= self.data@.len(),
                    i <= n,
                    out@ == self.data@.subrange(start as int, start + i),
                decreases n - i,
            {
                out.push(self.data[start + i]);
                i = i + 1;
                assert(out@ =~= self.data@.subrange(start as int, start + i));
            }
            self.pos = end;
            Ok(out)
        } else {
            Err(ParseError::OutOfBounds { offset: self.pos, tag: None })
        }
    }
}

} // verus!
