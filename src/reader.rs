use vstd::prelude::*;

use crate::bits::{signed32, i32_from_bits};
use crate::error::DecodeError;
use crate::text::{padded_string, trim_trailing_nul, decoded_text};

verus! {

/// Little-endian 16-bit value at byte `at`.
pub open spec fn le_u16(d: Seq<u8>, at: int) -> nat {
    (d[at] + 256 * d[at + 1]) as nat
}

/// Little-endian 32-bit value at byte `at`.
pub open spec fn le_u32(d: Seq<u8>, at: int) -> nat {
    (d[at] + 256 * d[at + 1] + 65536 * d[at + 2] + 16777216 * d[at + 3]) as nat
}

/// Little-endian 64-bit value at byte `at`.
pub open spec fn le_u64(d: Seq<u8>, at: int) -> nat {
    le_u32(d, at) + 4294967296 * le_u32(d, at + 4)
}

/// Little-endian signed 32-bit value at byte `at`.
pub open spec fn le_i32(d: Seq<u8>, at: int) -> int {
    signed32(le_u32(d, at))
}

/// Little-endian 64-bit encoding of `v`.
pub open spec fn le_u64_bytes(v: nat) -> Seq<u8> {
    Seq::new(8, |i: int| ((v / pow256(i)) % 256) as u8)
}

pub open spec fn pow256(i: int) -> nat
    decreases i,
{
    if i <= 0 {
        1
    } else {
        256 * pow256(i - 1)
    }
}

/// Copies `d[start..end]`.
pub fn copy_range(d: &[u8], start: usize, end: usize) -> (r: Vec<u8>)
    requires
        start <= end <= d@.len(),
    ensures
        r@ == d@.subrange(start as int, end as int),
{
    let mut out: Vec<u8> = Vec::new();
    let mut i: usize = start;
    while i < end
        invariant
            start <= i <= end <= d@.len(),
            out@ =~= d@.subrange(start as int, i as int),
        decreases end - i,
    {
        out.push(d[i]);
        i = i + 1;
    }
    out
}

/// A forward cursor over bytes, for the byte-aligned parts of the formats.
pub struct ByteReader {
    data: Vec<u8>,
    offset: usize,
}

impl ByteReader {
    pub closed spec fn bytes(&self) -> Seq<u8> {
        self.data@
    }

    /// The index of the next byte to be read.
    pub closed spec fn pos(&self) -> int {
        self.offset as int
    }

    pub open spec fn wf(&self) -> bool {
        0 <= self.pos() <= self.bytes().len()
    }

    /// Same buffer, cursor moved to `p`.
    pub open spec fn at(&self, other: &ByteReader, p: int) -> bool {
        other.bytes() == self.bytes() && other.pos() == p && other.wf()
    }

    /// Fewer than `n` bytes are left.
    pub open spec fn short(&self, n: int) -> bool {
        self.pos() + n > self.bytes().len()
    }

    pub fn new(data: Vec<u8>) -> (r: ByteReader)
        ensures
            r.bytes() == data@,
            r.pos() == 0,
            r.wf(),
    {
        ByteReader { data, offset: 0 }
    }

    pub fn position(&self) -> (r: usize)
        ensures
            r == self.pos(),
    {
        self.offset
    }

    pub fn len(&self) -> (r: usize)
        ensures
            r == self.bytes().len(),
    {
        self.data.len()
    }

    pub fn remaining(&self) -> (r: usize)
        requires
            self.wf(),
        ensures
            r == self.bytes().len() - self.pos(),
    {
        self.data.len() - self.offset
    }

    /// Moves the cursor to byte `p`; past the end is an error.
    pub fn seek(&mut self, p: usize) -> (r: Result<(), DecodeError>)
        requires
            old(self).wf(),
        ensures
            p <= old(self).bytes().len() ==> r is Ok && old(self).at(final(self), p as int),
            p > old(self).bytes().len() ==> r == Err::<(), DecodeError>(
                DecodeError::TruncatedInput,
            ) && old(self).at(final(self), old(self).pos()),
    {
        if p > self.data.len() {
            return Err(DecodeError::TruncatedInput);
        }
        self.offset = p;
        Ok(())
    }

    pub fn read_u8(&mut self) -> (r: Result<u8, DecodeError>)
        requires
            old(self).wf(),
        ensures
            !old(self).short(1) ==> r == Ok::<u8, DecodeError>(old(self).bytes()[old(self).pos()])
                && old(self).at(final(self), old(self).pos() + 1),
            old(self).short(1) ==> r == Err::<u8, DecodeError>(DecodeError::TruncatedInput)
                && old(self).at(final(self), old(self).pos()),
    {
        if self.offset >= self.data.len() {
            return Err(DecodeError::TruncatedInput);
        }
        let b = self.data[self.offset];
        self.offset = self.offset + 1;
        Ok(b)
    }

    pub fn read_u16(&mut self) -> (r: Result<u16, DecodeError>)
        requires
            old(self).wf(),
        ensures
            !old(self).short(2) ==> r is Ok && r->Ok_0 as nat == le_u16(
                old(self).bytes(),
                old(self).pos(),
            ) && old(self).at(final(self), old(self).pos() + 2),
            old(self).short(2) ==> r == Err::<u16, DecodeError>(DecodeError::TruncatedInput)
                && old(self).at(final(self), old(self).pos()),
    {
        if self.data.len() - self.offset < 2 {
            return Err(DecodeError::TruncatedInput);
        }
        let o = self.offset;
        let v = self.data[o] as u16 + (self.data[o + 1] as u16) * 256;
        self.offset = o + 2;
        Ok(v)
    }

    pub fn read_u32(&mut self) -> (r: Result<u32, DecodeError>)
        requires
            old(self).wf(),
        ensures
            !old(self).short(4) ==> r is Ok && r->Ok_0 as nat == le_u32(
                old(self).bytes(),
                old(self).pos(),
            ) && old(self).at(final(self), old(self).pos() + 4),
            old(self).short(4) ==> r == Err::<u32, DecodeError>(DecodeError::TruncatedInput)
                && old(self).at(final(self), old(self).pos()),
    {
        if self.data.len() - self.offset < 4 {
            return Err(DecodeError::TruncatedInput);
        }
        let o = self.offset;
        let v = self.data[o] as u32 + (self.data[o + 1] as u32) * 256 + (self.data[o + 2] as u32)
            * 65536 + (self.data[o + 3] as u32) * 16777216;
        self.offset = o + 4;
        Ok(v)
    }

    pub fn read_i32(&mut self) -> (r: Result<i32, DecodeError>)
        requires
            old(self).wf(),
        ensures
            !old(self).short(4) ==> r is Ok && r->Ok_0 as int == le_i32(
                old(self).bytes(),
                old(self).pos(),
            ) && old(self).at(final(self), old(self).pos() + 4),
            old(self).short(4) ==> r == Err::<i32, DecodeError>(DecodeError::TruncatedInput)
                && old(self).at(final(self), old(self).pos()),
    {
        let v = self.read_u32()?;
        Ok(i32_from_bits(v))
    }

    /// Reads the next `len` bytes.
    pub fn read_bytes(&mut self, len: usize) -> (r: Result<Vec<u8>, DecodeError>)
        requires
            old(self).wf(),
        ensures
            !old(self).short(len as int) ==> r is Ok && r->Ok_0@ == old(self).bytes().subrange(
                old(self).pos(),
                old(self).pos() + len,
            ) && old(self).at(final(self), old(self).pos() + len),
            old(self).short(len as int) ==> r == Err::<Vec<u8>, DecodeError>(
                DecodeError::TruncatedInput,
            ) && old(self).at(final(self), old(self).pos()),
    {
        if self.data.len() - self.offset < len {
            return Err(DecodeError::TruncatedInput);
        }
        let o = self.offset;
        let v = copy_range(self.data.as_slice(), o, o + len);
        self.offset = o + len;
        Ok(v)
    }

    /// Reads a `len`-byte text field padded with zero bytes at its end.
    pub fn read_string(&mut self, len: usize) -> (r: Result<String, DecodeError>)
        requires
            old(self).wf(),
        ensures
            !old(self).short(len as int) ==> r is Ok && r->Ok_0@ == decoded_text(
                trim_trailing_nul(
                    old(self).bytes().subrange(old(self).pos(), old(self).pos() + len),
                ),
            ) && old(self).at(final(self), old(self).pos() + len),
            old(self).short(len as int) ==> r == Err::<String, DecodeError>(
                DecodeError::TruncatedInput,
            ) && old(self).at(final(self), old(self).pos()),
    {
        let b = self.read_bytes(len)?;
        Ok(padded_string(b.as_slice()))
    }
}

} // verus!
