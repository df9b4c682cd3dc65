//! Sequential reader over an immutable byte buffer.

use byte::BytesExt;
use vstd::prelude::*;

verus! {

/// Why decoding stopped.
#[derive(Debug, Clone, Copy, PartialEq, Eq, Structural)]
pub enum DecodeError {
    /// A read asked for more bytes than the buffer has left.
    Truncated,
}

/// The error type of the `byte` crate. Nothing is read out of it: every
/// failure of a read is reported as [`DecodeError::Truncated`].
#[verifier::external_type_specification]
#[verifier::external_body]
pub struct ExByteError(byte::Error);

/// The unsigned 16-bit little-endian number stored at `at`.
pub open spec fn le_u16(s: Seq<u8>, at: int) -> u16 {
    (s[at] as int + 0x100 * (s[at + 1] as int)) as u16
}

/// The signed 16-bit little-endian (two's complement) number stored at `at`.
pub open spec fn le_i16(s: Seq<u8>, at: int) -> i16 {
    let u = le_u16(s, at) as int;
    if u < 0x8000 {
        u as i16
    } else {
        (u - 0x1_0000) as i16
    }
}

/// The unsigned 32-bit little-endian number stored at `at`.
pub open spec fn le_u32(s: Seq<u8>, at: int) -> u32 {
    (s[at] as int + 0x100 * (s[at + 1] as int) + 0x1_0000 * (s[at + 2] as int) + 0x100_0000 * (s[at
        + 3] as int)) as u32
}

/// The signed 32-bit little-endian (two's complement) number stored at `at`.
pub open spec fn le_i32(s: Seq<u8>, at: int) -> i32 {
    let u = le_u32(s, at) as int;
    if u < 0x8000_0000 {
        u as i32
    } else {
        (u - 0x1_0000_0000) as i32
    }
}

/// `byte::BytesExt::read_with::<u8>` on a byte slice, little-endian context.
///
/// The read succeeds exactly when one byte is left at `offset`; it then
/// returns that byte and moves `offset` past it. A failed read leaves
/// `offset` alone.
#[verifier::external_body]
fn read_u8_at(bytes: &[u8], offset: &mut usize) -> (r: Result<u8, byte::Error>)
    ensures
        r is Ok <==> *old(offset) + 1 <= bytes@.len(),
        r is Ok ==> r->Ok_0 == bytes@[*old(offset) as int] && *final(offset) == *old(offset) + 1,
        r is Err ==> *final(offset) == *old(offset),
{
    bytes.read_with::<u8>(offset, byte::LE)
}

/// `byte::BytesExt::read_with::<u16>` on a byte slice, little-endian context.
///
/// The read succeeds exactly when two bytes are left at `offset`; it then
/// returns the number they spell, low byte first, and moves `offset` past
/// them. A failed read leaves `offset` alone.
#[verifier::external_body]
fn read_u16_at(bytes: &[u8], offset: &mut usize) -> (r: Result<u16, byte::Error>)
    ensures
        r is Ok <==> *old(offset) + 2 <= bytes@.len(),
        r is Ok ==> r->Ok_0 == le_u16(bytes@, *old(offset) as int) && *final(offset) == *old(offset)
            + 2,
        r is Err ==> *final(offset) == *old(offset),
{
    bytes.read_with::<u16>(offset, byte::LE)
}

/// `byte::BytesExt::read_with::<i16>` on a byte slice, little-endian context.
///
/// As for `u16`, with the two bytes read as a two's complement number.
#[verifier::external_body]
fn read_i16_at(bytes: &[u8], offset: &mut usize) -> (r: Result<i16, byte::Error>)
    ensures
        r is Ok <==> *old(offset) + 2 <= bytes@.len(),
        r is Ok ==> r->Ok_0 == le_i16(bytes@, *old(offset) as int) && *final(offset) == *old(offset)
            + 2,
        r is Err ==> *final(offset) == *old(offset),
{
    bytes.read_with::<i16>(offset, byte::LE)
}

/// `byte::BytesExt::read_with::<i32>` on a byte slice, little-endian context.
///
/// The read succeeds exactly when four bytes are left at `offset`; it then
/// returns the two's complement number they spell, low byte first, and moves
/// `offset` past them. A failed read leaves `offset` alone.
#[verifier::external_body]
fn read_i32_at(bytes: &[u8], offset: &mut usize) -> (r: Result<i32, byte::Error>)
    ensures
        r is Ok <==> *old(offset) + 4 <= bytes@.len(),
        r is Ok ==> r->Ok_0 == le_i32(bytes@, *old(offset) as int) && *final(offset) == *old(offset)
            + 4,
        r is Err ==> *final(offset) == *old(offset),
{
    bytes.read_with::<i32>(offset, byte::LE)
}

/// `byte::BytesExt::read_with::<&[u8]>` on a byte slice, with the context
/// `byte::ctx::Bytes::Len(len)`.
///
/// The read succeeds exactly when `len` bytes are left at `offset`; it then
/// returns those bytes, borrowed from the buffer, and moves `offset` past
/// them. A failed read leaves `offset` alone.
#[verifier::external_body]
fn read_slice_at<'a>(bytes: &'a [u8], offset: &mut usize, len: usize) -> (r: Result<
    &'a [u8],
    byte::Error,
>)
    ensures
        r is Ok <==> *old(offset) + len <= bytes@.len(),
        r is Ok ==> r->Ok_0@ == bytes@.subrange(*old(offset) as int, *old(offset) + len)
            && *final(offset) == *old(offset) + len,
        r is Err ==> *final(offset) == *old(offset),
{
    bytes.read_with::<&[u8]>(offset, byte::ctx::Bytes::Len(len))
}

/// A read position in a byte buffer. It starts at zero and only moves
/// forward, by the width of each value read.
pub struct Cursor<'a> {
    bytes: &'a [u8],
    offset: usize,
}

impl<'a> Cursor<'a> {
    /// The buffer being read.
    pub closed spec fn buffer(&self) -> Seq<u8> {
        self.bytes@
    }

    /// The number of bytes consumed so far.
    pub closed spec fn position(&self) -> usize {
        self.offset
    }

    #[verifier::type_invariant]
    spec fn within_buffer(&self) -> bool {
        self.offset <= self.bytes@.len()
    }

    /// A cursor at the start of `bytes`.
    pub fn new(bytes: &'a [u8]) -> (cursor: Self)
        ensures
            cursor.buffer() == bytes@,
            cursor.position() == 0,
    {
        Cursor { bytes, offset: 0 }
    }

    /// The number of bytes consumed so far.
    pub fn offset(&self) -> (n: usize)
        ensures
            n == self.position(),
            n <= self.buffer().len(),
    {
        proof {
            use_type_invariant(self);
        }
        self.offset
    }

    /// Reads one byte.
    pub fn read_u8(&mut self) -> (r: Result<u8, DecodeError>)
        ensures
            final(self).buffer() == old(self).buffer(),
            read_outcome(*old(self), *final(self), r is Ok, 1),
            r is Ok ==> r->Ok_0 == old(self).buffer()[old(self).position() as int],
            r is Err ==> r->Err_0 == DecodeError::Truncated,
    {
        proof {
            use_type_invariant(&*self);
        }
        let mut at: usize = self.offset;
        match read_u8_at(self.bytes, &mut at) {
            Ok(v) => {
                self.offset = at;
                Ok(v)
            },
            Err(_) => Err(DecodeError::Truncated),
        }
    }

    /// Reads an unsigned 16-bit number, low byte first.
    pub fn read_u16(&mut self) -> (r: Result<u16, DecodeError>)
        ensures
            final(self).buffer() == old(self).buffer(),
            read_outcome(*old(self), *final(self), r is Ok, 2),
            r is Ok ==> r->Ok_0 == le_u16(old(self).buffer(), old(self).position() as int),
            r is Err ==> r->Err_0 == DecodeError::Truncated,
    {
        proof {
            use_type_invariant(&*self);
        }
        let mut at: usize = self.offset;
        match read_u16_at(self.bytes, &mut at) {
            Ok(v) => {
                self.offset = at;
                Ok(v)
            },
            Err(_) => Err(DecodeError::Truncated),
        }
    }

    /// Reads a signed 16-bit number, low byte first.
    pub fn read_i16(&mut self) -> (r: Result<i16, DecodeError>)
        ensures
            final(self).buffer() == old(self).buffer(),
            read_outcome(*old(self), *final(self), r is Ok, 2),
            r is Ok ==> r->Ok_0 == le_i16(old(self).buffer(), old(self).position() as int),
            r is Err ==> r->Err_0 == DecodeError::Truncated,
    {
        proof {
            use_type_invariant(&*self);
        }
        let mut at: usize = self.offset;
        match read_i16_at(self.bytes, &mut at) {
            Ok(v) => {
                self.offset = at;
                Ok(v)
            },
            Err(_) => Err(DecodeError::Truncated),
        }
    }

    /// Reads a signed 32-bit number, low byte first.
    pub fn read_i32(&mut self) -> (r: Result<i32, DecodeError>)
        ensures
            final(self).buffer() == old(self).buffer(),
            read_outcome(*old(self), *final(self), r is Ok, 4),
            r is Ok ==> r->Ok_0 == le_i32(old(self).buffer(), old(self).position() as int),
            r is Err ==> r->Err_0 == DecodeError::Truncated,
    {
        proof {
            use_type_invariant(&*self);
        }
        let mut at: usize = self.offset;
        match read_i32_at(self.bytes, &mut at) {
            Ok(v) => {
                self.offset = at;
                Ok(v)
            },
            Err(_) => Err(DecodeError::Truncated),
        }
    }

    /// Reads `n` bytes, borrowed from the buffer. Zero is a legal length.
    pub fn read_bytes(&mut self, n: usize) -> (r: Result<&'a [u8], DecodeError>)
        ensures
            final(self).buffer() == old(self).buffer(),
            read_outcome(*old(self), *final(self), r is Ok, n as int),
            r is Ok ==> r->Ok_0@ == old(self).buffer().subrange(
                old(self).position() as int,
                old(self).position() + n,
            ),
            r is Err ==> r->Err_0 == DecodeError::Truncated,
    {
        proof {
            use_type_invariant(&*self);
        }
        let mut at: usize = self.offset;
        match read_slice_at(self.bytes, &mut at, n) {
            Ok(v) => {
                self.offset = at;
                Ok(v)
            },
            Err(_) => Err(DecodeError::Truncated),
        }
    }
}

/// What every read of `width` bytes does to a cursor: it succeeds exactly
/// when `width` bytes are left, and then moves forward by `width`; a failed
/// read leaves the position where it was.
pub open spec fn read_outcome(before: Cursor, after: Cursor, ok: bool, width: int) -> bool {
    &&& ok <==> before.position() + width <= before.buffer().len()
    &&& after.position() == if ok {
        before.position() + width
    } else {
        before.position() as int
    }
    &&& after.position() <= after.buffer().len()
}

} // verus!
