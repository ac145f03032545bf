//! Reading fields off the front of a byte string.

use crate::endian::{be_bytes, le_bytes, read_u128_be, read_u16_le, read_u64_be, read_u64_le};
use crate::error::CodecError;
use vstd::prelude::*;
use vstd::slice::slice_subrange;

verus! {

/// The `N` bytes of `src` that start at `start`, as an array.
pub fn array_from_slice<const N: usize>(src: &[u8], start: usize) -> (out: [u8; N])
    requires
        start + N <= src@.len(),
    ensures
        out@ == src@.subrange(start as int, start + N),
{
    let len: usize = src.len();
    let mut out: [u8; N] = [0u8; N];
    let mut i: usize = 0;
    while i < N
        invariant
            i <= N,
            start + N <= len,
            len == src@.len(),
            forall|j: int| 0 <= j < i ==> out@[j] == src@[start + j],
        decreases N - i,
    {
        out[i] = src[start + i];
        i = i + 1;
    }
    assert(out@ =~= src@.subrange(start as int, start + N));
    out
}

/// A place in a byte string: what is in front of it has been read, what is
/// behind it is still to come. Its view is what is still to come.
#[derive(Clone, Copy, Debug)]
pub struct ByteCursor<'a> {
    data: &'a [u8],
    pos: usize,
}

impl<'a> View for ByteCursor<'a> {
    type V = Seq<u8>;

    closed spec fn view(&self) -> Seq<u8> {
        self.data@.skip(self.pos as int)
    }
}

impl<'a> ByteCursor<'a> {
    #[verifier::type_invariant]
    closed spec fn inv(&self) -> bool {
        self.pos <= self.data@.len()
    }

    /// A cursor at the start of `data`.
    pub fn new(data: &'a [u8]) -> (cursor: ByteCursor<'a>)
        ensures
            cursor@ == data@,
    {
        ByteCursor { data, pos: 0 }
    }

    /// How many bytes are still to come.
    pub fn remaining(&self) -> (n: usize)
        ensures
            n == self@.len(),
    {
        proof {
            use_type_invariant(self);
        }
        self.data.len() - self.pos
    }

    /// The next `n` bytes, which the cursor then has behind it; or, where
    /// fewer are left, the error, and the cursor stays.
    fn take(&mut self, n: usize) -> (r: Result<&'a [u8], CodecError>)
        ensures
            r is Ok <==> n <= old(self)@.len(),
            r matches Ok(bytes) ==> bytes@ == old(self)@.take(n as int) && final(self)@ == old(
                self,
            )@.skip(n as int),
            r matches Err(e) ==> e == CodecError::UnexpectedEof && final(self)@ == old(self)@,
    {
        proof {
            use_type_invariant(&*self);
        }
        if self.data.len() - self.pos < n {
            return Err(CodecError::UnexpectedEof);
        }
        let start: usize = self.pos;
        let bytes = slice_subrange(self.data, start, start + n);
        self.pos = start + n;
        assert(bytes@ =~= old(self)@.take(n as int));
        assert(self@ =~= old(self)@.skip(n as int));
        Ok(bytes)
    }

    /// Reads one byte.
    pub fn read_u8(&mut self) -> (r: Result<u8, CodecError>)
        ensures
            r is Ok <==> 1 <= old(self)@.len(),
            r matches Ok(b) ==> b == old(self)@[0] && final(self)@ == old(self)@.skip(1),
            r matches Err(e) ==> e == CodecError::UnexpectedEof && final(self)@ == old(self)@,
    {
        let bytes = self.take(1)?;
        Ok(bytes[0])
    }

    /// Reads `N` bytes.
    pub fn read_array<const N: usize>(&mut self) -> (r: Result<[u8; N], CodecError>)
        ensures
            r is Ok <==> N <= old(self)@.len(),
            r matches Ok(a) ==> a@ == old(self)@.take(N as int) && final(self)@ == old(self)@.skip(
                N as int,
            ),
            r matches Err(e) ==> e == CodecError::UnexpectedEof && final(self)@ == old(self)@,
    {
        let bytes = self.take(N)?;
        let a = array_from_slice::<N>(bytes, 0);
        assert(a@ =~= old(self)@.take(N as int));
        Ok(a)
    }

    /// Reads a 16-bit number, least significant byte first.
    pub fn read_u16_le(&mut self) -> (r: Result<u16, CodecError>)
        ensures
            r is Ok <==> 2 <= old(self)@.len(),
            r matches Ok(v) ==> le_bytes(v as nat, 2) == old(self)@.take(2) && final(self)@ == old(
                self,
            )@.skip(2),
            r matches Err(e) ==> e == CodecError::UnexpectedEof && final(self)@ == old(self)@,
    {
        let bytes = self.take(2)?;
        let v: u16 = read_u16_le(bytes);
        assert(bytes@.subrange(0, 2) =~= bytes@);
        Ok(v)
    }

    /// Reads a 64-bit number, least significant byte first.
    pub fn read_u64_le(&mut self) -> (r: Result<u64, CodecError>)
        ensures
            r is Ok <==> 8 <= old(self)@.len(),
            r matches Ok(v) ==> le_bytes(v as nat, 8) == old(self)@.take(8) && final(self)@ == old(
                self,
            )@.skip(8),
            r matches Err(e) ==> e == CodecError::UnexpectedEof && final(self)@ == old(self)@,
    {
        let bytes = self.take(8)?;
        let v: u64 = read_u64_le(bytes);
        assert(bytes@.subrange(0, 8) =~= bytes@);
        Ok(v)
    }

    /// Reads a 64-bit number, most significant byte first.
    pub fn read_u64_be(&mut self) -> (r: Result<u64, CodecError>)
        ensures
            r is Ok <==> 8 <= old(self)@.len(),
            r matches Ok(v) ==> be_bytes(v as nat, 8) == old(self)@.take(8) && final(self)@ == old(
                self,
            )@.skip(8),
            r matches Err(e) ==> e == CodecError::UnexpectedEof && final(self)@ == old(self)@,
    {
        let bytes = self.take(8)?;
        let v: u64 = read_u64_be(bytes);
        assert(bytes@.subrange(0, 8) =~= bytes@);
        Ok(v)
    }

    /// Reads a 128-bit number, most significant byte first.
    pub fn read_u128_be(&mut self) -> (r: Result<u128, CodecError>)
        ensures
            r is Ok <==> 16 <= old(self)@.len(),
            r matches Ok(v) ==> be_bytes(v as nat, 16) == old(self)@.take(16) && final(self)@
                == old(self)@.skip(16),
            r matches Err(e) ==> e == CodecError::UnexpectedEof && final(self)@ == old(self)@,
    {
        let bytes = self.take(16)?;
        let v: u128 = read_u128_be(bytes);
        assert(bytes@.subrange(0, 16) =~= bytes@);
        Ok(v)
    }
}

} // verus!
