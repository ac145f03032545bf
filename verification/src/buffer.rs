//! The output buffer: `bytes::BytesMut`, seen through the bytes that it
//! holds, and the helpers that append integers to it.

use crate::endian::{
    be_bytes, le_bytes, twos_complement_128, write_i128_be, write_i128_le, write_u128_be,
    write_u128_le, write_u16_le, write_u64_be, write_u64_le,
};
use bytes::BytesMut;
use vstd::prelude::*;

verus! {

/// `bytes::BytesMut`: a growable buffer of bytes. The verifier sees nothing
/// inside it; what it holds goes by the name [`buf_contents`].
#[verifier::external_type_specification]
#[verifier::external_body]
pub struct ExBytesMut(bytes::BytesMut);

/// The bytes that the buffer holds, first written first.
pub uninterp spec fn buf_contents(buf: BytesMut) -> Seq<u8>;

/// `BytesMut::len`: how many bytes the buffer holds.
#[verifier::external_body]
fn len(buf: &BytesMut) -> (n: usize)
    ensures
        n == buf_contents(*buf).len(),
{
    buf.len()
}

/// `BytesMut::reserve`: makes room for `additional` more bytes; what the
/// buffer holds is unchanged. The outside function panics where the new
/// capacity does not fit.
#[verifier::external_body]
pub(crate) fn reserve(buf: &mut BytesMut, additional: usize)
    requires
        buf_contents(*old(buf)).len() + additional <= isize::MAX,
    ensures
        buf_contents(*final(buf)) == buf_contents(*old(buf)),
{
    buf.reserve(additional)
}

/// `BytesMut::extend_from_slice`: appends `src`, growing the buffer where it
/// has to. The outside function panics where the new capacity does not fit.
#[verifier::external_body]
pub(crate) fn extend_from_slice(buf: &mut BytesMut, src: &[u8])
    requires
        buf_contents(*old(buf)).len() + src@.len() <= isize::MAX,
    ensures
        buf_contents(*final(buf)) == buf_contents(*old(buf)) + src@,
{
    buf.extend_from_slice(src)
}

/// Whether `additional` more bytes fit in a buffer; where they do, room is
/// made for them. What the buffer holds is unchanged either way.
pub fn try_reserve(buf: &mut BytesMut, additional: usize) -> (fits: bool)
    ensures
        fits <==> buf_contents(*old(buf)).len() + additional <= isize::MAX,
        buf_contents(*final(buf)) == buf_contents(*old(buf)),
{
    let held: usize = len(buf);
    let limit: usize = isize::MAX as usize;
    if held <= limit && additional <= limit - held {
        reserve(buf, additional);
        true
    } else {
        false
    }
}

/// Appends the two bytes of `n`, least significant first.
pub fn put_u16_le(buf: &mut BytesMut, n: u16)
    requires
        buf_contents(*old(buf)).len() + 2 <= isize::MAX,
    ensures
        buf_contents(*final(buf)) == buf_contents(*old(buf)) + le_bytes(n as nat, 2),
{
    let mut bytes = [0u8; 2];
    write_u16_le(&mut bytes, n);
    extend_from_slice(buf, &bytes)
}

/// Appends the eight bytes of `n`, least significant first.
pub fn put_u64_le(buf: &mut BytesMut, n: u64)
    requires
        buf_contents(*old(buf)).len() + 8 <= isize::MAX,
    ensures
        buf_contents(*final(buf)) == buf_contents(*old(buf)) + le_bytes(n as nat, 8),
{
    let mut bytes = [0u8; 8];
    write_u64_le(&mut bytes, n);
    extend_from_slice(buf, &bytes)
}

/// Appends the eight bytes of `n`, most significant first.
pub fn put_u64_be(buf: &mut BytesMut, n: u64)
    requires
        buf_contents(*old(buf)).len() + 8 <= isize::MAX,
    ensures
        buf_contents(*final(buf)) == buf_contents(*old(buf)) + be_bytes(n as nat, 8),
{
    let mut bytes = [0u8; 8];
    write_u64_be(&mut bytes, n);
    extend_from_slice(buf, &bytes)
}

/// Appends the sixteen bytes of `n`, most significant first.
pub fn put_u128_be(buf: &mut BytesMut, n: u128)
    requires
        buf_contents(*old(buf)).len() + 16 <= isize::MAX,
    ensures
        buf_contents(*final(buf)) == buf_contents(*old(buf)) + be_bytes(n as nat, 16),
{
    let mut bytes = [0u8; 16];
    write_u128_be(&mut bytes, n);
    extend_from_slice(buf, &bytes)
}

/// Appends the sixteen bytes of `n`, least significant first.
pub fn put_u128_le(buf: &mut BytesMut, n: u128)
    requires
        buf_contents(*old(buf)).len() + 16 <= isize::MAX,
    ensures
        buf_contents(*final(buf)) == buf_contents(*old(buf)) + le_bytes(n as nat, 16),
{
    let mut bytes = [0u8; 16];
    write_u128_le(&mut bytes, n);
    extend_from_slice(buf, &bytes)
}

/// Appends the sixteen bytes of `n` in two's complement, most significant
/// first.
pub fn put_i128_be(buf: &mut BytesMut, n: i128)
    requires
        buf_contents(*old(buf)).len() + 16 <= isize::MAX,
    ensures
        buf_contents(*final(buf)) == buf_contents(*old(buf)) + be_bytes(
            twos_complement_128(n),
            16,
        ),
{
    let mut bytes = [0u8; 16];
    write_i128_be(&mut bytes, n);
    extend_from_slice(buf, &bytes)
}

/// Appends the sixteen bytes of `n` in two's complement, least significant
/// first.
pub fn put_i128_le(buf: &mut BytesMut, n: i128)
    requires
        buf_contents(*old(buf)).len() + 16 <= isize::MAX,
    ensures
        buf_contents(*final(buf)) == buf_contents(*old(buf)) + le_bytes(
            twos_complement_128(n),
            16,
        ),
{
    let mut bytes = [0u8; 16];
    write_i128_le(&mut bytes, n);
    extend_from_slice(buf, &bytes)
}

} // verus!
