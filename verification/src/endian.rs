//! Fixed-width integers as byte strings, in both byte orders.
//!
//! The two spec functions [`be_bytes`] and [`le_bytes`] are the vocabulary in
//! which every integer field of the wire format is described. The executable
//! conversions are done by the `byteorder` crate; its functions are wrapped
//! at the end of this file, each with the contract that is taken on trust.

use byteorder::{BigEndian, ByteOrder, LittleEndian};
use vstd::prelude::*;

verus! {

/// `256` to the power `n`: the number of values that `n` bytes can hold.
pub open spec fn pow256(n: nat) -> nat
    decreases n,
{
    if n == 0 {
        1
    } else {
        256 * pow256((n - 1) as nat)
    }
}

/// The `n` low base-256 digits of `v`, most significant digit first.
pub open spec fn be_bytes(v: nat, n: nat) -> Seq<u8>
    decreases n,
{
    if n == 0 {
        Seq::empty()
    } else {
        be_bytes(v / 256, (n - 1) as nat).push((v % 256) as u8)
    }
}

/// The `n` low base-256 digits of `v`, least significant digit first.
pub open spec fn le_bytes(v: nat, n: nat) -> Seq<u8>
    decreases n,
{
    if n == 0 {
        Seq::empty()
    } else {
        seq![(v % 256) as u8] + le_bytes(v / 256, (n - 1) as nat)
    }
}

/// The unsigned number with the same 128 bits as `n` in two's complement.
pub open spec fn twos_complement_128(n: i128) -> nat {
    if n >= 0 {
        n as nat
    } else {
        (n + 0x1_0000_0000_0000_0000_0000_0000_0000_0000) as nat
    }
}

pub proof fn lemma_pow256_values()
    ensures
        pow256(1) == 0x100,
        pow256(2) == 0x1_0000,
        pow256(8) == 0x1_0000_0000_0000_0000,
        pow256(16) == 0x1_0000_0000_0000_0000_0000_0000_0000_0000,
{
    reveal_with_fuel(pow256, 17);
}

pub proof fn lemma_be_bytes_len(v: nat, n: nat)
    ensures
        be_bytes(v, n).len() == n,
    decreases n,
{
    if n > 0 {
        lemma_be_bytes_len(v / 256, (n - 1) as nat);
    }
}

pub proof fn lemma_le_bytes_len(v: nat, n: nat)
    ensures
        le_bytes(v, n).len() == n,
    decreases n,
{
    if n > 0 {
        lemma_le_bytes_len(v / 256, (n - 1) as nat);
    }
}

/// The two little-endian bytes of a 16-bit number are its remainder and its
/// quotient by 256.
pub proof fn lemma_le_bytes_u16(v: u16)
    ensures
        le_bytes(v as nat, 2) == seq![(v % 256) as u8, (v / 256) as u8],
{
    reveal_with_fuel(le_bytes, 3);
    assert(le_bytes(v as nat, 2) =~= seq![(v % 256) as u8, (v / 256) as u8]);
}

/// Two numbers that fit in `n` bytes and have the same big-endian bytes are
/// the same number.
pub proof fn lemma_be_bytes_injective(x: nat, y: nat, n: nat)
    requires
        x < pow256(n),
        y < pow256(n),
        be_bytes(x, n) == be_bytes(y, n),
    ensures
        x == y,
    decreases n,
{
    if n > 0 {
        let m = (n - 1) as nat;
        let bx = be_bytes(x / 256, m);
        let by = be_bytes(y / 256, m);
        assert(bx == be_bytes(x, n).drop_last());
        assert(by == be_bytes(y, n).drop_last());
        assert(be_bytes(x, n).last() == (x % 256) as u8);
        assert(be_bytes(y, n).last() == (y % 256) as u8);
        lemma_be_bytes_injective(x / 256, y / 256, m);
    }
}

/// Two numbers that fit in `n` bytes and have the same little-endian bytes
/// are the same number.
pub proof fn lemma_le_bytes_injective(x: nat, y: nat, n: nat)
    requires
        x < pow256(n),
        y < pow256(n),
        le_bytes(x, n) == le_bytes(y, n),
    ensures
        x == y,
    decreases n,
{
    if n > 0 {
        let m = (n - 1) as nat;
        let bx = le_bytes(x / 256, m);
        let by = le_bytes(y / 256, m);
        assert(bx == le_bytes(x, n).drop_first());
        assert(by == le_bytes(y, n).drop_first());
        assert(le_bytes(x, n).first() == (x % 256) as u8);
        assert(le_bytes(y, n).first() == (y % 256) as u8);
        lemma_le_bytes_injective(x / 256, y / 256, m);
    }
}

/// `byteorder::LittleEndian::read_u16`: the number whose two little-endian
/// bytes are the first two bytes of `buf`. The outside function panics on a
/// shorter slice.
#[verifier::external_body]
pub(crate) fn read_u16_le(buf: &[u8]) -> (r: u16)
    requires
        buf@.len() >= 2,
    ensures
        le_bytes(r as nat, 2) == buf@.subrange(0, 2),
{
    LittleEndian::read_u16(buf)
}

/// `byteorder::LittleEndian::read_u64`: the number whose eight little-endian
/// bytes are the first eight bytes of `buf`. The outside function panics on
/// a shorter slice.
#[verifier::external_body]
pub(crate) fn read_u64_le(buf: &[u8]) -> (r: u64)
    requires
        buf@.len() >= 8,
    ensures
        le_bytes(r as nat, 8) == buf@.subrange(0, 8),
{
    LittleEndian::read_u64(buf)
}

/// `byteorder::BigEndian::read_u64`: the number whose eight big-endian bytes
/// are the first eight bytes of `buf`. The outside function panics on a
/// shorter slice.
#[verifier::external_body]
pub(crate) fn read_u64_be(buf: &[u8]) -> (r: u64)
    requires
        buf@.len() >= 8,
    ensures
        be_bytes(r as nat, 8) == buf@.subrange(0, 8),
{
    BigEndian::read_u64(buf)
}

/// `byteorder::BigEndian::read_u128`: the number whose sixteen big-endian
/// bytes are the first sixteen bytes of `buf`. The outside function panics
/// on a shorter slice.
#[verifier::external_body]
pub(crate) fn read_u128_be(buf: &[u8]) -> (r: u128)
    requires
        buf@.len() >= 16,
    ensures
        be_bytes(r as nat, 16) == buf@.subrange(0, 16),
{
    BigEndian::read_u128(buf)
}

/// `byteorder::LittleEndian::write_u16`: fills `buf` with the two
/// little-endian bytes of `n`.
#[verifier::external_body]
pub(crate) fn write_u16_le(buf: &mut [u8; 2], n: u16)
    ensures
        final(buf)@ == le_bytes(n as nat, 2),
{
    LittleEndian::write_u16(buf, n)
}

/// `byteorder::LittleEndian::write_u64`: fills `buf` with the eight
/// little-endian bytes of `n`.
#[verifier::external_body]
pub(crate) fn write_u64_le(buf: &mut [u8; 8], n: u64)
    ensures
        final(buf)@ == le_bytes(n as nat, 8),
{
    LittleEndian::write_u64(buf, n)
}

/// `byteorder::BigEndian::write_u64`: fills `buf` with the eight big-endian
/// bytes of `n`.
#[verifier::external_body]
pub(crate) fn write_u64_be(buf: &mut [u8; 8], n: u64)
    ensures
        final(buf)@ == be_bytes(n as nat, 8),
{
    BigEndian::write_u64(buf, n)
}

/// `byteorder::BigEndian::write_u128`: fills `buf` with the sixteen
/// big-endian bytes of `n`.
#[verifier::external_body]
pub(crate) fn write_u128_be(buf: &mut [u8; 16], n: u128)
    ensures
        final(buf)@ == be_bytes(n as nat, 16),
{
    BigEndian::write_u128(buf, n)
}

/// `byteorder::LittleEndian::write_u128`: fills `buf` with the sixteen
/// little-endian bytes of `n`.
#[verifier::external_body]
pub(crate) fn write_u128_le(buf: &mut [u8; 16], n: u128)
    ensures
        final(buf)@ == le_bytes(n as nat, 16),
{
    LittleEndian::write_u128(buf, n)
}

/// `byteorder::BigEndian::write_i128`: fills `buf` with the sixteen
/// big-endian bytes of `n` in two's complement.
#[verifier::external_body]
pub(crate) fn write_i128_be(buf: &mut [u8; 16], n: i128)
    ensures
        final(buf)@ == be_bytes(twos_complement_128(n), 16),
{
    BigEndian::write_i128(buf, n)
}

/// `byteorder::LittleEndian::write_i128`: fills `buf` with the sixteen
/// little-endian bytes of `n` in two's complement.
#[verifier::external_body]
pub(crate) fn write_i128_le(buf: &mut [u8; 16], n: i128)
    ensures
        final(buf)@ == le_bytes(twos_complement_128(n), 16),
{
    LittleEndian::write_i128(buf, n)
}

} // verus!
