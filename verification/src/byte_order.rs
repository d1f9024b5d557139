//! Integers as byte strings, little-endian and big-endian.
//!
//! The spec functions say what a byte string means as a number. The executable
//! functions call the `byteorder` crate.

use byteorder::{BigEndian, ByteOrder, LittleEndian};
use vstd::prelude::*;

verus! {

/// The number whose little-endian digits, base 256, are `bytes`.
pub open spec fn le_value(bytes: Seq<u8>) -> nat
    decreases bytes.len(),
{
    if bytes.len() == 0 {
        0
    } else {
        bytes[0] as nat + 256 * le_value(bytes.skip(1))
    }
}

/// The number whose big-endian digits, base 256, are `bytes`.
pub open spec fn be_value(bytes: Seq<u8>) -> nat
    decreases bytes.len(),
{
    if bytes.len() == 0 {
        0
    } else {
        256 * be_value(bytes.drop_last()) + bytes.last() as nat
    }
}

/// The `width` big-endian digits of `value`, base 256.
pub open spec fn be_bytes(value: nat, width: nat) -> Seq<u8>
    decreases width,
{
    if width == 0 {
        Seq::empty()
    } else {
        be_bytes(value / 256, (width - 1) as nat).push((value % 256) as u8)
    }
}

/// The `width` little-endian digits of `value`, base 256.
pub open spec fn le_bytes(value: nat, width: nat) -> Seq<u8>
    decreases width,
{
    if width == 0 {
        Seq::empty()
    } else {
        seq![(value % 256) as u8] + le_bytes(value / 256, (width - 1) as nat)
    }
}

/// `buffer` with `bytes` written over it from index `offset` on.
pub open spec fn splice(buffer: Seq<u8>, offset: int, bytes: Seq<u8>) -> Seq<u8> {
    Seq::new(
        buffer.len(),
        |i: int|
            if offset <= i < offset + bytes.len() {
                bytes[i - offset]
            } else {
                buffer[i]
            },
    )
}

/// 256 to the power of `width`.
pub open spec fn pow256(width: nat) -> nat
    decreases width,
{
    if width == 0 {
        1
    } else {
        256 * pow256((width - 1) as nat)
    }
}

/// A number that fits in `width` digits is the value of its big-endian
/// digits.
pub proof fn lemma_be_round_trip(value: nat, width: nat)
    requires
        value < pow256(width),
    ensures
        be_bytes(value, width).len() == width,
        be_value(be_bytes(value, width)) == value,
    decreases width,
{
    if width > 0 {
        let high = be_bytes(value / 256, (width - 1) as nat);
        lemma_be_round_trip(value / 256, (width - 1) as nat);
        assert(high.push((value % 256) as u8).drop_last() =~= high);
    }
}

/// A number that fits in `width` digits is the value of its little-endian
/// digits.
pub proof fn lemma_le_round_trip(value: nat, width: nat)
    requires
        value < pow256(width),
    ensures
        le_bytes(value, width).len() == width,
        le_value(le_bytes(value, width)) == value,
    decreases width,
{
    if width > 0 {
        let high = le_bytes(value / 256, (width - 1) as nat);
        lemma_le_round_trip(value / 256, (width - 1) as nat);
        assert((seq![(value % 256) as u8] + high).skip(1) =~= high);
    }
}

/// What is written over a buffer stands there, and what is beside it stays.
pub proof fn lemma_splice(buffer: Seq<u8>, offset: int, bytes: Seq<u8>)
    requires
        0 <= offset,
        offset + bytes.len() <= buffer.len(),
    ensures
        splice(buffer, offset, bytes).len() == buffer.len(),
        splice(buffer, offset, bytes).subrange(offset, offset + bytes.len()) == bytes,
        forall|i: int|
            0 <= i < buffer.len() && !(offset <= i < offset + bytes.len()) ==> splice(
                buffer,
                offset,
                bytes,
            )[i] == buffer[i],
{
    assert(splice(buffer, offset, bytes).subrange(offset, offset + bytes.len()) =~= bytes);
}

/// Writes `bytes` over `buffer` from index `offset` on.
pub fn overwrite(buffer: &mut Vec<u8>, offset: usize, bytes: &[u8])
    requires
        offset + bytes@.len() <= old(buffer)@.len(),
    ensures
        final(buffer)@ == splice(old(buffer)@, offset as int, bytes@),
{
    let n: usize = bytes.len();
    let total: usize = buffer.len();
    let mut i: usize = 0;
    while i < n
        invariant
            i <= n,
            n == bytes@.len(),
            total == buffer@.len(),
            total == old(buffer)@.len(),
            offset + n <= total,
            forall|j: int|
                0 <= j < total ==> buffer@[j] == if offset <= j < offset + i {
                    bytes@[j - offset]
                } else {
                    old(buffer)@[j]
                },
        decreases n - i,
    {
        buffer[offset + i] = bytes[i];
        i += 1;
    }
    assert(buffer@ =~= splice(old(buffer)@, offset as int, bytes@));
}

/// Calls `byteorder::LittleEndian::read_u16`, which panics on a slice of fewer
/// than two bytes. It is taken on trust that the result is the number that the
/// first two bytes spell with their low byte first.
#[verifier::external_body]
pub(crate) fn read_u16_le(buf: &[u8]) -> (value: u16)
    requires
        buf@.len() >= 2,
    ensures
        value == le_value(buf@.take(2)),
{
    LittleEndian::read_u16(buf)
}

/// Calls `byteorder::LittleEndian::read_u32`, which panics on a slice of fewer
/// than four bytes. It is taken on trust that the result is the number that the
/// first four bytes spell with their low byte first.
#[verifier::external_body]
pub(crate) fn read_u32_le(buf: &[u8]) -> (value: u32)
    requires
        buf@.len() >= 4,
    ensures
        value == le_value(buf@.take(4)),
{
    LittleEndian::read_u32(buf)
}

/// Calls `byteorder::LittleEndian::read_u64`, which panics on a slice of fewer
/// than eight bytes. It is taken on trust that the result is the number that
/// the first eight bytes spell with their low byte first.
#[verifier::external_body]
pub(crate) fn read_u64_le(buf: &[u8]) -> (value: u64)
    requires
        buf@.len() >= 8,
    ensures
        value == le_value(buf@.take(8)),
{
    LittleEndian::read_u64(buf)
}

/// Calls `byteorder::BigEndian::read_u16`, which panics on a slice of fewer
/// than two bytes. It is taken on trust that the result is the number that the
/// first two bytes spell with their high byte first.
#[verifier::external_body]
pub(crate) fn read_u16_be(buf: &[u8]) -> (value: u16)
    requires
        buf@.len() >= 2,
    ensures
        value == be_value(buf@.take(2)),
{
    BigEndian::read_u16(buf)
}

/// Calls `byteorder::BigEndian::read_u24`, which panics on a slice of fewer
/// than three bytes. It is taken on trust that the result is the number that
/// the first three bytes spell with their high byte first.
#[verifier::external_body]
pub(crate) fn read_u24_be(buf: &[u8]) -> (value: u32)
    requires
        buf@.len() >= 3,
    ensures
        value == be_value(buf@.take(3)),
{
    BigEndian::read_u24(buf)
}

/// Calls `byteorder::BigEndian::read_u32`, which panics on a slice of fewer
/// than four bytes. It is taken on trust that the result is the number that the
/// first four bytes spell with their high byte first.
#[verifier::external_body]
pub(crate) fn read_u32_be(buf: &[u8]) -> (value: u32)
    requires
        buf@.len() >= 4,
    ensures
        value == be_value(buf@.take(4)),
{
    BigEndian::read_u32(buf)
}

/// Calls `byteorder::BigEndian::read_u64`, which panics on a slice of fewer
/// than eight bytes. It is taken on trust that the result is the number that
/// the first eight bytes spell with their high byte first.
#[verifier::external_body]
pub(crate) fn read_u64_be(buf: &[u8]) -> (value: u64)
    requires
        buf@.len() >= 8,
    ensures
        value == be_value(buf@.take(8)),
{
    BigEndian::read_u64(buf)
}

/// Calls `byteorder::BigEndian::write_u16` on the buffer from `offset` on,
/// which panics where fewer than two bytes are left. It is taken on trust that
/// the call writes over two bytes the digits of `value` with the high one
/// first, and leaves every other byte as it was.
#[verifier::external_body]
pub(crate) fn write_u16_be(buf: &mut Vec<u8>, offset: usize, value: u16)
    requires
        offset + 2 <= old(buf)@.len(),
    ensures
        final(buf)@ == splice(old(buf)@, offset as int, be_bytes(value as nat, 2)),
{
    BigEndian::write_u16(&mut buf[offset..], value)
}

/// Calls `byteorder::BigEndian::write_u24` on the buffer from `offset` on,
/// which panics where fewer than three bytes are left, or `value` does not fit
/// in three bytes. It is taken on trust that the call writes over three bytes
/// the digits of `value` with the high one first, and leaves every other byte
/// as it was.
#[verifier::external_body]
pub(crate) fn write_u24_be(buf: &mut Vec<u8>, offset: usize, value: u32)
    requires
        offset + 3 <= old(buf)@.len(),
        value < 0x100_0000,
    ensures
        final(buf)@ == splice(old(buf)@, offset as int, be_bytes(value as nat, 3)),
{
    BigEndian::write_u24(&mut buf[offset..], value)
}

/// Calls `byteorder::BigEndian::write_u32` on the buffer from `offset` on,
/// which panics where fewer than four bytes are left. It is taken on trust that
/// the call writes over four bytes the digits of `value` with the high one
/// first, and leaves every other byte as it was.
#[verifier::external_body]
pub(crate) fn write_u32_be(buf: &mut Vec<u8>, offset: usize, value: u32)
    requires
        offset + 4 <= old(buf)@.len(),
    ensures
        final(buf)@ == splice(old(buf)@, offset as int, be_bytes(value as nat, 4)),
{
    BigEndian::write_u32(&mut buf[offset..], value)
}

/// Calls `byteorder::LittleEndian::write_u32` on the buffer from `offset` on,
/// which panics where fewer than four bytes are left. It is taken on trust that
/// the call writes over four bytes the digits of `value` with the low one
/// first, and leaves every other byte as it was.
#[verifier::external_body]
pub(crate) fn write_u32_le(buf: &mut Vec<u8>, offset: usize, value: u32)
    requires
        offset + 4 <= old(buf)@.len(),
    ensures
        final(buf)@ == splice(old(buf)@, offset as int, le_bytes(value as nat, 4)),
{
    LittleEndian::write_u32(&mut buf[offset..], value)
}

} // verus!
