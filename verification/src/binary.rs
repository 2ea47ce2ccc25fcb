//! Bit fields of a 16-bit word and byte merging.
//!
//! Bit offsets count from the most significant bit: offset 0 is the bit of
//! weight 2^15, offset 15 the bit of weight 1.

use vstd::prelude::*;

verus! {

/// The `length` low-order bits set, all others clear.
pub open spec fn low_mask(length: u8) -> u16 {
    if length >= 16 {
        0xffffu16
    } else {
        ((1u16 << length) - 1) as u16
    }
}

/// The bits of `word` from `offset` on, `length` of them, as the low-order
/// bits of the result.
pub open spec fn bits_of(word: u16, offset: u8, length: u8) -> u16 {
    (word >> ((16 - offset - length) as u8)) & low_mask(length)
}

/// The bit of `word` at `offset`: 0 or 1.
pub open spec fn bit_of(word: u16, offset: u8) -> u16 {
    bits_of(word, offset, 1)
}

/// `word` with the bit at `offset` set to `value`.
pub open spec fn with_bit(word: u16, offset: u8, value: bool) -> u16 {
    if value {
        word | (1u16 << ((15 - offset) as u8))
    } else {
        word & !(1u16 << ((15 - offset) as u8))
    }
}

/// `word` with the `length` bits from `offset` on replaced by the low-order
/// bits of `value`.
pub open spec fn with_bits(word: u16, offset: u8, length: u8, value: u16) -> u16 {
    let shift = (16 - offset - length) as u8;
    (word & !(low_mask(length) << shift)) | ((value & low_mask(length)) << shift)
}

/// The 16-bit value whose high byte is `high` and whose low byte is `low`.
pub open spec fn merged(high: u8, low: u8) -> u16 {
    (high as int * 256 + low as int) as u16
}

/// Extracts `length` bits of `word`, starting at `offset`.
pub fn get_bits(word: u16, offset: u8, length: u8) -> (r: u16)
    requires
        0 < offset + length <= 16,
    ensures
        r == bits_of(word, offset, length),
{
    let shift: u8 = 16 - offset - length;
    let mask: u16 = if length >= 16 {
        0xffff
    } else {
        assert((1u16 << length) >= 1) by (bit_vector)
            requires
                length < 16,
        ;
        (1u16 << length) - 1
    };
    (word >> shift) & mask
}

/// Extracts the bit of `word` at `offset`.
pub fn get_bit(word: u16, offset: u8) -> (r: u16)
    requires
        offset < 16,
    ensures
        r == bit_of(word, offset),
        r == 0 || r == 1,
{
    let r = get_bits(word, offset, 1);
    assert(bits_of(word, offset, 1) == 0 || bits_of(word, offset, 1) == 1) by (bit_vector)
        requires
            offset < 16,
    ;
    r
}

/// Sets or clears the bit of `word` at `offset`.
pub fn set_bit(word: u16, offset: u8, value: bool) -> (r: u16)
    requires
        offset < 16,
    ensures
        r == with_bit(word, offset, value),
{
    let shift: u8 = 15 - offset;
    if value {
        word | (1u16 << shift)
    } else {
        word & !(1u16 << shift)
    }
}

/// Merges two bytes into a 16-bit value, `high` first.
pub fn u8_merge(high: u8, low: u8) -> (r: u16)
    ensures
        r == merged(high, low),
        r == high * 256 + low,
{
    assert((((high as u16) << 8) | (low as u16)) == (high as u16) * 256 + (low as u16))
        by (bit_vector);
    ((high as u16) << 8) | (low as u16)
}

/// Merging with a value of type `K` into a value of type `V`.
pub trait EasyMerge<K, V> {
    /// `self` as the higher part, `lower` as the lower part.
    fn merge_lower(&self, lower: K) -> V;

    /// `higher` as the higher part, `self` as the lower part.
    fn merge_higher(&self, higher: K) -> V;
}

impl EasyMerge<u8, u16> for u8 {
    fn merge_lower(&self, lower: u8) -> (r: u16)
        ensures
            r == merged(*self, lower),
    {
        u8_merge(*self, lower)
    }

    fn merge_higher(&self, higher: u8) -> (r: u16)
        ensures
            r == merged(higher, *self),
    {
        u8_merge(higher, *self)
    }
}

/// The 32-bit value of four bytes, least significant first.
pub open spec fn le32(bytes: Seq<u8>) -> u32 {
    (bytes[0] as int + bytes[1] as int * 0x100 + bytes[2] as int * 0x10000 + bytes[3] as int
        * 0x1000000) as u32
}

/// Reads four bytes as a 32-bit value, least significant byte first,
/// whatever `network_order` says.
pub fn parse_u32(from: &[u8], network_order: bool) -> (r: u32)
    requires
        from@.len() == 4,
    ensures
        r == le32(from@),
{
    let low = u8_merge(from[1], from[0]);
    let high = u8_merge(from[3], from[2]);
    high as u32 * 0x10000 + low as u32
}

/// Reads four bytes as `parse_u32` does.
pub fn parse_some_u32(from: &[u8], network_order: bool) -> (r: Option<u32>)
    requires
        from@.len() == 4,
    ensures
        r == Some(le32(from@)),
{
    Some(parse_u32(from, network_order))
}

/// A bit written by `with_bit` is read back by `bit_of`, and every other bit
/// reads as before.
pub proof fn lemma_with_bit_reads_back(word: u16, offset: u8, value: bool, other: u8)
    requires
        offset < 16,
        other < 16,
    ensures
        bit_of(with_bit(word, offset, value), offset) == (if value { 1u16 } else { 0u16 }),
        other != offset ==> bit_of(with_bit(word, offset, value), other) == bit_of(word, other),
{
    assert(bit_of(with_bit(word, offset, true), offset) == 1u16) by (bit_vector)
        requires
            offset < 16,
    ;
    assert(bit_of(with_bit(word, offset, false), offset) == 0u16) by (bit_vector)
        requires
            offset < 16,
    ;
    assert(other != offset ==> bit_of(with_bit(word, offset, true), other) == bit_of(word, other))
        by (bit_vector)
        requires
            offset < 16,
            other < 16,
    ;
    assert(other != offset ==> bit_of(with_bit(word, offset, false), other) == bit_of(
        word,
        other,
    )) by (bit_vector)
        requires
            offset < 16,
            other < 16,
    ;
}

/// Bits written by `with_bits` are read back by `bits_of`, and every bit
/// outside them reads as before.
pub proof fn lemma_with_bits_reads_back(word: u16, offset: u8, length: u8, value: u16, other: u8)
    requires
        0 < length,
        offset + length <= 16,
        other < 16,
    ensures
        bits_of(with_bits(word, offset, length, value), offset, length) == value & low_mask(length),
        other < offset || other >= offset + length ==> bit_of(
            with_bits(word, offset, length, value),
            other,
        ) == bit_of(word, other),
{
    assert(bits_of(with_bits(word, offset, length, value), offset, length) == value & low_mask(
        length,
    )) by (bit_vector)
        requires
            0 < length,
            offset + length <= 16,
    ;
    assert(other < offset || other >= offset + length ==> bit_of(
        with_bits(word, offset, length, value),
        other,
    ) == bit_of(word, other)) by (bit_vector)
        requires
            0 < length,
            offset + length <= 16,
            other < 16,
    ;
}

/// Writing four bits one by one, most significant first, writes the number
/// that they spell.
pub proof fn lemma_four_bits(word: u16, offset: u8, b3: bool, b2: bool, b1: bool, b0: bool)
    by (bit_vector)
    requires
        offset <= 12,
    ensures
        with_bit(
            with_bit(
                with_bit(with_bit(word, offset, b3), (offset + 1) as u8, b2),
                (offset + 2) as u8,
                b1,
            ),
            (offset + 3) as u8,
            b0,
        ) == with_bits(
            word,
            offset,
            4,
            ((if b3 { 8u16 } else { 0u16 }) + (if b2 { 4u16 } else { 0u16 }) + (if b1 {
                2u16
            } else {
                0u16
            }) + (if b0 { 1u16 } else { 0u16 })) as u16,
        ),
{
}

} // verus!
