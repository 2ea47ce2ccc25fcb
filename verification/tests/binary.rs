use glow::binary::get_bit;
use glow::binary::get_bits;
use glow::binary::parse_some_u32;
use glow::binary::parse_u32;
use glow::binary::set_bit;
use glow::binary::u8_merge;
use glow::binary::EasyMerge;

const TEST_U16: u16 = 0b1011010011110101;

#[test]
fn binary_test_get_bits() {
    assert_eq!(get_bits(TEST_U16, 5, 7), 0b1001111);
}

#[test]
fn binary_test_get_bit() {
    assert_eq!(get_bit(TEST_U16, 0), 1);
    assert_eq!(get_bit(TEST_U16, 1), 0);
    assert_eq!(get_bit(TEST_U16, 7), 0);
    assert_eq!(get_bit(TEST_U16, 8), 1);
}

#[test]
fn merge_u8() {
    let higher = get_bits(TEST_U16, 0, 8) as u8;
    let lower = get_bits(TEST_U16, 8, 8) as u8;
    assert_eq!(TEST_U16, higher.merge_lower(lower));
    assert_eq!(TEST_U16, lower.merge_higher(higher));
}

#[test]
fn bit_test_get_bits() {
    assert_eq!(get_bits(0b1011010011110101, 5, 7), 0b1001111);
}

#[test]
fn bit_test_get_bit() {
    assert_eq!(get_bit(0b1011010011110101, 0), 1);
    assert_eq!(get_bit(0b1011010011110101, 1), 0);
    assert_eq!(get_bit(0b1011010011110101, 7), 0);
    assert_eq!(get_bit(0b1011010011110101, 8), 1);
}

#[test]
fn get_bits_at_the_edges() {
    assert_eq!(get_bits(0xabcd, 0, 16), 0xabcd);
    assert_eq!(get_bits(0xabcd, 0, 4), 0xa);
    assert_eq!(get_bits(0xabcd, 12, 4), 0xd);
    assert_eq!(get_bits(0xabcd, 15, 1), 1);
    assert_eq!(get_bits(0xffff, 3, 0), 0);
}

#[test]
fn set_bit_sets_and_clears_one_bit() {
    assert_eq!(set_bit(0, 0, true), 0x8000);
    assert_eq!(set_bit(0, 15, true), 0x0001);
    assert_eq!(set_bit(0, 7, true), 0x0100);
    assert_eq!(set_bit(0xffff, 0, false), 0x7fff);
    assert_eq!(set_bit(0xffff, 15, false), 0xfffe);
    assert_eq!(set_bit(0x0100, 7, true), 0x0100);
    assert_eq!(set_bit(0x0100, 8, false), 0x0100);
}

#[test]
fn set_bit_is_read_back_by_get_bit() {
    let word = 0b1011010011110101;
    for offset in 0..16u8 {
        for value in [false, true] {
            let written = set_bit(word, offset, value);
            for other in 0..16u8 {
                let expected = if other == offset { value as u16 } else { get_bit(word, other) };
                assert_eq!(get_bit(written, other), expected);
            }
        }
    }
}

#[test]
fn u8_merge_puts_the_first_byte_high() {
    assert_eq!(u8_merge(0x12, 0x34), 0x1234);
    assert_eq!(u8_merge(0, 0xff), 0x00ff);
    assert_eq!(u8_merge(0xff, 0), 0xff00);
    assert_eq!(u8_merge(0xff, 0xff), 0xffff);
}

#[test]
fn parse_u32_reads_little_endian() {
    assert_eq!(parse_u32(&[1, 0, 0, 0], false), 1);
    assert_eq!(parse_u32(&[0x78, 0x56, 0x34, 0x12], false), 0x12345678);
    assert_eq!(parse_u32(&[0x78, 0x56, 0x34, 0x12], true), 0x12345678);
    assert_eq!(parse_u32(&[0xff, 0xff, 0xff, 0xff], false), u32::MAX);
    assert_eq!(parse_some_u32(&[0, 1, 0, 0], false), Some(256));
}
