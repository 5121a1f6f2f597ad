//! The fixed-width storage kinds driven through the full capability set:
//! every width gets the same sequence of operations and expected states, and
//! the general properties are exercised on concrete values.

use bitfield::field::BitField;
use bitfield::field::Bits;

#[test]
fn bitfield_usize_sequence() {
    let mut bf: BitField<usize> = <BitField<usize> as Bits<usize>>::new();
    assert_eq!(0, bf.bits);
    bf.set_all();
    assert_eq!(usize::MAX, bf.bits);
    bf.unset_all();
    assert_eq!(0, bf.bits);
    bf.set_pattern(0b1101);
    assert_eq!(0b1101, bf.bits);
    bf.set_bit(1);
    assert_eq!(0b1111, bf.bits);
    bf.unset_bit(usize::MAX);
    assert_eq!(0b1111, bf.bits);
    bf.unset_bit(2);
    assert_eq!(0b1011, bf.bits);
    bf.set_bit(usize::MAX);
    assert_eq!(0b1011, bf.bits);
    assert_eq!(true, bf.check_bit(0));
    assert_eq!(true, bf.check_bit(1));
    assert_eq!(false, bf.check_bit(2));
    assert_eq!(true, bf.check_bit(3));
    assert!(bf.check_pattern(0b1011));
}

#[test]
fn bitfield_u8_sequence() {
    let mut bf: BitField<u8> = <BitField<u8> as Bits<u8>>::new();
    assert_eq!(0, bf.bits);
    bf.set_all();
    assert_eq!(u8::MAX, bf.bits);
    bf.unset_all();
    assert_eq!(0, bf.bits);
    bf.set_pattern(0b1101);
    assert_eq!(0b1101, bf.bits);
    bf.set_bit(1);
    assert_eq!(0b1111, bf.bits);
    bf.unset_bit(usize::MAX);
    assert_eq!(0b1111, bf.bits);
    bf.unset_bit(2);
    assert_eq!(0b1011, bf.bits);
    bf.set_bit(usize::MAX);
    assert_eq!(0b1011, bf.bits);
    assert_eq!(true, bf.check_bit(0));
    assert_eq!(true, bf.check_bit(1));
    assert_eq!(false, bf.check_bit(2));
    assert_eq!(true, bf.check_bit(3));
    assert!(bf.check_pattern(0b1011));
}

#[test]
fn bitfield_u16_sequence() {
    let mut bf: BitField<u16> = <BitField<u16> as Bits<u16>>::new();
    assert_eq!(0, bf.bits);
    bf.set_all();
    assert_eq!(u16::MAX, bf.bits);
    bf.unset_all();
    assert_eq!(0, bf.bits);
    bf.set_pattern(0b1101);
    assert_eq!(0b1101, bf.bits);
    bf.set_bit(1);
    assert_eq!(0b1111, bf.bits);
    bf.unset_bit(usize::MAX);
    assert_eq!(0b1111, bf.bits);
    bf.unset_bit(2);
    assert_eq!(0b1011, bf.bits);
    bf.set_bit(usize::MAX);
    assert_eq!(0b1011, bf.bits);
    assert_eq!(true, bf.check_bit(0));
    assert_eq!(true, bf.check_bit(1));
    assert_eq!(false, bf.check_bit(2));
    assert_eq!(true, bf.check_bit(3));
    assert!(bf.check_pattern(0b1011));
}

#[test]
fn bitfield_u32_sequence() {
    let mut bf: BitField<u32> = <BitField<u32> as Bits<u32>>::new();
    assert_eq!(0, bf.bits);
    bf.set_all();
    assert_eq!(u32::MAX, bf.bits);
    bf.unset_all();
    assert_eq!(0, bf.bits);
    bf.set_pattern(0b1101);
    assert_eq!(0b1101, bf.bits);
    bf.set_bit(1);
    assert_eq!(0b1111, bf.bits);
    bf.unset_bit(usize::MAX);
    assert_eq!(0b1111, bf.bits);
    bf.unset_bit(2);
    assert_eq!(0b1011, bf.bits);
    bf.set_bit(usize::MAX);
    assert_eq!(0b1011, bf.bits);
    assert_eq!(true, bf.check_bit(0));
    assert_eq!(true, bf.check_bit(1));
    assert_eq!(false, bf.check_bit(2));
    assert_eq!(true, bf.check_bit(3));
    assert!(bf.check_pattern(0b1011));
}

#[test]
fn bitfield_u64_sequence() {
    let mut bf: BitField<u64> = <BitField<u64> as Bits<u64>>::new();
    assert_eq!(0, bf.bits);
    bf.set_all();
    assert_eq!(u64::MAX, bf.bits);
    bf.unset_all();
    assert_eq!(0, bf.bits);
    bf.set_pattern(0b1101);
    assert_eq!(0b1101, bf.bits);
    bf.set_bit(1);
    assert_eq!(0b1111, bf.bits);
    bf.unset_bit(usize::MAX);
    assert_eq!(0b1111, bf.bits);
    bf.unset_bit(2);
    assert_eq!(0b1011, bf.bits);
    bf.set_bit(usize::MAX);
    assert_eq!(0b1011, bf.bits);
    assert_eq!(true, bf.check_bit(0));
    assert_eq!(true, bf.check_bit(1));
    assert_eq!(false, bf.check_bit(2));
    assert_eq!(true, bf.check_bit(3));
    assert!(bf.check_pattern(0b1011));
}

#[test]
fn empty_fixed_reads_every_bit_unset() {
    let bf: BitField<u8> = <BitField<u8> as Bits<u8>>::new();
    for i in 0..64usize {
        assert_eq!(false, bf.check_bit(i));
    }
    assert_eq!(false, bf.check_bit(usize::MAX));
}

#[test]
fn set_bit_then_check_bit_is_true_fixed() {
    for i in 0..16usize {
        let mut bf: BitField<u16> = <BitField<u16> as Bits<u16>>::new();
        bf.set_bit(i);
        assert_eq!(true, bf.check_bit(i));
    }
}

#[test]
fn unset_bit_then_check_bit_is_false_fixed() {
    let mut bf: BitField<u8> = <BitField<u8> as Bits<u8>>::new();
    bf.set_all();
    bf.unset_bit(5);
    assert_eq!(false, bf.check_bit(5));
    bf.unset_bit(200);
    assert_eq!(false, bf.check_bit(200));
}

#[test]
fn set_pattern_then_check_pattern_is_true_fixed() {
    let mut bf: BitField<u32> = <BitField<u32> as Bits<u32>>::new();
    bf.set_pattern(0xdead_beef);
    assert!(bf.check_pattern(0xdead_beef));
    assert!(!bf.check_pattern(0xdead_bee0));
}

#[test]
fn with_pattern_adopts_the_pattern_fixed() {
    let bf: BitField<u8> = <BitField<u8> as Bits<u8>>::with_pattern(0b1010_0001);
    assert!(bf.check_pattern(0b1010_0001));
    assert_eq!(true, bf.check_bit(0));
    assert_eq!(false, bf.check_bit(1));
    assert_eq!(true, bf.check_bit(5));
    assert_eq!(true, bf.check_bit(7));
}

#[test]
fn set_all_then_every_bit_in_capacity_is_set() {
    let mut bf: BitField<u64> = <BitField<u64> as Bits<u64>>::new();
    bf.set_all();
    for i in 0..64usize {
        assert_eq!(true, bf.check_bit(i));
    }
    assert_eq!(false, bf.check_bit(64));
}

#[test]
fn unset_all_then_every_bit_in_capacity_is_unset() {
    let mut bf: BitField<u64> = <BitField<u64> as Bits<u64>>::new();
    bf.set_all();
    bf.unset_all();
    for i in 0..64usize {
        assert_eq!(false, bf.check_bit(i));
    }
}

#[test]
fn set_bit_and_unset_bit_are_idempotent_fixed() {
    let mut once: BitField<u8> = <BitField<u8> as Bits<u8>>::with_pattern(0b0110);
    let mut twice: BitField<u8> = <BitField<u8> as Bits<u8>>::with_pattern(0b0110);
    once.set_bit(3);
    twice.set_bit(3);
    twice.set_bit(3);
    assert_eq!(once.bits, twice.bits);
    once.unset_bit(1);
    twice.unset_bit(1);
    twice.unset_bit(1);
    assert_eq!(once.bits, twice.bits);
}

#[test]
fn out_of_range_writes_never_change_fixed_storage() {
    let mut bf: BitField<u16> = <BitField<u16> as Bits<u16>>::with_pattern(0b1100_0011);
    bf.set_bit(16);
    bf.set_bit(1000);
    bf.set_bit(usize::MAX);
    bf.unset_bit(16);
    bf.unset_bit(1000);
    bf.unset_bit(usize::MAX);
    assert_eq!(0b1100_0011, bf.bits);
}
