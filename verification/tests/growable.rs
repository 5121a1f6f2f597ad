//! The growable storage kinds driven through the full capability set: the
//! boolean-sequence and packed-byte bit-fields, their growth-on-write
//! behaviour, and the general properties on concrete values.

use bitfield::field::BitField;
use bitfield::field::Bits;

#[test]
fn bitfield_vec_bool_sequence() {
    let mut bf: BitField<Vec<bool>> = <BitField<Vec<bool>> as Bits<Vec<bool>>>::new();
    let v: Vec<bool> = Vec::new();
    assert_eq!(v, bf.bits);
    bf.set_pattern(vec![false, true, false]);
    assert_eq!(vec![false, true, false], bf.bits);
    bf.set_all();
    assert_eq!(vec![true; 3], bf.bits);
    bf.unset_all();
    assert_eq!(vec![false; 3], bf.bits);
    bf.set_bit(1);
    bf.set_bit(2);
    assert_eq!(vec![false, true, true], bf.bits);
    bf.unset_bit(4);
    assert_eq!(vec![false, true, true], bf.bits);
    bf.unset_bit(1);
    assert_eq!(vec![false, false, true], bf.bits);
    bf.set_bit(4);
    assert_eq!(vec![false, false, true, false, true], bf.bits);
    assert_eq!(false, bf.check_bit(0));
    assert_eq!(false, bf.check_bit(1));
    assert_eq!(true, bf.check_bit(2));
    assert_eq!(false, bf.check_bit(3));
    assert_eq!(true, bf.check_bit(4));
    assert!(bf.check_pattern(vec![false, false, true, false, true]));
}

#[test]
fn bitfield_vec_u8_sequence() {
    let mut bf: BitField<Vec<u8>> = <BitField<Vec<u8>> as Bits<Vec<u8>>>::new();
    let v: Vec<u8> = Vec::new();
    assert_eq!(v, bf.bits);
    bf.set_pattern(vec![0b1101]);
    assert_eq!(vec![0b1101], bf.bits);
    bf.set_all();
    assert_eq!(vec![255], bf.bits);
    bf.unset_all();
    assert_eq!(vec![0], bf.bits);
    bf.set_pattern(vec![0b1101]);
    bf.set_bit(1);
    assert_eq!(vec![0b1111], bf.bits);
    bf.unset_bit(16);
    assert_eq!(vec![0b1111], bf.bits);
    bf.unset_bit(2);
    assert_eq!(vec![0b1011], bf.bits);
    assert_eq!(true, bf.check_bit(0));
    assert_eq!(true, bf.check_bit(1));
    assert_eq!(false, bf.check_bit(2));
    assert_eq!(true, bf.check_bit(3));
    assert!(bf.check_pattern(vec![0b1011]));
    bf.set_bit(16);
    assert_eq!(vec![0b00001011, 0, 1], bf.bits);
}

#[test]
fn empty_growable_reads_every_bit_unset() {
    let booleans: BitField<Vec<bool>> = <BitField<Vec<bool>> as Bits<Vec<bool>>>::new();
    let packed: BitField<Vec<u8>> = <BitField<Vec<u8>> as Bits<Vec<u8>>>::new();
    for i in 0..32usize {
        assert_eq!(false, booleans.check_bit(i));
        assert_eq!(false, packed.check_bit(i));
    }
    assert_eq!(false, booleans.check_bit(usize::MAX));
    assert_eq!(false, packed.check_bit(usize::MAX));
}

#[test]
fn set_bit_then_check_bit_is_true_growable() {
    for i in [0usize, 1, 7, 8, 9, 31] {
        let mut booleans: BitField<Vec<bool>> = <BitField<Vec<bool>> as Bits<Vec<bool>>>::new();
        let mut packed: BitField<Vec<u8>> = <BitField<Vec<u8>> as Bits<Vec<u8>>>::new();
        booleans.set_bit(i);
        packed.set_bit(i);
        assert_eq!(true, booleans.check_bit(i));
        assert_eq!(true, packed.check_bit(i));
    }
}

#[test]
fn set_bit_grows_minimally_with_false_fill() {
    let mut booleans: BitField<Vec<bool>> = <BitField<Vec<bool>> as Bits<Vec<bool>>>::new();
    booleans.set_bit(3);
    assert_eq!(vec![false, false, false, true], booleans.bits);
    let mut packed: BitField<Vec<u8>> = <BitField<Vec<u8>> as Bits<Vec<u8>>>::new();
    packed.set_bit(13);
    assert_eq!(vec![0, 0b0010_0000], packed.bits);
}

#[test]
fn unset_bit_then_check_bit_is_false_growable() {
    let mut booleans: BitField<Vec<bool>> =
        <BitField<Vec<bool>> as Bits<Vec<bool>>>::with_pattern(vec![true, true, true]);
    booleans.unset_bit(1);
    assert_eq!(false, booleans.check_bit(1));
    booleans.unset_bit(9);
    assert_eq!(false, booleans.check_bit(9));
    let mut packed: BitField<Vec<u8>> =
        <BitField<Vec<u8>> as Bits<Vec<u8>>>::with_pattern(vec![0xff]);
    packed.unset_bit(6);
    assert_eq!(false, packed.check_bit(6));
    packed.unset_bit(100);
    assert_eq!(false, packed.check_bit(100));
}

#[test]
fn unset_bit_never_grows_growable_storage() {
    let mut booleans: BitField<Vec<bool>> =
        <BitField<Vec<bool>> as Bits<Vec<bool>>>::with_pattern(vec![true, false]);
    booleans.unset_bit(17);
    assert_eq!(2, booleans.bits.len());
    let mut packed: BitField<Vec<u8>> =
        <BitField<Vec<u8>> as Bits<Vec<u8>>>::with_pattern(vec![0b101]);
    packed.unset_bit(8);
    assert_eq!(1, packed.bits.len());
    assert_eq!(vec![0b101], packed.bits);
}

#[test]
fn set_pattern_then_check_pattern_is_true_growable() {
    let mut booleans: BitField<Vec<bool>> = <BitField<Vec<bool>> as Bits<Vec<bool>>>::new();
    booleans.set_pattern(vec![true, false, true]);
    assert!(booleans.check_pattern(vec![true, false, true]));
    assert!(!booleans.check_pattern(vec![true, false]));
    assert!(!booleans.check_pattern(vec![true, false, false]));
    let mut packed: BitField<Vec<u8>> = <BitField<Vec<u8>> as Bits<Vec<u8>>>::new();
    packed.set_pattern(vec![7, 0, 255]);
    assert!(packed.check_pattern(vec![7, 0, 255]));
    assert!(!packed.check_pattern(vec![7, 0]));
    assert!(!packed.check_pattern(vec![7, 1, 255]));
}

#[test]
fn set_all_does_not_grow_growable_storage() {
    let mut booleans: BitField<Vec<bool>> = <BitField<Vec<bool>> as Bits<Vec<bool>>>::new();
    booleans.set_all();
    assert_eq!(0, booleans.bits.len());
    booleans.set_pattern(vec![false, false]);
    booleans.set_all();
    assert_eq!(vec![true, true], booleans.bits);
    for i in 0..2usize {
        assert_eq!(true, booleans.check_bit(i));
    }
    let mut packed: BitField<Vec<u8>> = <BitField<Vec<u8>> as Bits<Vec<u8>>>::new();
    packed.set_pattern(vec![0, 1]);
    packed.set_all();
    assert_eq!(vec![255, 255], packed.bits);
    for i in 0..16usize {
        assert_eq!(true, packed.check_bit(i));
    }
    assert_eq!(false, packed.check_bit(16));
}

#[test]
fn unset_all_clears_without_shrinking() {
    let mut booleans: BitField<Vec<bool>> =
        <BitField<Vec<bool>> as Bits<Vec<bool>>>::with_pattern(vec![true, true, false]);
    booleans.unset_all();
    assert_eq!(vec![false, false, false], booleans.bits);
    let mut packed: BitField<Vec<u8>> =
        <BitField<Vec<u8>> as Bits<Vec<u8>>>::with_pattern(vec![9, 200]);
    packed.unset_all();
    assert_eq!(vec![0, 0], packed.bits);
    for i in 0..16usize {
        assert_eq!(false, packed.check_bit(i));
    }
}

#[test]
fn set_bit_and_unset_bit_are_idempotent_growable() {
    let mut once: BitField<Vec<bool>> = <BitField<Vec<bool>> as Bits<Vec<bool>>>::new();
    let mut twice: BitField<Vec<bool>> = <BitField<Vec<bool>> as Bits<Vec<bool>>>::new();
    once.set_bit(4);
    twice.set_bit(4);
    twice.set_bit(4);
    assert_eq!(once.bits, twice.bits);
    once.unset_bit(2);
    twice.unset_bit(2);
    twice.unset_bit(2);
    assert_eq!(once.bits, twice.bits);
    let mut once_packed: BitField<Vec<u8>> = <BitField<Vec<u8>> as Bits<Vec<u8>>>::new();
    let mut twice_packed: BitField<Vec<u8>> = <BitField<Vec<u8>> as Bits<Vec<u8>>>::new();
    once_packed.set_bit(11);
    twice_packed.set_bit(11);
    twice_packed.set_bit(11);
    assert_eq!(once_packed.bits, twice_packed.bits);
    once_packed.unset_bit(11);
    twice_packed.unset_bit(11);
    twice_packed.unset_bit(11);
    assert_eq!(once_packed.bits, twice_packed.bits);
}

#[test]
fn packed_byte_growth_crosses_byte_boundaries() {
    let mut packed: BitField<Vec<u8>> = <BitField<Vec<u8>> as Bits<Vec<u8>>>::new();
    packed.set_bit(7);
    assert_eq!(vec![0b1000_0000], packed.bits);
    packed.set_bit(8);
    assert_eq!(vec![0b1000_0000, 0b0000_0001], packed.bits);
    assert_eq!(true, packed.check_bit(7));
    assert_eq!(true, packed.check_bit(8));
    assert_eq!(false, packed.check_bit(9));
}
