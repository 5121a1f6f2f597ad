//! The fixed-width integer storages: `usize`, `u8`, `u16`, `u32` and `u64`.
//!
//! Capacity is exactly the width's bit count and never changes; an index at
//! or beyond the width is ignored by writes and reads as unset. One bit is
//! set by OR-ing a one-bit mask and cleared by AND-ing its complement. The
//! five implementations differ only in width; each is proved against the
//! shared contracts of `Bits` through the bit-vector lemmas of
//! `crate::bitops`.

use vstd::prelude::*;

use crate::bitops::lemma_u16_bit_ops;
use crate::bitops::lemma_u16_view_injective;
use crate::bitops::lemma_u32_bit_ops;
use crate::bitops::lemma_u32_view_injective;
use crate::bitops::lemma_u64_bit_ops;
use crate::bitops::lemma_u64_view_injective;
use crate::bitops::lemma_u8_bit_ops;
use crate::bitops::lemma_u8_view_injective;
use crate::bitops::lemma_usize_bit_ops;
use crate::bitops::lemma_usize_view_injective;
use crate::bitops::u16_bit;
use crate::bitops::u16_view;
use crate::bitops::u32_bit;
use crate::bitops::u32_view;
use crate::bitops::u64_bit;
use crate::bitops::u64_view;
use crate::bitops::u8_bit;
use crate::bitops::u8_view;
use crate::bitops::usize_bit;
use crate::bitops::usize_view;
use crate::field::BitField;
use crate::field::Bits;
use crate::model::bits_after_set;
use crate::model::bits_after_unset;
use crate::model::spec_check_bit;
use crate::model::spec_check_pattern;

verus! {

impl Bits<u8> for BitField<u8> {
    open spec fn bit_view(&self) -> Seq<bool> {
        u8_view(self.bits)
    }

    open spec fn pattern_view(pattern: &u8) -> Seq<bool> {
        u8_view(*pattern)
    }

    open spec fn empty_len() -> nat {
        8
    }

    open spec fn grown_len(cur_len: nat, index: usize) -> nat {
        cur_len
    }

    proof fn grown_len_facts(cur_len: nat, index: usize) {
    }

    fn new() -> (r: Self)
        ensures
            r.bits == 0u8,
    {
        let r = BitField { bits: 0u8 };
        proof {
            assert forall|j: int| 0 <= j < 8 implies !u8_view(0u8)[j] by {
                lemma_u8_bit_ops(0u8, 0u8, j as u8);
            }
        }
        r
    }

    fn with_pattern(pattern: u8) -> (r: Self)
        ensures
            r.bits == pattern,
    {
        BitField { bits: pattern }
    }

    fn set_all(&mut self)
        ensures
            final(self).bits == u8::MAX,
    {
        self.bits = u8::MAX;
        proof {
            assert forall|j: int| 0 <= j < 8 implies u8_view(u8::MAX)[j] by {
                lemma_u8_bit_ops(0u8, 0u8, j as u8);
            }
        }
    }

    fn set_pattern(&mut self, pattern: u8)
        ensures
            final(self).bits == pattern,
    {
        self.bits = pattern;
    }

    fn set_bit(&mut self, index: usize)
        ensures
            u8_view(final(self).bits) == bits_after_set(u8_view(old(self).bits), 8, index),
    {
        if index < 8 {
            let s: u8 = index as u8;
            self.bits = self.bits | (1u8 << s);
            proof {
                let before = u8_view(old(self).bits);
                let after = bits_after_set(before, 8, index);
                assert forall|j: int| 0 <= j < 8 implies u8_view(self.bits)[j] == after[j] by {
                    lemma_u8_bit_ops(old(self).bits, s, j as u8);
                }
                assert(u8_view(self.bits) =~= after);
            }
        }
    }

    fn unset_all(&mut self)
        ensures
            final(self).bits == 0u8,
    {
        self.bits = 0u8;
        proof {
            assert forall|j: int| 0 <= j < 8 implies !u8_view(0u8)[j] by {
                lemma_u8_bit_ops(0u8, 0u8, j as u8);
            }
        }
    }

    fn unset_bit(&mut self, index: usize)
        ensures
            u8_view(final(self).bits) == bits_after_unset(u8_view(old(self).bits), index),
    {
        if index < 8 {
            let s: u8 = index as u8;
            self.bits = self.bits & !(1u8 << s);
            proof {
                let before = u8_view(old(self).bits);
                let after = before.update(index as int, false);
                assert forall|j: int| 0 <= j < 8 implies u8_view(self.bits)[j] == after[j] by {
                    lemma_u8_bit_ops(old(self).bits, s, j as u8);
                }
                assert(u8_view(self.bits) =~= after);
            }
        }
    }

    fn check_pattern(&self, pattern: u8) -> (r: bool)
        ensures
            r == spec_check_pattern(u8_view(self.bits), u8_view(pattern)),
    {
        proof {
            if self.bits != pattern && u8_view(self.bits) == u8_view(pattern) {
                assert forall|j: u8| j < 8 implies #[trigger] u8_bit(self.bits, j) == u8_bit(
                    pattern,
                    j,
                ) by {
                    assert(u8_view(self.bits)[j as int] == u8_view(pattern)[j as int]);
                }
                lemma_u8_view_injective(self.bits, pattern);
            }
        }
        self.bits == pattern
    }

    fn check_bit(&self, index: usize) -> (r: bool)
        ensures
            r == spec_check_bit(u8_view(self.bits), index),
    {
        if index < 8 {
            (self.bits >> (index as u8)) & 1 == 1
        } else {
            false
        }
    }
}

impl Bits<u16> for BitField<u16> {
    open spec fn bit_view(&self) -> Seq<bool> {
        u16_view(self.bits)
    }

    open spec fn pattern_view(pattern: &u16) -> Seq<bool> {
        u16_view(*pattern)
    }

    open spec fn empty_len() -> nat {
        16
    }

    open spec fn grown_len(cur_len: nat, index: usize) -> nat {
        cur_len
    }

    proof fn grown_len_facts(cur_len: nat, index: usize) {
    }

    fn new() -> (r: Self)
        ensures
            r.bits == 0u16,
    {
        let r = BitField { bits: 0u16 };
        proof {
            assert forall|j: int| 0 <= j < 16 implies !u16_view(0u16)[j] by {
                lemma_u16_bit_ops(0u16, 0u16, j as u16);
            }
        }
        r
    }

    fn with_pattern(pattern: u16) -> (r: Self)
        ensures
            r.bits == pattern,
    {
        BitField { bits: pattern }
    }

    fn set_all(&mut self)
        ensures
            final(self).bits == u16::MAX,
    {
        self.bits = u16::MAX;
        proof {
            assert forall|j: int| 0 <= j < 16 implies u16_view(u16::MAX)[j] by {
                lemma_u16_bit_ops(0u16, 0u16, j as u16);
            }
        }
    }

    fn set_pattern(&mut self, pattern: u16)
        ensures
            final(self).bits == pattern,
    {
        self.bits = pattern;
    }

    fn set_bit(&mut self, index: usize)
        ensures
            u16_view(final(self).bits) == bits_after_set(u16_view(old(self).bits), 16, index),
    {
        if index < 16 {
            let s: u16 = index as u16;
            self.bits = self.bits | (1u16 << s);
            proof {
                let before = u16_view(old(self).bits);
                let after = bits_after_set(before, 16, index);
                assert forall|j: int| 0 <= j < 16 implies u16_view(self.bits)[j] == after[j] by {
                    lemma_u16_bit_ops(old(self).bits, s, j as u16);
                }
                assert(u16_view(self.bits) =~= after);
            }
        }
    }

    fn unset_all(&mut self)
        ensures
            final(self).bits == 0u16,
    {
        self.bits = 0u16;
        proof {
            assert forall|j: int| 0 <= j < 16 implies !u16_view(0u16)[j] by {
                lemma_u16_bit_ops(0u16, 0u16, j as u16);
            }
        }
    }

    fn unset_bit(&mut self, index: usize)
        ensures
            u16_view(final(self).bits) == bits_after_unset(u16_view(old(self).bits), index),
    {
        if index < 16 {
            let s: u16 = index as u16;
            self.bits = self.bits & !(1u16 << s);
            proof {
                let before = u16_view(old(self).bits);
                let after = before.update(index as int, false);
                assert forall|j: int| 0 <= j < 16 implies u16_view(self.bits)[j] == after[j] by {
                    lemma_u16_bit_ops(old(self).bits, s, j as u16);
                }
                assert(u16_view(self.bits) =~= after);
            }
        }
    }

    fn check_pattern(&self, pattern: u16) -> (r: bool)
        ensures
            r == spec_check_pattern(u16_view(self.bits), u16_view(pattern)),
    {
        proof {
            if self.bits != pattern && u16_view(self.bits) == u16_view(pattern) {
                assert forall|j: u16| j < 16 implies #[trigger] u16_bit(self.bits, j) == u16_bit(
                    pattern,
                    j,
                ) by {
                    assert(u16_view(self.bits)[j as int] == u16_view(pattern)[j as int]);
                }
                lemma_u16_view_injective(self.bits, pattern);
            }
        }
        self.bits == pattern
    }

    fn check_bit(&self, index: usize) -> (r: bool)
        ensures
            r == spec_check_bit(u16_view(self.bits), index),
    {
        if index < 16 {
            (self.bits >> (index as u16)) & 1 == 1
        } else {
            false
        }
    }
}

impl Bits<u32> for BitField<u32> {
    open spec fn bit_view(&self) -> Seq<bool> {
        u32_view(self.bits)
    }

    open spec fn pattern_view(pattern: &u32) -> Seq<bool> {
        u32_view(*pattern)
    }

    open spec fn empty_len() -> nat {
        32
    }

    open spec fn grown_len(cur_len: nat, index: usize) -> nat {
        cur_len
    }

    proof fn grown_len_facts(cur_len: nat, index: usize) {
    }

    fn new() -> (r: Self)
        ensures
            r.bits == 0u32,
    {
        let r = BitField { bits: 0u32 };
        proof {
            assert forall|j: int| 0 <= j < 32 implies !u32_view(0u32)[j] by {
                lemma_u32_bit_ops(0u32, 0u32, j as u32);
            }
        }
        r
    }

    fn with_pattern(pattern: u32) -> (r: Self)
        ensures
            r.bits == pattern,
    {
        BitField { bits: pattern }
    }

    fn set_all(&mut self)
        ensures
            final(self).bits == u32::MAX,
    {
        self.bits = u32::MAX;
        proof {
            assert forall|j: int| 0 <= j < 32 implies u32_view(u32::MAX)[j] by {
                lemma_u32_bit_ops(0u32, 0u32, j as u32);
            }
        }
    }

    fn set_pattern(&mut self, pattern: u32)
        ensures
            final(self).bits == pattern,
    {
        self.bits = pattern;
    }

    fn set_bit(&mut self, index: usize)
        ensures
            u32_view(final(self).bits) == bits_after_set(u32_view(old(self).bits), 32, index),
    {
        if index < 32 {
            let s: u32 = index as u32;
            self.bits = self.bits | (1u32 << s);
            proof {
                let before = u32_view(old(self).bits);
                let after = bits_after_set(before, 32, index);
                assert forall|j: int| 0 <= j < 32 implies u32_view(self.bits)[j] == after[j] by {
                    lemma_u32_bit_ops(old(self).bits, s, j as u32);
                }
                assert(u32_view(self.bits) =~= after);
            }
        }
    }

    fn unset_all(&mut self)
        ensures
            final(self).bits == 0u32,
    {
        self.bits = 0u32;
        proof {
            assert forall|j: int| 0 <= j < 32 implies !u32_view(0u32)[j] by {
                lemma_u32_bit_ops(0u32, 0u32, j as u32);
            }
        }
    }

    fn unset_bit(&mut self, index: usize)
        ensures
            u32_view(final(self).bits) == bits_after_unset(u32_view(old(self).bits), index),
    {
        if index < 32 {
            let s: u32 = index as u32;
            self.bits = self.bits & !(1u32 << s);
            proof {
                let before = u32_view(old(self).bits);
                let after = before.update(index as int, false);
                assert forall|j: int| 0 <= j < 32 implies u32_view(self.bits)[j] == after[j] by {
                    lemma_u32_bit_ops(old(self).bits, s, j as u32);
                }
                assert(u32_view(self.bits) =~= after);
            }
        }
    }

    fn check_pattern(&self, pattern: u32) -> (r: bool)
        ensures
            r == spec_check_pattern(u32_view(self.bits), u32_view(pattern)),
    {
        proof {
            if self.bits != pattern && u32_view(self.bits) == u32_view(pattern) {
                assert forall|j: u32| j < 32 implies #[trigger] u32_bit(self.bits, j) == u32_bit(
                    pattern,
                    j,
                ) by {
                    assert(u32_view(self.bits)[j as int] == u32_view(pattern)[j as int]);
                }
                lemma_u32_view_injective(self.bits, pattern);
            }
        }
        self.bits == pattern
    }

    fn check_bit(&self, index: usize) -> (r: bool)
        ensures
            r == spec_check_bit(u32_view(self.bits), index),
    {
        if index < 32 {
            (self.bits >> (index as u32)) & 1 == 1
        } else {
            false
        }
    }
}

impl Bits<u64> for BitField<u64> {
    open spec fn bit_view(&self) -> Seq<bool> {
        u64_view(self.bits)
    }

    open spec fn pattern_view(pattern: &u64) -> Seq<bool> {
        u64_view(*pattern)
    }

    open spec fn empty_len() -> nat {
        64
    }

    open spec fn grown_len(cur_len: nat, index: usize) -> nat {
        cur_len
    }

    proof fn grown_len_facts(cur_len: nat, index: usize) {
    }

    fn new() -> (r: Self)
        ensures
            r.bits == 0u64,
    {
        let r = BitField { bits: 0u64 };
        proof {
            assert forall|j: int| 0 <= j < 64 implies !u64_view(0u64)[j] by {
                lemma_u64_bit_ops(0u64, 0u64, j as u64);
            }
        }
        r
    }

    fn with_pattern(pattern: u64) -> (r: Self)
        ensures
            r.bits == pattern,
    {
        BitField { bits: pattern }
    }

    fn set_all(&mut self)
        ensures
            final(self).bits == u64::MAX,
    {
        self.bits = u64::MAX;
        proof {
            assert forall|j: int| 0 <= j < 64 implies u64_view(u64::MAX)[j] by {
                lemma_u64_bit_ops(0u64, 0u64, j as u64);
            }
        }
    }

    fn set_pattern(&mut self, pattern: u64)
        ensures
            final(self).bits == pattern,
    {
        self.bits = pattern;
    }

    fn set_bit(&mut self, index: usize)
        ensures
            u64_view(final(self).bits) == bits_after_set(u64_view(old(self).bits), 64, index),
    {
        if index < 64 {
            let s: u64 = index as u64;
            self.bits = self.bits | (1u64 << s);
            proof {
                let before = u64_view(old(self).bits);
                let after = bits_after_set(before, 64, index);
                assert forall|j: int| 0 <= j < 64 implies u64_view(self.bits)[j] == after[j] by {
                    lemma_u64_bit_ops(old(self).bits, s, j as u64);
                }
                assert(u64_view(self.bits) =~= after);
            }
        }
    }

    fn unset_all(&mut self)
        ensures
            final(self).bits == 0u64,
    {
        self.bits = 0u64;
        proof {
            assert forall|j: int| 0 <= j < 64 implies !u64_view(0u64)[j] by {
                lemma_u64_bit_ops(0u64, 0u64, j as u64);
            }
        }
    }

    fn unset_bit(&mut self, index: usize)
        ensures
            u64_view(final(self).bits) == bits_after_unset(u64_view(old(self).bits), index),
    {
        if index < 64 {
            let s: u64 = index as u64;
            self.bits = self.bits & !(1u64 << s);
            proof {
                let before = u64_view(old(self).bits);
                let after = before.update(index as int, false);
                assert forall|j: int| 0 <= j < 64 implies u64_view(self.bits)[j] == after[j] by {
                    lemma_u64_bit_ops(old(self).bits, s, j as u64);
                }
                assert(u64_view(self.bits) =~= after);
            }
        }
    }

    fn check_pattern(&self, pattern: u64) -> (r: bool)
        ensures
            r == spec_check_pattern(u64_view(self.bits), u64_view(pattern)),
    {
        proof {
            if self.bits != pattern && u64_view(self.bits) == u64_view(pattern) {
                assert forall|j: u64| j < 64 implies #[trigger] u64_bit(self.bits, j) == u64_bit(
                    pattern,
                    j,
                ) by {
                    assert(u64_view(self.bits)[j as int] == u64_view(pattern)[j as int]);
                }
                lemma_u64_view_injective(self.bits, pattern);
            }
        }
        self.bits == pattern
    }

    fn check_bit(&self, index: usize) -> (r: bool)
        ensures
            r == spec_check_bit(u64_view(self.bits), index),
    {
        if index < 64 {
            (self.bits >> (index as u64)) & 1 == 1
        } else {
            false
        }
    }
}

impl Bits<usize> for BitField<usize> {
    open spec fn bit_view(&self) -> Seq<bool> {
        usize_view(self.bits)
    }

    open spec fn pattern_view(pattern: &usize) -> Seq<bool> {
        usize_view(*pattern)
    }

    open spec fn empty_len() -> nat {
        usize::BITS as nat
    }

    open spec fn grown_len(cur_len: nat, index: usize) -> nat {
        cur_len
    }

    proof fn grown_len_facts(cur_len: nat, index: usize) {
    }

    fn new() -> (r: Self)
        ensures
            r.bits == 0usize,
    {
        let r = BitField { bits: 0usize };
        proof {
            assert forall|j: int| 0 <= j < usize::BITS as int implies !usize_view(0usize)[j] by {
                lemma_usize_bit_ops(0usize, 0usize, j as usize);
            }
        }
        r
    }

    fn with_pattern(pattern: usize) -> (r: Self)
        ensures
            r.bits == pattern,
    {
        BitField { bits: pattern }
    }

    fn set_all(&mut self)
        ensures
            final(self).bits == !0usize,
    {
        self.bits = !0usize;
        proof {
            assert forall|j: int| 0 <= j < usize::BITS as int implies usize_view(!0usize)[j] by {
                lemma_usize_bit_ops(0usize, 0usize, j as usize);
            }
        }
    }

    fn set_pattern(&mut self, pattern: usize)
        ensures
            final(self).bits == pattern,
    {
        self.bits = pattern;
    }

    fn set_bit(&mut self, index: usize)
        ensures
            usize_view(final(self).bits) == bits_after_set(
                usize_view(old(self).bits),
                usize::BITS as nat,
                index,
            ),
    {
        if index < usize::BITS as usize {
            self.bits = self.bits | (1usize << index);
            proof {
                let before = usize_view(old(self).bits);
                let after = bits_after_set(before, usize::BITS as nat, index);
                assert forall|j: int| 0 <= j < usize::BITS as int implies usize_view(self.bits)[j]
                    == after[j] by {
                    lemma_usize_bit_ops(old(self).bits, index, j as usize);
                }
                assert(usize_view(self.bits) =~= after);
            }
        }
    }

    fn unset_all(&mut self)
        ensures
            final(self).bits == 0usize,
    {
        self.bits = 0usize;
        proof {
            assert forall|j: int| 0 <= j < usize::BITS as int implies !usize_view(0usize)[j] by {
                lemma_usize_bit_ops(0usize, 0usize, j as usize);
            }
        }
    }

    fn unset_bit(&mut self, index: usize)
        ensures
            usize_view(final(self).bits) == bits_after_unset(usize_view(old(self).bits), index),
    {
        if index < usize::BITS as usize {
            self.bits = self.bits & !(1usize << index);
            proof {
                let before = usize_view(old(self).bits);
                let after = before.update(index as int, false);
                assert forall|j: int| 0 <= j < usize::BITS as int implies usize_view(self.bits)[j]
                    == after[j] by {
                    lemma_usize_bit_ops(old(self).bits, index, j as usize);
                }
                assert(usize_view(self.bits) =~= after);
            }
        }
    }

    fn check_pattern(&self, pattern: usize) -> (r: bool)
        ensures
            r == spec_check_pattern(usize_view(self.bits), usize_view(pattern)),
    {
        proof {
            if self.bits != pattern && usize_view(self.bits) == usize_view(pattern) {
                assert forall|j: usize| j < usize::BITS as usize implies #[trigger] usize_bit(
                    self.bits,
                    j,
                ) == usize_bit(pattern, j) by {
                    assert(usize_view(self.bits)[j as int] == usize_view(pattern)[j as int]);
                }
                lemma_usize_view_injective(self.bits, pattern);
            }
        }
        self.bits == pattern
    }

    fn check_bit(&self, index: usize) -> (r: bool)
        ensures
            r == spec_check_bit(usize_view(self.bits), index),
    {
        if index < usize::BITS as usize {
            (self.bits >> index) & 1 == 1
        } else {
            false
        }
    }
}

} // verus!
