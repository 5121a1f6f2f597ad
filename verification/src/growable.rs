//! The growable sequence storages: one boolean per bit (`Vec<bool>`), and
//! eight packed bits per byte (`Vec<u8>`).
//!
//! Capacity is the current sequence length (times eight for packed bytes).
//! Only `set_bit` can grow it, and minimally: just far enough to cover the
//! written index, with every newly created position other than that index
//! unset. Reads and clears beyond the capacity are silent no-ops.

use vstd::prelude::*;

use crate::bitops::bytes_view;
use crate::bitops::lemma_bytes_view_injective;
use crate::bitops::lemma_u8_bit_ops;
use crate::bitops::u8_bit;
use crate::field::BitField;
use crate::field::Bits;
use crate::model::bits_after_set;
use crate::model::bits_after_unset;
use crate::model::spec_check_bit;
use crate::model::spec_check_pattern;

verus! {

impl Bits<Vec<bool>> for BitField<Vec<bool>> {
    open spec fn bit_view(&self) -> Seq<bool> {
        self.bits@
    }

    open spec fn pattern_view(pattern: &Vec<bool>) -> Seq<bool> {
        pattern@
    }

    open spec fn empty_len() -> nat {
        0
    }

    open spec fn grown_len(cur_len: nat, index: usize) -> nat {
        if index < cur_len {
            cur_len
        } else {
            (index + 1) as nat
        }
    }

    proof fn grown_len_facts(cur_len: nat, index: usize) {
    }

    fn new() -> (r: Self)
        ensures
            r.bits@ == Seq::<bool>::empty(),
    {
        BitField { bits: Vec::new() }
    }

    fn with_pattern(pattern: Vec<bool>) -> (r: Self)
        ensures
            r.bits@ == pattern@,
    {
        BitField { bits: pattern }
    }

    fn set_all(&mut self)
        ensures
            final(self).bits@.len() == old(self).bits@.len(),
            forall|j: int| 0 <= j < final(self).bits@.len() ==> final(self).bits@[j],
    {
        let n = self.bits.len();
        let mut i: usize = 0;
        while i < n
            invariant
                n == old(self).bit_view().len(),
                self.bits@.len() == n,
                i <= n,
                forall|j: int| 0 <= j < i ==> self.bits@[j],
            decreases n - i,
        {
            self.bits.set(i, true);
            i = i + 1;
        }
    }

    fn set_pattern(&mut self, pattern: Vec<bool>)
        ensures
            final(self).bits@ == pattern@,
    {
        self.bits = pattern;
    }

    fn set_bit(&mut self, index: usize)
        ensures
            final(self).bits@ == bits_after_set(
                old(self).bits@,
                Self::grown_len(old(self).bits@.len(), index),
                index,
            ),
    {
        if index >= self.bits.len() {
            let diff = index - self.bits.len();
            let mut k: usize = 0;
            while k < diff
                invariant
                    diff == index - old(self).bit_view().len(),
                    k <= diff,
                    self.bits@.len() == old(self).bit_view().len() + k,
                    forall|j: int|
                        0 <= j < old(self).bit_view().len() ==> self.bits@[j] == old(
                            self,
                        ).bit_view()[j],
                    forall|j: int|
                        old(self).bit_view().len() <= j < self.bits@.len() ==> !self.bits@[j],
                decreases diff - k,
            {
                self.bits.push(false);
                k = k + 1;
            }
            self.bits.push(true);
            proof {
                let before = old(self).bit_view();
                let after = bits_after_set(before, (index + 1) as nat, index);
                assert(self.bits@ =~= after);
            }
        } else {
            self.bits.set(index, true);
            proof {
                let before = old(self).bit_view();
                assert(self.bits@ =~= bits_after_set(before, before.len(), index));
            }
        }
    }

    fn unset_all(&mut self)
        ensures
            final(self).bits@.len() == old(self).bits@.len(),
            forall|j: int| 0 <= j < final(self).bits@.len() ==> !final(self).bits@[j],
    {
        let n = self.bits.len();
        let mut i: usize = 0;
        while i < n
            invariant
                n == old(self).bit_view().len(),
                self.bits@.len() == n,
                i <= n,
                forall|j: int| 0 <= j < i ==> !self.bits@[j],
            decreases n - i,
        {
            self.bits.set(i, false);
            i = i + 1;
        }
    }

    fn unset_bit(&mut self, index: usize)
        ensures
            final(self).bits@ == bits_after_unset(old(self).bits@, index),
    {
        if index < self.bits.len() {
            self.bits.set(index, false);
        }
    }

    fn check_pattern(&self, pattern: Vec<bool>) -> (r: bool)
        ensures
            r == spec_check_pattern(self.bits@, pattern@),
    {
        if self.bits.len() != pattern.len() {
            return false;
        }
        let n = self.bits.len();
        let mut i: usize = 0;
        while i < n
            invariant
                n == self.bits@.len(),
                n == pattern@.len(),
                i <= n,
                forall|j: int| 0 <= j < i ==> self.bits@[j] == pattern@[j],
            decreases n - i,
        {
            if self.bits[i] != pattern[i] {
                return false;
            }
            i = i + 1;
        }
        proof {
            assert(self.bits@ =~= pattern@);
        }
        true
    }

    fn check_bit(&self, index: usize) -> (r: bool)
        ensures
            r == spec_check_bit(self.bits@, index),
    {
        if index < self.bits.len() {
            self.bits[index]
        } else {
            false
        }
    }
}

/// The decomposition of a bit index into its byte index and its offset
/// within that byte, available to the packed-byte proofs below.
proof fn lemma_bit_index_parts(index: usize)
    ensures
        index as int == 8 * (index as int / 8) + index as int % 8,
        0 <= index as int % 8 < 8,
{
    vstd::arithmetic::div_mod::lemma_fundamental_div_mod(index as int, 8);
    vstd::arithmetic::div_mod::lemma_mod_pos_bound(index as int, 8);
}

impl Bits<Vec<u8>> for BitField<Vec<u8>> {
    open spec fn bit_view(&self) -> Seq<bool> {
        bytes_view(self.bits@)
    }

    open spec fn pattern_view(pattern: &Vec<u8>) -> Seq<bool> {
        bytes_view(pattern@)
    }

    open spec fn empty_len() -> nat {
        0
    }

    open spec fn grown_len(cur_len: nat, index: usize) -> nat {
        if index < cur_len {
            cur_len
        } else {
            ((index as int / 8 + 1) * 8) as nat
        }
    }

    proof fn grown_len_facts(cur_len: nat, index: usize) {
        lemma_bit_index_parts(index);
    }

    fn new() -> (r: Self)
        ensures
            r.bits@ == Seq::<u8>::empty(),
    {
        BitField { bits: Vec::new() }
    }

    fn with_pattern(pattern: Vec<u8>) -> (r: Self)
        ensures
            r.bits@ == pattern@,
    {
        BitField { bits: pattern }
    }

    fn set_all(&mut self)
        ensures
            final(self).bits@.len() == old(self).bits@.len(),
            forall|j: int| 0 <= j < final(self).bits@.len() ==> final(self).bits@[j] == 255u8,
    {
        let n = self.bits.len();
        let mut i: usize = 0;
        while i < n
            invariant
                n == old(self).bits@.len(),
                self.bits@.len() == n,
                i <= n,
                forall|j: int| 0 <= j < i ==> self.bits@[j] == 255u8,
            decreases n - i,
        {
            self.bits.set(i, 255);
            i = i + 1;
        }
        proof {
            assert forall|i: int| 0 <= i < bytes_view(self.bits@).len() implies bytes_view(
                self.bits@,
            )[i] by {
                vstd::arithmetic::div_mod::lemma_fundamental_div_mod(i, 8);
                vstd::arithmetic::div_mod::lemma_mod_pos_bound(i, 8);
                lemma_u8_bit_ops(0u8, 0u8, (i % 8) as u8);
            }
        }
    }

    fn set_pattern(&mut self, pattern: Vec<u8>)
        ensures
            final(self).bits@ == pattern@,
    {
        self.bits = pattern;
    }

    fn set_bit(&mut self, index: usize)
        ensures
            bytes_view(final(self).bits@) == bits_after_set(
                bytes_view(old(self).bits@),
                Self::grown_len(bytes_view(old(self).bits@).len(), index),
                index,
            ),
    {
        let byte = index / 8;
        let off: u8 = (index % 8) as u8;
        proof {
            lemma_bit_index_parts(index);
        }
        if byte >= self.bits.len() {
            let diff = byte - self.bits.len();
            let mut k: usize = 0;
            while k < diff
                invariant
                    diff == byte - old(self).bits@.len(),
                    byte == index as int / 8,
                    k <= diff,
                    self.bits@.len() == old(self).bits@.len() + k,
                    forall|j: int|
                        0 <= j < old(self).bits@.len() ==> self.bits@[j] == old(self).bits@[j],
                    forall|j: int|
                        old(self).bits@.len() <= j < self.bits@.len() ==> self.bits@[j] == 0u8,
                decreases diff - k,
            {
                self.bits.push(0);
                k = k + 1;
            }
            self.bits.push(1u8 << off);
            proof {
                let before = old(self).bit_view();
                let n = Self::grown_len(before.len(), index);
                let after = bits_after_set(before, n, index);
                assert(n == (byte + 1) * 8);
                assert(self.bits@.len() == byte + 1);
                assert forall|i: int| 0 <= i < n implies self.bit_view()[i] == after[i] by {
                    vstd::arithmetic::div_mod::lemma_fundamental_div_mod(i, 8);
                    vstd::arithmetic::div_mod::lemma_mod_pos_bound(i, 8);
                    lemma_u8_bit_ops(0u8, off, (i % 8) as u8);
                }
                assert(self.bit_view() =~= after);
            }
        } else {
            let updated = self.bits[byte] | (1u8 << off);
            self.bits.set(byte, updated);
            proof {
                let before = old(self).bit_view();
                let after = bits_after_set(before, before.len(), index);
                assert forall|i: int| 0 <= i < before.len() implies self.bit_view()[i] == after[i]
                    by {
                    vstd::arithmetic::div_mod::lemma_fundamental_div_mod(i, 8);
                    vstd::arithmetic::div_mod::lemma_mod_pos_bound(i, 8);
                    lemma_u8_bit_ops(old(self).bits@[i / 8], off, (i % 8) as u8);
                }
                assert(self.bit_view() =~= after);
            }
        }
    }

    fn unset_all(&mut self)
        ensures
            final(self).bits@.len() == old(self).bits@.len(),
            forall|j: int| 0 <= j < final(self).bits@.len() ==> final(self).bits@[j] == 0u8,
    {
        let n = self.bits.len();
        let mut i: usize = 0;
        while i < n
            invariant
                n == old(self).bits@.len(),
                self.bits@.len() == n,
                i <= n,
                forall|j: int| 0 <= j < i ==> self.bits@[j] == 0u8,
            decreases n - i,
        {
            self.bits.set(i, 0);
            i = i + 1;
        }
        proof {
            assert forall|i: int| 0 <= i < bytes_view(self.bits@).len() implies !bytes_view(
                self.bits@,
            )[i] by {
                vstd::arithmetic::div_mod::lemma_fundamental_div_mod(i, 8);
                vstd::arithmetic::div_mod::lemma_mod_pos_bound(i, 8);
                lemma_u8_bit_ops(0u8, 0u8, (i % 8) as u8);
            }
        }
    }

    fn unset_bit(&mut self, index: usize)
        ensures
            bytes_view(final(self).bits@) == bits_after_unset(bytes_view(old(self).bits@), index),
    {
        let byte = index / 8;
        let off: u8 = (index % 8) as u8;
        proof {
            lemma_bit_index_parts(index);
        }
        if byte < self.bits.len() {
            let updated = self.bits[byte] & !(1u8 << off);
            self.bits.set(byte, updated);
            proof {
                let before = old(self).bit_view();
                let after = before.update(index as int, false);
                assert forall|i: int| 0 <= i < before.len() implies self.bit_view()[i] == after[i]
                    by {
                    vstd::arithmetic::div_mod::lemma_fundamental_div_mod(i, 8);
                    vstd::arithmetic::div_mod::lemma_mod_pos_bound(i, 8);
                    lemma_u8_bit_ops(old(self).bits@[i / 8], off, (i % 8) as u8);
                }
                assert(self.bit_view() =~= after);
            }
        }
    }

    fn check_pattern(&self, pattern: Vec<u8>) -> (r: bool)
        ensures
            r == spec_check_pattern(bytes_view(self.bits@), bytes_view(pattern@)),
    {
        if self.bits.len() != pattern.len() {
            proof {
                if self.bit_view() == Self::pattern_view(&pattern) {
                    lemma_bytes_view_injective(self.bits@, pattern@);
                }
            }
            return false;
        }
        let n = self.bits.len();
        let mut i: usize = 0;
        while i < n
            invariant
                n == self.bits@.len(),
                n == pattern@.len(),
                i <= n,
                forall|j: int| 0 <= j < i ==> self.bits@[j] == pattern@[j],
            decreases n - i,
        {
            if self.bits[i] != pattern[i] {
                proof {
                    if self.bit_view() == Self::pattern_view(&pattern) {
                        lemma_bytes_view_injective(self.bits@, pattern@);
                    }
                }
                return false;
            }
            i = i + 1;
        }
        proof {
            assert(self.bits@ =~= pattern@);
        }
        true
    }

    fn check_bit(&self, index: usize) -> (r: bool)
        ensures
            r == spec_check_bit(bytes_view(self.bits@), index),
    {
        let byte = index / 8;
        proof {
            lemma_bit_index_parts(index);
        }
        if byte < self.bits.len() {
            let off: u8 = (index % 8) as u8;
            (self.bits[byte] >> off) & 1 == 1
        } else {
            false
        }
    }
}

} // verus!
