//! The general properties of the capability set, stated over the views and
//! spec functions that the contracts of `Bits` use and proved for every
//! storage kind at once. Where a property depends on a kind's capacity
//! behaviour it is generic over the implementation and speaks through
//! `Bits::grown_len`.

use vstd::prelude::*;

use crate::field::Bits;
use crate::model::bits_after_set;
use crate::model::bits_after_unset;
use crate::model::spec_check_bit;
use crate::model::spec_check_pattern;

verus! {

/// A freshly created bit-field reports every bit unset: `new` leaves every
/// bit false, and `check_bit` then answers false for every index whatsoever.
pub proof fn lemma_new_then_check_bit_false<T, B: Bits<T>>(b: B, index: usize)
    requires
        forall|j: int| 0 <= j < b.bit_view().len() ==> !b.bit_view()[j],
    ensures
        !spec_check_bit(b.bit_view(), index),
{
}

/// `set_bit(index)` followed by `check_bit(index)` answers true, whenever
/// `index` is addressable after the write: always for the growable kinds,
/// and exactly for `index` below the width for the fixed-width kinds (there
/// an out-of-range write is a no-op and the bit still reads false).
pub proof fn lemma_set_bit_then_check_bit<T, B: Bits<T>>(b: B, index: usize)
    requires
        index < B::grown_len(b.bit_view().len(), index),
    ensures
        spec_check_bit(
            bits_after_set(b.bit_view(), B::grown_len(b.bit_view().len(), index), index),
            index,
        ),
{
    B::grown_len_facts(b.bit_view().len(), index);
}

/// `unset_bit(index)` followed by `check_bit(index)` answers false, whether
/// `index` was within capacity (the bit is now cleared) or out of range (it
/// already read as unset and the write was a no-op).
pub proof fn lemma_unset_bit_then_check_bit(bits: Seq<bool>, index: usize)
    ensures
        !spec_check_bit(bits_after_unset(bits, index), index),
{
}

/// `set_pattern(p)` followed by `check_pattern(p)` answers true: the storage
/// was just replaced wholesale by `p`.
pub proof fn lemma_set_pattern_then_check_pattern(pattern: Seq<bool>)
    ensures
        spec_check_pattern(pattern, pattern),
{
}

/// After `set_all`, `check_bit(index)` answers true for every index within
/// the current capacity.
pub proof fn lemma_set_all_then_check_bit(bits: Seq<bool>, index: usize)
    requires
        forall|j: int| 0 <= j < bits.len() ==> bits[j],
        index < bits.len(),
    ensures
        spec_check_bit(bits, index),
{
}

/// After `unset_all`, `check_bit(index)` answers false for every index
/// within the current capacity (and out of range it answers false anyway).
pub proof fn lemma_unset_all_then_check_bit(bits: Seq<bool>, index: usize)
    requires
        forall|j: int| 0 <= j < bits.len() ==> !bits[j],
    ensures
        !spec_check_bit(bits, index),
{
}

/// `set_bit(index)` is idempotent: applying it twice leaves the same bits as
/// applying it once.
pub proof fn lemma_set_bit_idempotent<T, B: Bits<T>>(b: B, index: usize)
    ensures
        ({
            let once = bits_after_set(
                b.bit_view(),
                B::grown_len(b.bit_view().len(), index),
                index,
            );
            bits_after_set(once, B::grown_len(once.len(), index), index) == once
        }),
{
    let v = b.bit_view();
    let n1 = B::grown_len(v.len(), index);
    B::grown_len_facts(v.len(), index);
    let once = bits_after_set(v, n1, index);
    B::grown_len_facts(once.len(), index);
    if index < n1 {
        assert(bits_after_set(once, B::grown_len(once.len(), index), index) =~= once);
    }
}

/// `unset_bit(index)` is idempotent: applying it twice leaves the same bits
/// as applying it once.
pub proof fn lemma_unset_bit_idempotent(bits: Seq<bool>, index: usize)
    ensures
        bits_after_unset(bits_after_unset(bits, index), index) == bits_after_unset(bits, index),
{
    assert(bits_after_unset(bits_after_unset(bits, index), index) =~= bits_after_unset(
        bits,
        index,
    ));
}

/// For a fixed-width kind — one whose capacity no write changes — an
/// out-of-range `set_bit` leaves the storage untouched.
pub proof fn lemma_fixed_out_of_range_set_bit_no_op<T, B: Bits<T>>(b: B, index: usize)
    requires
        B::grown_len(b.bit_view().len(), index) == b.bit_view().len(),
        index >= b.bit_view().len(),
    ensures
        bits_after_set(b.bit_view(), B::grown_len(b.bit_view().len(), index), index)
            == b.bit_view(),
{
}

/// An out-of-range `unset_bit` leaves the storage untouched, for every kind.
pub proof fn lemma_out_of_range_unset_bit_no_op(bits: Seq<bool>, index: usize)
    requires
        index >= bits.len(),
    ensures
        bits_after_unset(bits, index) == bits,
{
}

/// `unset_bit` never grows the capacity, for every kind and every index.
pub proof fn lemma_unset_bit_never_grows(bits: Seq<bool>, index: usize)
    ensures
        bits_after_unset(bits, index).len() == bits.len(),
{
}

} // verus!
