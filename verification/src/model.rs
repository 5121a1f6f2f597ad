//! The mathematical model shared by every storage kind: a bit-field is a
//! finite sequence of booleans, zero-indexed, least-significant bit first.
//! Each operation of the capability set is described here as a function on
//! such sequences; the executable implementations promise exactly these
//! transformations in their contracts.

use vstd::prelude::*;

verus! {

/// What `check_bit` reports: the bit is within the current capacity and set.
/// An index at or beyond the capacity always reads as unset.
pub open spec fn spec_check_bit(bits: Seq<bool>, index: usize) -> bool {
    index < bits.len() && bits[index as int]
}

/// What `check_pattern` reports: the current bits equal the pattern's bits,
/// length included.
pub open spec fn spec_check_pattern(bits: Seq<bool>, pattern: Seq<bool>) -> bool {
    bits == pattern
}

/// `bits` extended with unset positions up to length `n`; unchanged when `n`
/// does not exceed the current length.
pub open spec fn grow_false(bits: Seq<bool>, n: nat) -> Seq<bool> {
    if n <= bits.len() {
        bits
    } else {
        bits + Seq::new((n - bits.len()) as nat, |j: int| false)
    }
}

/// The bits after `set_bit(index)`, where `n` is the capacity the storage
/// kind adopts for that write (the unchanged capacity for fixed-width
/// storage, a minimally grown one for sequence storage). When `index` falls
/// outside even that capacity the write is a no-op.
pub open spec fn bits_after_set(bits: Seq<bool>, n: nat, index: usize) -> Seq<bool> {
    if index < n {
        grow_false(bits, n).update(index as int, true)
    } else {
        bits
    }
}

/// The bits after `unset_bit(index)`: clearing never grows the capacity, and
/// an out-of-range index is a no-op.
pub open spec fn bits_after_unset(bits: Seq<bool>, index: usize) -> Seq<bool> {
    if index < bits.len() {
        bits.update(index as int, false)
    } else {
        bits
    }
}

} // verus!
