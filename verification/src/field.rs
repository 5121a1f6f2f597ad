//! The bit-field container and its uniform capability set.
//!
//! `BitField<T>` wraps one storage value; the `Bits<T>` trait states, once,
//! what every storage kind promises, in terms of the bit-sequence view of
//! `crate::model`. Each implementation supplies the view of its storage
//! (`bit_view`, `pattern_view`), its capacity behaviour (`empty_len`,
//! `grown_len`), and then inherits the same contracts as every other kind.

use vstd::prelude::*;

use crate::model::bits_after_set;
use crate::model::bits_after_unset;
use crate::model::spec_check_bit;
use crate::model::spec_check_pattern;

verus! {

/// A bit-field: individually addressable boolean flags backed by a storage
/// value of type `T`. Any storage value is a valid bit-field; there is no
/// further invariant.
pub struct BitField<T> {
    /// The backing storage, owned exclusively by this value.
    pub bits: T,
}

/// The capability set shared by every storage kind.
///
/// A bit-field is modelled as a sequence of booleans, zero-indexed,
/// least-significant bit first; its length is the current capacity. All
/// out-of-range accesses degrade silently: writes become no-ops (except that
/// `set_bit` may grow sequence-backed storage), reads return false, and no
/// operation can fail.
pub trait Bits<T>: Sized {
    /// The bits currently addressable in this bit-field.
    spec fn bit_view(&self) -> Seq<bool>;

    /// The bits denoted by a pattern, i.e. by a bare storage value.
    spec fn pattern_view(pattern: &T) -> Seq<bool>;

    /// The capacity of a freshly created, empty bit-field.
    spec fn empty_len() -> nat;

    /// The capacity right after `set_bit(index)` on a bit-field of capacity
    /// `cur_len`: unchanged for fixed-width storage, minimally grown to cover
    /// `index` for sequence storage.
    spec fn grown_len(cur_len: nat, index: usize) -> nat;

    /// What holds of `grown_len` for every storage kind: growth is the only
    /// possible change of capacity, an in-range write never changes it, and
    /// whenever the capacity does change it comes to cover `index`.
    proof fn grown_len_facts(cur_len: nat, index: usize)
        ensures
            Self::grown_len(cur_len, index) >= cur_len,
            index < cur_len ==> Self::grown_len(cur_len, index) == cur_len,
            index < Self::grown_len(cur_len, index) || Self::grown_len(cur_len, index) == cur_len,
    ;

    /// A bit-field of the minimum capacity of this storage kind, all bits
    /// unset.
    fn new() -> (r: Self)
        ensures
            r.bit_view().len() == Self::empty_len(),
            forall|j: int| 0 <= j < r.bit_view().len() ==> !r.bit_view()[j],
    ;

    /// A bit-field whose storage is exactly `pattern`; for sequence kinds
    /// this fixes the initial capacity to the pattern's length.
    fn with_pattern(pattern: T) -> (r: Self)
        ensures
            r.bit_view() == Self::pattern_view(&pattern),
    ;

    /// Sets every bit within the current capacity; never grows.
    fn set_all(&mut self)
        ensures
            final(self).bit_view().len() == old(self).bit_view().len(),
            forall|j: int| 0 <= j < final(self).bit_view().len() ==> final(self).bit_view()[j],
    ;

    /// Replaces the storage wholesale with `pattern`, adopting its capacity.
    fn set_pattern(&mut self, pattern: T)
        ensures
            final(self).bit_view() == Self::pattern_view(&pattern),
    ;

    /// Sets the bit at `index`. For fixed-width storage an out-of-range index
    /// is a silent no-op; sequence storage grows minimally to cover `index`,
    /// with every newly created position other than `index` unset.
    fn set_bit(&mut self, index: usize)
        ensures
            final(self).bit_view() == bits_after_set(
                old(self).bit_view(),
                Self::grown_len(old(self).bit_view().len(), index),
                index,
            ),
    ;

    /// Clears every bit within the current capacity; never shrinks.
    fn unset_all(&mut self)
        ensures
            final(self).bit_view().len() == old(self).bit_view().len(),
            forall|j: int| 0 <= j < final(self).bit_view().len() ==> !final(self).bit_view()[j],
    ;

    /// Clears the bit at `index`. An out-of-range index is a silent no-op;
    /// clearing never grows the capacity.
    fn unset_bit(&mut self, index: usize)
        ensures
            final(self).bit_view() == bits_after_unset(old(self).bit_view(), index),
    ;

    /// Reports whether the current storage equals `pattern`, length included.
    fn check_pattern(&self, pattern: T) -> (r: bool)
        ensures
            r == spec_check_pattern(self.bit_view(), Self::pattern_view(&pattern)),
    ;

    /// Reports whether the bit at `index` is within the current capacity and
    /// set; false both out of range and when in range but unset.
    fn check_bit(&self, index: usize) -> (r: bool)
        ensures
            r == spec_check_bit(self.bit_view(), index),
    ;
}

} // verus!
