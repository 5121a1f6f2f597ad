//! Bit-sequence views of the fixed-width unsigned integers, and the
//! bit-vector facts the integer-backed implementations are proved from.
//!
//! For each supported width there is a spec function reading one bit, a view
//! of the whole value as a `Seq<bool>` (least-significant bit first), a
//! single bit-vector lemma covering the masking operations of the capability
//! set, and an injectivity lemma: equal views mean equal values, which is
//! what lets `check_pattern` compare storages directly.

use vstd::prelude::*;

verus! {

/// Bit `j` of `v`, for `j` below the width.
pub open spec fn u8_bit(v: u8, j: u8) -> bool {
    (v >> j) & 1 == 1
}

/// The bits of `v`, least-significant first.
pub open spec fn u8_view(v: u8) -> Seq<bool> {
    Seq::new(8, |j: int| u8_bit(v, j as u8))
}

/// How the all-zeros value, the all-ones value, an OR with a one-bit mask and
/// an AND with its complement read bit by bit.
pub proof fn lemma_u8_bit_ops(a: u8, s: u8, j: u8)
    by (bit_vector)
    requires
        s < 8,
        j < 8,
    ensures
        !u8_bit(0u8, j),
        u8_bit(u8::MAX, j),
        j != s ==> u8_bit(a | (1u8 << s), j) == u8_bit(a, j),
        u8_bit(a | (1u8 << s), s),
        j != s ==> u8_bit(a & !(1u8 << s), j) == u8_bit(a, j),
        !u8_bit(a & !(1u8 << s), s),
        u8_bit(1u8 << s, j) == (j == s),
{
}

/// Two values that agree on every bit are equal: were they different, the
/// lowest set bit of their XOR would be a bit on which they disagree.
pub proof fn lemma_u8_view_injective(a: u8, b: u8)
    requires
        forall|j: u8| j < 8 ==> #[trigger] u8_bit(a, j) == u8_bit(b, j),
    ensures
        a == b,
{
    if a != b {
        assert(a ^ b != 0) by (bit_vector)
            requires
                a != b,
        ;
        vstd::std_specs::bits::axiom_u8_trailing_zeros(a ^ b);
        let k = vstd::std_specs::bits::u8_trailing_zeros(a ^ b);
        assert(u8_bit(a, k as u8) != u8_bit(b, k as u8)) by (bit_vector)
            requires
                k < 8 && ((a ^ b) >> (k as u8)) & 1 == 1,
        ;
        assert(false);
    }
}

/// Bit `j` of `v`, for `j` below the width.
pub open spec fn u16_bit(v: u16, j: u16) -> bool {
    (v >> j) & 1 == 1
}

/// The bits of `v`, least-significant first.
pub open spec fn u16_view(v: u16) -> Seq<bool> {
    Seq::new(16, |j: int| u16_bit(v, j as u16))
}

/// How the all-zeros value, the all-ones value, an OR with a one-bit mask and
/// an AND with its complement read bit by bit.
pub proof fn lemma_u16_bit_ops(a: u16, s: u16, j: u16)
    by (bit_vector)
    requires
        s < 16,
        j < 16,
    ensures
        !u16_bit(0u16, j),
        u16_bit(u16::MAX, j),
        j != s ==> u16_bit(a | (1u16 << s), j) == u16_bit(a, j),
        u16_bit(a | (1u16 << s), s),
        j != s ==> u16_bit(a & !(1u16 << s), j) == u16_bit(a, j),
        !u16_bit(a & !(1u16 << s), s),
        u16_bit(1u16 << s, j) == (j == s),
{
}

/// Two values that agree on every bit are equal: were they different, the
/// lowest set bit of their XOR would be a bit on which they disagree.
pub proof fn lemma_u16_view_injective(a: u16, b: u16)
    requires
        forall|j: u16| j < 16 ==> #[trigger] u16_bit(a, j) == u16_bit(b, j),
    ensures
        a == b,
{
    if a != b {
        assert(a ^ b != 0) by (bit_vector)
            requires
                a != b,
        ;
        vstd::std_specs::bits::axiom_u16_trailing_zeros(a ^ b);
        let k = vstd::std_specs::bits::u16_trailing_zeros(a ^ b);
        assert(u16_bit(a, k as u16) != u16_bit(b, k as u16)) by (bit_vector)
            requires
                k < 16 && ((a ^ b) >> (k as u16)) & 1 == 1,
        ;
        assert(false);
    }
}

/// Bit `j` of `v`, for `j` below the width.
pub open spec fn u32_bit(v: u32, j: u32) -> bool {
    (v >> j) & 1 == 1
}

/// The bits of `v`, least-significant first.
pub open spec fn u32_view(v: u32) -> Seq<bool> {
    Seq::new(32, |j: int| u32_bit(v, j as u32))
}

/// How the all-zeros value, the all-ones value, an OR with a one-bit mask and
/// an AND with its complement read bit by bit.
pub proof fn lemma_u32_bit_ops(a: u32, s: u32, j: u32)
    by (bit_vector)
    requires
        s < 32,
        j < 32,
    ensures
        !u32_bit(0u32, j),
        u32_bit(u32::MAX, j),
        j != s ==> u32_bit(a | (1u32 << s), j) == u32_bit(a, j),
        u32_bit(a | (1u32 << s), s),
        j != s ==> u32_bit(a & !(1u32 << s), j) == u32_bit(a, j),
        !u32_bit(a & !(1u32 << s), s),
        u32_bit(1u32 << s, j) == (j == s),
{
}

/// Two values that agree on every bit are equal: were they different, the
/// lowest set bit of their XOR would be a bit on which they disagree.
pub proof fn lemma_u32_view_injective(a: u32, b: u32)
    requires
        forall|j: u32| j < 32 ==> #[trigger] u32_bit(a, j) == u32_bit(b, j),
    ensures
        a == b,
{
    if a != b {
        assert(a ^ b != 0) by (bit_vector)
            requires
                a != b,
        ;
        vstd::std_specs::bits::axiom_u32_trailing_zeros(a ^ b);
        let k = vstd::std_specs::bits::u32_trailing_zeros(a ^ b);
        assert(u32_bit(a, k as u32) != u32_bit(b, k as u32)) by (bit_vector)
            requires
                k < 32 && ((a ^ b) >> (k as u32)) & 1 == 1,
        ;
        assert(false);
    }
}

/// Bit `j` of `v`, for `j` below the width.
pub open spec fn u64_bit(v: u64, j: u64) -> bool {
    (v >> j) & 1 == 1
}

/// The bits of `v`, least-significant first.
pub open spec fn u64_view(v: u64) -> Seq<bool> {
    Seq::new(64, |j: int| u64_bit(v, j as u64))
}

/// How the all-zeros value, the all-ones value, an OR with a one-bit mask and
/// an AND with its complement read bit by bit.
pub proof fn lemma_u64_bit_ops(a: u64, s: u64, j: u64)
    by (bit_vector)
    requires
        s < 64,
        j < 64,
    ensures
        !u64_bit(0u64, j),
        u64_bit(u64::MAX, j),
        j != s ==> u64_bit(a | (1u64 << s), j) == u64_bit(a, j),
        u64_bit(a | (1u64 << s), s),
        j != s ==> u64_bit(a & !(1u64 << s), j) == u64_bit(a, j),
        !u64_bit(a & !(1u64 << s), s),
        u64_bit(1u64 << s, j) == (j == s),
{
}

/// Two values that agree on every bit are equal: were they different, the
/// lowest set bit of their XOR would be a bit on which they disagree.
pub proof fn lemma_u64_view_injective(a: u64, b: u64)
    requires
        forall|j: u64| j < 64 ==> #[trigger] u64_bit(a, j) == u64_bit(b, j),
    ensures
        a == b,
{
    if a != b {
        assert(a ^ b != 0) by (bit_vector)
            requires
                a != b,
        ;
        vstd::std_specs::bits::axiom_u64_trailing_zeros(a ^ b);
        let k = vstd::std_specs::bits::u64_trailing_zeros(a ^ b);
        assert(u64_bit(a, k as u64) != u64_bit(b, k as u64)) by (bit_vector)
            requires
                k < 64 && ((a ^ b) >> (k as u64)) & 1 == 1,
        ;
        assert(false);
    }
}

/// The bits of a byte sequence, eight per byte, least-significant bit first
/// within each byte: bit `i` of the whole is bit `i % 8` of byte `i / 8`.
pub open spec fn bytes_view(bs: Seq<u8>) -> Seq<bool> {
    Seq::new(bs.len() * 8, |i: int| u8_bit(bs[i / 8], (i % 8) as u8))
}

/// Two byte sequences that read as the same bits are the same bytes; this is
/// what lets the packed-byte `check_pattern` compare storages directly.
pub proof fn lemma_bytes_view_injective(a: Seq<u8>, b: Seq<u8>)
    requires
        bytes_view(a) == bytes_view(b),
    ensures
        a =~= b,
{
    assert(bytes_view(a).len() == a.len() * 8);
    assert(bytes_view(b).len() == b.len() * 8);
    assert(a.len() == b.len());
    assert forall|k: int| 0 <= k < a.len() implies a[k] == b[k] by {
        assert forall|j: u8| j < 8 implies #[trigger] u8_bit(a[k], j) == u8_bit(b[k], j) by {
            let i = 8 * k + j as int;
            vstd::arithmetic::div_mod::lemma_fundamental_div_mod_converse(i, 8, k, j as int);
            assert(bytes_view(a)[i] == u8_bit(a[i / 8], (i % 8) as u8));
            assert(bytes_view(b)[i] == u8_bit(b[i / 8], (i % 8) as u8));
        }
        lemma_u8_view_injective(a[k], b[k]);
    }
}

/// Bit `j` of `v`, for `j` below the width. The width of `usize` is whatever
/// the platform gives it; `usize::BITS` stands for it throughout.
pub open spec fn usize_bit(v: usize, j: usize) -> bool {
    (v >> j) & 1 == 1
}

/// The bits of `v`, least-significant first.
pub open spec fn usize_view(v: usize) -> Seq<bool> {
    Seq::new(usize::BITS as nat, |j: int| usize_bit(v, j as usize))
}

/// How the all-zeros value, the all-ones value, an OR with a one-bit mask and
/// an AND with its complement read bit by bit.
pub proof fn lemma_usize_bit_ops(a: usize, s: usize, j: usize)
    by (bit_vector)
    requires
        s < usize::BITS as usize,
        j < usize::BITS as usize,
    ensures
        !usize_bit(0usize, j),
        usize_bit(!0usize, j),
        j != s ==> usize_bit(a | (1usize << s), j) == usize_bit(a, j),
        usize_bit(a | (1usize << s), s),
        j != s ==> usize_bit(a & !(1usize << s), j) == usize_bit(a, j),
        !usize_bit(a & !(1usize << s), s),
        usize_bit(1usize << s, j) == (j == s),
{
}

/// Two values that agree on every bit are equal: were they different, the
/// lowest set bit of their XOR, found after widening to 64 bits, would be a
/// bit on which they disagree.
pub proof fn lemma_usize_view_injective(a: usize, b: usize)
    requires
        forall|j: usize| j < usize::BITS as usize ==> #[trigger] usize_bit(a, j) == usize_bit(
            b,
            j,
        ),
    ensures
        a == b,
{
    if a != b {
        assert((a as u64) ^ (b as u64) != 0) by (bit_vector)
            requires
                a != b,
        ;
        vstd::std_specs::bits::axiom_u64_trailing_zeros((a as u64) ^ (b as u64));
        let k = vstd::std_specs::bits::u64_trailing_zeros((a as u64) ^ (b as u64));
        assert(k < usize::BITS as u32 && usize_bit(a, k as usize) != usize_bit(b, k as usize))
            by (bit_vector)
            requires
                k < 64 && (((a as u64) ^ (b as u64)) >> (k as u64)) & 1 == 1,
        ;
        assert(false);
    }
}

} // verus!
