use vstd::prelude::*;

use rust_dense_bitset::{BitSet, DenseBitSet};

verus! {

/// Declares `rust_dense_bitset::DenseBitSet`, a set of bit positions below 64
/// held in one `u64`.
#[verifier::external_type_specification]
#[verifier::external_body]
pub struct ExDenseBitSet(DenseBitSet);

/// The positions of the bits that are set in a `DenseBitSet`.
pub uninterp spec fn dense_bits(b: DenseBitSet) -> Set<nat>;

/// The positions of the bits that are set in `i`, least significant first.
pub open spec fn bits_of(i: u64) -> Set<nat> {
    Set::new(|k: nat| k < 64 && (i >> (k as u64)) & 1 == 1)
}

/// The bit positions of a 64-bit word.
pub open spec fn word_positions() -> Set<nat> {
    Set::<nat>::range(0, 64)
}

/// The word with only bit `bit` set has exactly that bit set.
pub proof fn lemma_single_bit(bit: u64)
    requires
        bit < 64,
    ensures
        bits_of(1u64 << bit) == Set::<nat>::empty().insert(bit as nat),
{
    let word: u64 = 1u64 << bit;
    assert forall|k: u64| k < 64 implies ((word >> k) & 1 == 1) == (k == bit) by {
        assert(((1u64 << bit) >> k) & 1 == 1 <==> k == bit) by (bit_vector)
            requires
                k < 64,
                bit < 64,
        ;
    }
    assert(bits_of(word) =~= Set::<nat>::empty().insert(bit as nat)) by {
        assert forall|k: nat| bits_of(word).contains(k) <==> k == bit as nat by {
            if k < 64 {
                assert(((word >> (k as u64)) & 1 == 1) == ((k as u64) == bit));
            }
        }
    }
}

/// `DenseBitSet::new`, the empty set.
#[verifier::external_body]
pub(crate) fn dense_new() -> (r: DenseBitSet)
    ensures
        dense_bits(r) == Set::<nat>::empty(),
{
    DenseBitSet::new()
}

/// `DenseBitSet::from_integer`: the set of the bits that are set in `i`.
#[verifier::external_body]
pub(crate) fn dense_from_integer(i: u64) -> (r: DenseBitSet)
    ensures
        dense_bits(r) == bits_of(i),
{
    DenseBitSet::from_integer(i)
}

/// `BitSet::get_weight`: the number of bits set.
#[verifier::external_body]
pub(crate) fn dense_weight(b: &DenseBitSet) -> (r: u32)
    ensures
        r as nat == dense_bits(*b).len(),
{
    b.get_weight()
}

/// `DenseBitSet::first_set`, which is `u64::trailing_zeros` of the word: the
/// lowest set position, or 64 if none is set.
#[verifier::external_body]
pub(crate) fn dense_first_set(b: DenseBitSet) -> (r: u32)
    ensures
        dense_bits(b) == Set::<nat>::empty() ==> r == 64,
        dense_bits(b) != Set::<nat>::empty() ==> {
            &&& dense_bits(b).contains(r as nat)
            &&& forall|k: nat| dense_bits(b).contains(k) ==> r <= k
        },
{
    b.first_set()
}

/// `BitSet::get_bit`, which panics for a position of 64 or more.
#[verifier::external_body]
pub(crate) fn dense_get_bit(b: &DenseBitSet, position: usize) -> (r: bool)
    requires
        position < 64,
    ensures
        r == dense_bits(*b).contains(position as nat),
{
    b.get_bit(position)
}

/// `BitSet::set_bit`, which panics for a position of 64 or more.
#[verifier::external_body]
pub(crate) fn dense_set_bit(b: &mut DenseBitSet, position: usize, value: bool)
    requires
        position < 64,
    ensures
        dense_bits(*final(b)) == if value {
            dense_bits(*old(b)).insert(position as nat)
        } else {
            dense_bits(*old(b)).remove(position as nat)
        },
{
    b.set_bit(position, value)
}

/// `DenseBitSet::reverse`: bit `k` moves to position `63 - k`.
#[verifier::external_body]
pub(crate) fn dense_reverse(b: DenseBitSet) -> (r: DenseBitSet)
    ensures
        dense_bits(r) == Set::new(|k: nat| k < 64 && dense_bits(b).contains((63 - k) as nat)),
{
    b.reverse()
}

/// `DenseBitSet >>= n`: bit `k + n` moves to position `k`; a shift of 64 or
/// more clears the set.
#[verifier::external_body]
pub(crate) fn dense_shr_assign(b: &mut DenseBitSet, n: usize)
    ensures
        dense_bits(*final(b)) == Set::new(
            |k: nat| n < 64 && k + n < 64 && dense_bits(*old(b)).contains(k + n as nat),
        ),
{
    *b >>= n
}

/// `DenseBitSet | DenseBitSet`: the union.
#[verifier::external_body]
pub(crate) fn dense_or(a: DenseBitSet, b: DenseBitSet) -> (r: DenseBitSet)
    ensures
        dense_bits(r) == dense_bits(a).union(dense_bits(b)),
{
    a | b
}

/// `DenseBitSet & DenseBitSet`: the intersection.
#[verifier::external_body]
pub(crate) fn dense_and(a: DenseBitSet, b: DenseBitSet) -> (r: DenseBitSet)
    ensures
        dense_bits(r) == dense_bits(a).intersect(dense_bits(b)),
{
    a & b
}

/// `DenseBitSet == DenseBitSet`, which compares the words.
#[verifier::external_body]
pub(crate) fn dense_eq(a: &DenseBitSet, b: &DenseBitSet) -> (r: bool)
    ensures
        r == (dense_bits(*a) == dense_bits(*b)),
{
    *a == *b
}

/// `DenseBitSet::any`: whether any bit is set.
#[verifier::external_body]
pub(crate) fn dense_any(b: DenseBitSet) -> (r: bool)
    ensures
        r == (dense_bits(b) != Set::<nat>::empty()),
{
    b.any()
}

} // verus!
