//! The interface to `fixedbitset::FixedBitSet`, the packed storage of the grid.
//!
//! Nothing in this file is proved. Each contract restates what the crate's source shows of
//! one of its functions, over the sequence of bits that a set holds, and the grid is verified
//! against these contracts.

use fixedbitset::FixedBitSet;
use vstd::prelude::*;

verus! {

/// `fixedbitset::FixedBitSet`, a fixed number of bits packed into 32-bit blocks.
#[verifier::external_type_specification]
#[verifier::external_body]
pub struct ExFixedBitSet(fixedbitset::FixedBitSet);

/// The bits that a set holds, from bit 0 to its last bit; the length is the set's `len()`.
pub uninterp spec fn bit_seq(s: FixedBitSet) -> Seq<bool>;

/// Whether bit `k` of the block `w` is set, counting from the least significant bit.
pub open spec fn block_bit(w: u32, k: int) -> bool {
    w & (1u32 << (k as u32)) != 0
}

/// Whether `blocks` is the packed form of `bits`: one bit for each entry, 32 to a block,
/// bit `i` standing in block `i / 32` at position `i % 32`, and no block more than needed.
pub open spec fn packs(blocks: Seq<u32>, bits: Seq<bool>) -> bool {
    &&& blocks.len() == (bits.len() + 31) / 32
    &&& forall|i: int| 0 <= i < bits.len() ==> #[trigger] bits[i] == block_bit(blocks[i / 32], i % 32)
}

/// `FixedBitSet::with_capacity`: a set of `bits` bits, all of them clear. Like a `Vec`, the
/// outside function ends the process where the memory cannot be had; the contract speaks of
/// the calls that return.
#[verifier::external_body]
pub(crate) fn with_capacity(bits: usize) -> (s: FixedBitSet)
    ensures
        bit_seq(s).len() == bits,
        forall|i: int| 0 <= i < bits ==> !(#[trigger] bit_seq(s)[i]),
{
    FixedBitSet::with_capacity(bits)
}

/// `FixedBitSet::set`: gives bit `bit` the value `enabled` and leaves every other bit and the
/// length as they were. The outside function panics when `bit` is not below the length.
#[verifier::external_body]
pub(crate) fn set_bit(s: &mut FixedBitSet, bit: usize, enabled: bool)
    requires
        bit < bit_seq(*old(s)).len(),
    ensures
        bit_seq(*final(s)) == bit_seq(*old(s)).update(bit as int, enabled),
{
    s.set(bit, enabled)
}

/// Indexing a `FixedBitSet` (`Index<usize>::index`): the value of bit `bit` where `bit` is
/// below the length. Nothing is claimed of an index at or past the length.
#[verifier::external_body]
pub(crate) fn bit_at(s: &FixedBitSet, bit: usize) -> (b: bool)
    ensures
        bit < bit_seq(*s).len() ==> b == bit_seq(*s)[bit as int],
{
    s[bit]
}

/// `FixedBitSet::clone`: a set with the same length and the same bits.
#[verifier::external_body]
pub(crate) fn clone_set(s: &FixedBitSet) -> (r: FixedBitSet)
    ensures
        bit_seq(r) == bit_seq(*s),
{
    s.clone()
}

/// `FixedBitSet::as_slice`: the blocks of the set, borrowed from it. They pack its bits;
/// nothing is claimed of the bits of the last block that lie past the set's length.
#[verifier::external_body]
pub(crate) fn as_slice(s: &FixedBitSet) -> (blocks: &[u32])
    ensures
        packs(blocks@, bit_seq(*s)),
{
    s.as_slice()
}

} // verus!
