//! The contract under which the universe uses `fixedbitset::FixedBitSet`.
//!
//! Nothing in this module is proved: each item states what the outside
//! crate's source shows of one of its functions.

use fixedbitset::FixedBitSet;
use vstd::prelude::*;

verus! {

/// Makes `fixedbitset::FixedBitSet` known to the verifier as an opaque type.
#[verifier::external_type_specification]
#[verifier::external_body]
pub struct ExFixedBitSet(FixedBitSet);

/// The bits that a `FixedBitSet` holds, in index order; its length is the
/// set's length in bits.
pub uninterp spec fn bitset_bits(s: FixedBitSet) -> Seq<bool>;

/// `FixedBitSet::with_capacity`: a set of `bits` bits, all of them clear.
pub assume_specification[ FixedBitSet::with_capacity ](bits: usize) -> (s: FixedBitSet)
    ensures
        bitset_bits(s) == Seq::new(bits as nat, |i: int| false),
;

/// `FixedBitSet::set`: writes `enabled` at index `bit` and leaves every other
/// bit and the length as they were. The outside function panics when `bit` is
/// not below the length, so such a call is ruled out.
pub assume_specification[ FixedBitSet::set ](s: &mut FixedBitSet, bit: usize, enabled: bool)
    requires
        bit < bitset_bits(*old(s)).len(),
    ensures
        bitset_bits(*final(s)) == bitset_bits(*old(s)).update(bit as int, enabled),
;

/// `FixedBitSet::contains`: the bit at index `bit`; an index at or past the
/// length reads as clear.
pub assume_specification[ FixedBitSet::contains ](s: &FixedBitSet, bit: usize) -> (on: bool)
    ensures
        on == (bit < bitset_bits(*s).len() && bitset_bits(*s)[bit as int]),
;

/// `Clone::clone` of a `FixedBitSet`: a set of the same length with the same
/// bits.
pub assume_specification[ <FixedBitSet as Clone>::clone ](s: &FixedBitSet) -> (copy: FixedBitSet)
    ensures
        bitset_bits(copy) == bitset_bits(*s),
;

/// Bit `i` of a run of 32-bit blocks: bit `i % 32`, counted from the least
/// significant, of block `i / 32`.
pub open spec fn packed_bit(blocks: Seq<u32>, i: int) -> bool {
    (blocks[i / 32] >> ((i % 32) as u32)) & 1 == 1
}

/// `FixedBitSet::as_slice`: the blocks in which the set keeps its bits, as
/// many as its length asks for, with bit `i` of the set at bit `i % 32` of
/// block `i / 32`.
pub assume_specification[ FixedBitSet::as_slice ](s: &FixedBitSet) -> (blocks: &[u32])
    ensures
        blocks@.len() == (bitset_bits(*s).len() + 31) / 32,
        forall|i: int|
            0 <= i < bitset_bits(*s).len() ==> #[trigger] packed_bit(blocks@, i) == bitset_bits(
                *s,
            )[i],
;

} // verus!
