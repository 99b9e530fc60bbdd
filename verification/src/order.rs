//! Ordering policies: bijections from logical bit indices to physical
//! positions within one storage element.

use vstd::prelude::*;

verus! {

/// A bit-ordering policy: a pure, deterministic bijection from a logical bit
/// index to a physical bit position inside one element of a fixed width.
///
/// Implementations carry proof obligations that the mapping stays in range,
/// hits no position twice, and covers every position, so every policy is a
/// permutation of `[0, width)` for each fixed width.
pub trait BitOrder {
    /// The physical position of logical index `index` in an element of
    /// `width` bits.
    spec fn spec_at(index: nat, width: nat) -> nat;

    /// Every in-range logical index resolves to an in-range physical
    /// position.
    proof fn lemma_at_in_range(index: nat, width: nat)
        requires
            index < width,
        ensures
            Self::spec_at(index, width) < width,
    ;

    /// Distinct logical indices resolve to distinct physical positions.
    proof fn lemma_at_injective(i: nat, j: nat, width: nat)
        requires
            i < width,
            j < width,
            Self::spec_at(i, width) == Self::spec_at(j, width),
        ensures
            i == j,
    ;

    /// Every physical position is reached from some logical index.
    proof fn lemma_at_onto(pos: nat, width: nat)
        requires
            pos < width,
        ensures
            exists|i: nat| i < width && Self::spec_at(i, width) == pos,
    ;

    /// Resolves a logical index to its physical position.
    fn at(index: usize, width: usize) -> (pos: usize)
        requires
            index < width,
        ensures
            pos as nat == Self::spec_at(index as nat, width as nat),
    ;
}

/// Least-significant-first ordering: logical index 0 occupies the least
/// significant position of its element.
pub struct Lsb0;

impl BitOrder for Lsb0 {
    open spec fn spec_at(index: nat, width: nat) -> nat {
        index
    }

    proof fn lemma_at_in_range(index: nat, width: nat) {
    }

    proof fn lemma_at_injective(i: nat, j: nat, width: nat) {
    }

    proof fn lemma_at_onto(pos: nat, width: nat) {
        assert(Self::spec_at(pos, width) == pos);
    }

    fn at(index: usize, width: usize) -> (pos: usize) {
        index
    }
}

/// Most-significant-first ordering: logical index 0 occupies the most
/// significant position of its element.
pub struct Msb0;

impl BitOrder for Msb0 {
    open spec fn spec_at(index: nat, width: nat) -> nat {
        (width - 1 - index) as nat
    }

    proof fn lemma_at_in_range(index: nat, width: nat) {
    }

    proof fn lemma_at_injective(i: nat, j: nat, width: nat) {
    }

    proof fn lemma_at_onto(pos: nat, width: nat) {
        assert(Self::spec_at((width - 1 - pos) as nat, width) == pos);
    }

    fn at(index: usize, width: usize) -> (pos: usize) {
        width - 1 - index
    }
}

/// The default ordering used by the container when none is named.
pub type Local = Lsb0;

/// Some logical index of `[0, width)` resolves to the physical position
/// `pos` under the policy `O`.
pub open spec fn covers<O: BitOrder>(pos: nat, width: nat) -> bool {
    exists|i: nat| i < width && #[trigger] O::spec_at(i, width) == pos
}

/// For every policy and every element width, the resolved positions form a
/// permutation of `[0, width)`: each stays in range, no two logical indices
/// collide, and every position is covered.
pub proof fn lemma_order_bijection<O: BitOrder>(width: nat)
    ensures
        forall|i: nat| i < width ==> #[trigger] O::spec_at(i, width) < width,
        forall|i: nat, j: nat|
            i < width && j < width && #[trigger] O::spec_at(i, width) == #[trigger] O::spec_at(
                j,
                width,
            ) ==> i == j,
        forall|pos: nat| pos < width ==> #[trigger] covers::<O>(pos, width),
{
    assert forall|i: nat| i < width implies #[trigger] O::spec_at(i, width) < width by {
        O::lemma_at_in_range(i, width);
    }
    assert forall|i: nat, j: nat|
        i < width && j < width && #[trigger] O::spec_at(i, width) == #[trigger] O::spec_at(
            j,
            width,
        ) implies i == j by {
        O::lemma_at_injective(i, j, width);
    }
    assert forall|pos: nat| pos < width implies #[trigger] covers::<O>(pos, width) by {
        O::lemma_at_onto(pos, width);
    }
}

} // verus!
