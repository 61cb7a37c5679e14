//! The trusted boundary around `fixedbitset::FixedBitSet`, the packed bit
//! array that stores cell state. Every call into the crate goes through the
//! wrappers below; their contracts speak of `bits_of`, the sequence of bits a
//! set holds.

use fixedbitset::FixedBitSet;
use vstd::prelude::*;

verus! {

/// Declares fixedbitset's `FixedBitSet` so that it can stand in fields and
/// signatures. A value is opaque; `bits_of` names its contents.
#[verifier::external_type_specification]
#[verifier::external_body]
pub struct ExFixedBitSet(FixedBitSet);

/// The bits a `FixedBitSet` holds, in index order; the length is the capacity
/// the set was created with.
pub uninterp spec fn bits_of(b: FixedBitSet) -> Seq<bool>;

/// Relies on fixedbitset::FixedBitSet::with_capacity: a fresh set of `bits`
/// bits, all clear.
#[verifier::external_body]
pub(crate) fn fbs_with_capacity(bits: usize) -> (r: FixedBitSet)
    ensures
        bits_of(r).len() == bits,
        forall|j: int| 0 <= j < bits ==> !bits_of(r)[j],
{
    FixedBitSet::with_capacity(bits)
}

/// Relies on fixedbitset::FixedBitSet::contains: whether bit `i` is set.
#[verifier::external_body]
pub(crate) fn fbs_contains(b: &FixedBitSet, i: usize) -> (r: bool)
    requires
        i < bits_of(*b).len(),
    ensures
        r == bits_of(*b)[i as int],
{
    b.contains(i)
}

/// Relies on fixedbitset::FixedBitSet::set: writes bit `i`. It panics only on
/// an out-of-bounds index, which the precondition rules out.
#[verifier::external_body]
pub(crate) fn fbs_set(b: &mut FixedBitSet, i: usize, v: bool)
    requires
        i < bits_of(*old(b)).len(),
    ensures
        bits_of(*final(b)) == bits_of(*old(b)).update(i as int, v),
{
    b.set(i, v)
}

/// Relies on fixedbitset::FixedBitSet::toggle: flips bit `i`. It panics only
/// on an out-of-bounds index, which the precondition rules out.
#[verifier::external_body]
pub(crate) fn fbs_toggle(b: &mut FixedBitSet, i: usize)
    requires
        i < bits_of(*old(b)).len(),
    ensures
        bits_of(*final(b)) == bits_of(*old(b)).update(
            i as int,
            !bits_of(*old(b))[i as int],
        ),
{
    b.toggle(i)
}

/// Relies on fixedbitset::FixedBitSet::clear: zeroes every bit and keeps the
/// capacity.
#[verifier::external_body]
pub(crate) fn fbs_clear(b: &mut FixedBitSet)
    ensures
        bits_of(*final(b)).len() == bits_of(*old(b)).len(),
        forall|j: int| 0 <= j < bits_of(*final(b)).len() ==> !bits_of(*final(b))[j],
{
    b.clear()
}

/// Relies on fixedbitset::FixedBitSet::union_with: ors `other` into `b` bit by
/// bit; with equal capacities neither set grows.
#[verifier::external_body]
pub(crate) fn fbs_union_with(b: &mut FixedBitSet, other: &FixedBitSet)
    requires
        bits_of(*old(b)).len() == bits_of(*other).len(),
    ensures
        bits_of(*final(b)).len() == bits_of(*old(b)).len(),
        forall|j: int| 0 <= j < bits_of(*final(b)).len() ==> bits_of(*final(b))[j] == (bits_of(
            *old(b),
        )[j] || bits_of(*other)[j]),
{
    b.union_with(other)
}

} // verus!
