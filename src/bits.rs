//! Bit sets of the `bit-vec` crate, as used for the per-cycle update marks.

use vstd::prelude::*;
use bit_vec::BitVec;

verus! {

/// bit_vec's `BitVec`, whose contents `bits_of` names.
#[verifier::external_type_specification]
#[verifier::external_body]
#[verifier::reject_recursive_types(B)]
pub struct ExBitVec<B>(BitVec<B>);

/// The bits a `BitVec` holds, in order.
pub uninterp spec fn bits_of(v: BitVec) -> Seq<bool>;

/// Relies on `BitVec::from_elem`: `nbits` bits, each `bit`.
#[verifier::external_body]
pub(crate) fn new_bits(nbits: usize, bit: bool) -> (r: BitVec)
    ensures
        bits_of(r) == Seq::new(nbits as nat, |i: int| bit),
{
    BitVec::from_elem(nbits, bit)
}

/// Relies on `BitVec`'s `Index` (through `BitVec::get`): the bit at `i`, which is
/// within the length.
#[verifier::external_body]
pub(crate) fn bit_at(v: &BitVec, i: usize) -> (r: bool)
    requires
        i < bits_of(*v).len(),
    ensures
        r == bits_of(*v)[i as int],
{
    v[i]
}

/// Relies on `BitVec::set`: bit `i`, within the length, becomes `x`; the others stay.
#[verifier::external_body]
pub(crate) fn set_bit(v: &mut BitVec, i: usize, x: bool)
    requires
        i < bits_of(*old(v)).len(),
    ensures
        bits_of(*final(v)) == bits_of(*old(v)).update(i as int, x),
{
    v.set(i, x)
}

/// Relies on `BitVec::or`: on bit sets of equal length, each bit becomes the `or` of
/// the two.
#[verifier::external_body]
pub(crate) fn or_bits(v: &mut BitVec, other: &BitVec)
    requires
        bits_of(*old(v)).len() == bits_of(*other).len(),
    ensures
        bits_of(*final(v)).len() == bits_of(*old(v)).len(),
        forall|i: int| 0 <= i < bits_of(*old(v)).len() ==>
            #[trigger] bits_of(*final(v))[i] == (bits_of(*old(v))[i] || bits_of(*other)[i]),
{
    v.or(other);
}

} // verus!
