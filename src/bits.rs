//! The filter's bit storage: `bit_vec::BitVec`, seen through the sequence of
//! booleans that it holds.
use bit_vec::BitVec;
use vstd::prelude::*;

verus! {

#[verifier::external_type_specification]
#[verifier::external_body]
#[verifier::reject_recursive_types(B)]
pub struct ExBitVec<B>(BitVec<B>);

/// The bits that a bit vector holds, in order.
pub uninterp spec fn bits_of(v: BitVec<u32>) -> Seq<bool>;

/// Relies on `BitVec::from_elem`: `n` bits, each set to the given value.
#[verifier::external_body]
pub(crate) fn cleared_bits(n: usize) -> (r: BitVec<u32>)
    ensures
        bits_of(r) == Seq::new(n as nat, |i: int| false),
{
    BitVec::from_elem(n, false)
}

/// Relies on `BitVec::set`: for an index below the length, the bit at that
/// index becomes the given value and the others stay.
#[verifier::external_body]
pub(crate) fn set_bit(v: &mut BitVec<u32>, i: usize)
    requires
        i < bits_of(*old(v)).len(),
    ensures
        bits_of(*final(v)) == bits_of(*old(v)).update(i as int, true),
{
    v.set(i, true)
}

/// Relies on `BitVec`'s indexing (`Index<usize>`): for an index below the
/// length, the bit at that index.
#[verifier::external_body]
pub(crate) fn bit_at(v: &BitVec<u32>, i: usize) -> (r: bool)
    requires
        i < bits_of(*v).len(),
    ensures
        r == bits_of(*v)[i as int],
{
    v[i]
}

} // verus!
