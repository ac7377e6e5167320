//! Bit vectors.

use bit_vec::BitVec;
use vstd::prelude::*;

verus! {

/// `bit_vec::BitVec`.
#[verifier::external_type_specification]
#[verifier::external_body]
#[verifier::reject_recursive_types(B)]
pub struct ExBitVec<B>(bit_vec::BitVec<B>);

/// The bits of a bit vector, in order.
pub uninterp spec fn bits_of(bits: BitVec) -> Seq<bool>;

/// `bit_vec::BitVec::len`: how many bits there are.
#[verifier::external_body]
fn bit_count(bits: &BitVec) -> (count: usize)
    ensures
        count == bits_of(*bits).len(),
{
    bits.len()
}

/// `bit_vec::BitVec::get`: the bit at `index`, or nothing where there are not as
/// many.
#[verifier::external_body]
fn bit_at(bits: &BitVec, index: usize) -> (bit: Option<bool>)
    ensures
        bit == if index < bits_of(*bits).len() {
            Some(bits_of(*bits)[index as int])
        } else {
            None
        },
{
    bits.get(index)
}

/// Whether the two have the same bits, in the same order. How they are stored does
/// not count.
pub(crate) fn same_bits(left: &BitVec, right: &BitVec) -> (same: bool)
    ensures
        same == (bits_of(*left) == bits_of(*right)),
{
    let count = bit_count(left);
    if count != bit_count(right) {
        return false;
    }
    let mut i: usize = 0;
    while i < count
        invariant
            i <= count,
            count == bits_of(*left).len(),
            count == bits_of(*right).len(),
            forall|j: int| 0 <= j < i ==> bits_of(*left)[j] == bits_of(*right)[j],
        decreases count - i,
    {
        if bit_at(left, i).unwrap() != bit_at(right, i).unwrap() {
            return false;
        }
        i += 1;
    }
    assert(bits_of(*left) =~= bits_of(*right));
    true
}

} // verus!
