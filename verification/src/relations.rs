//! What selector matching found out about an element.

use vstd::prelude::*;

verus! {

/// Every relation there is.
pub const ALL_RELATIONS: usize = 15;

/// The element is affected by presentational hints.
pub const AFFECTED_BY_PRESENTATIONAL_HINTS: usize = 4;

/// The element has pseudo-element styles.
pub const AFFECTED_BY_PSEUDO_ELEMENTS: usize = 8;

/// A set of relations between an element and the rules that were matched
/// against it: each bit is one relation.
#[derive(Clone, Copy, Debug, PartialEq, Eq, Structural)]
pub struct StyleRelations {
    /// The relations in the set.
    pub bits: usize,
}

impl StyleRelations {
    /// Whether one of the relations of `other` is in the set.
    pub open spec fn meets(self, other: usize) -> bool {
        self.bits & other & ALL_RELATIONS != 0
    }

    /// Whether one of the relations of `other` is in the set.
    pub fn intersects(&self, other: usize) -> (answer: bool)
        ensures
            answer == self.meets(other),
    {
        relations_intersect(self.bits, other)
    }
}

/// `selectors::matching::StyleRelations::intersects`, on the two sets that
/// `StyleRelations::from_bits_truncate` makes of `bits` and `other`. The answer
/// is whether the two have a bit in common; `from_bits_truncate` leaves out the
/// bits that stand for no relation.
#[verifier::external_body]
fn relations_intersect(bits: usize, other: usize) -> (answer: bool)
    ensures
        answer == (bits & other & ALL_RELATIONS != 0),
{
    let other = selectors::matching::StyleRelations::from_bits_truncate(other);
    selectors::matching::StyleRelations::from_bits_truncate(bits).intersects(other)
}

} // verus!
