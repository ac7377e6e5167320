//! The bloom filter that speeds up selector matching.

use crate::dom::{Element, OpaqueNode};
use selectors::bloom::BloomFilter;
use vstd::prelude::*;

verus! {

/// `selectors::bloom::BloomFilter`.
#[verifier::external_type_specification]
#[verifier::external_body]
pub struct ExBloomFilter(selectors::bloom::BloomFilter);

/// A bloom filter together with the element whose children it is set up for.
pub struct StyleBloom {
    /// The parent of the elements that the filter is set up for.
    pub current_parent: Option<OpaqueNode>,
    /// The filter.
    pub filter: Box<BloomFilter>,
}

impl StyleBloom {
    /// Whether the filter is set up for `element`.
    pub fn is_set_up_for(&self, element: &Element) -> (answer: bool)
        ensures
            answer == (self.current_parent == element.parent_node()),
    {
        match (self.current_parent, element.parent) {
            (Some(current), Some(parent)) => current == parent.node,
            (None, None) => true,
            _ => false,
        }
    }
}

} // verus!
