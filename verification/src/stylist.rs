//! What sharing asks of the rest of the style system.

use crate::atom::Atom;
use crate::data::RestyleData;
use crate::dom::{Element, OpaqueNode};
use crate::properties::ComputedValues;
use bit_vec::BitVec;
use selectors::bloom::BloomFilter;
use selectors::matching::ElementSelectorFlags;
use vstd::prelude::*;

verus! {

/// `selectors::matching::ElementSelectorFlags`.
#[verifier::external_type_specification]
#[verifier::external_body]
pub struct ExElementSelectorFlags(selectors::matching::ElementSelectorFlags);

/// A block of declarations that applies to an element.
#[derive(Clone, Copy, Debug, PartialEq, Eq, Structural)]
pub struct ApplicableDeclarationBlock {
    /// The identity of the declarations.
    pub source: u64,
    /// The cascade level.
    pub level: u8,
    /// The specificity of the selector.
    pub specificity: u32,
    /// The position among the rules of the same origin.
    pub source_order: u32,
}

/// Flags that matching found should be set on an element.
#[derive(Debug)]
pub struct FlaggedElement {
    /// The element.
    pub element: OpaqueNode,
    /// The flags.
    pub flags: ElementSelectorFlags,
}

/// What matching an element against the revalidation selectors gives.
#[derive(Debug)]
pub struct RevalidationMatch {
    /// One bit for each selector: whether it matched.
    pub results: BitVec,
    /// The elements on which flags should be set, in the order in which matching
    /// came to them.
    pub flags: Vec<FlaggedElement>,
}

/// Whether the children of an element have to be cascaded again.
#[derive(Clone, Copy, Debug, PartialEq, Eq, Structural)]
pub enum ChildCascadeRequirement {
    /// They do not.
    CanSkipCascade,
    /// They do.
    MustCascadeChildren,
}

/// The rest of the style system. Nothing is taken for granted of its answers.
pub trait StyleSystem {
    /// Whether there may be rules for `id`.
    fn may_have_rules_for_id(&self, id: &Atom) -> bool;

    /// Matches `element` against the revalidation selectors, with the help of
    /// `filter` where there is one.
    fn match_revalidation_selectors(
        &self,
        element: &Element,
        filter: Option<&BloomFilter>,
    ) -> RevalidationMatch;

    /// Adds to `restyle` the damage that `element` suffers when its own values
    /// change from `old_values` to `new_values`. Gives the restyle data that come
    /// out of that, which count only where there were some.
    fn accumulate_damage(
        &self,
        element: &Element,
        restyle: Option<RestyleData>,
        old_values: Option<ComputedValues>,
        new_values: &ComputedValues,
    ) -> (RestyleData, ChildCascadeRequirement);
}

} // verus!
