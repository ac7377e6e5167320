//! What a thread that styles elements carries along.

use crate::bloom::StyleBloom;
use crate::dom::OpaqueNode;
use crate::sharing::StyleSharingCandidateCache;
use crate::stylist::FlaggedElement;
use crate::validation::ValidationData;
use vstd::prelude::*;

verus! {

/// Flags that the styling of one element wants to be set on an element.
#[derive(Debug)]
pub struct AppliedFlags {
    /// The element that is being styled.
    pub styled: OpaqueNode,
    /// The flags and the element to set them on.
    pub flagged: FlaggedElement,
}

/// The selector flags that wait to be set once the traversal is over.
#[derive(Debug)]
pub struct SelectorFlagsMap {
    /// The flags, in the order in which they came up.
    pub applied: Vec<AppliedFlags>,
}

/// The flags that the styling of `styled` wants, for what matching found.
pub open spec fn flags_applied(styled: OpaqueNode, flags: Seq<FlaggedElement>) -> Seq<AppliedFlags> {
    flags.map_values(|flagged: FlaggedElement| AppliedFlags { styled, flagged })
}

impl SelectorFlagsMap {
    /// Takes note of `flags`, which came up while `styled` was being styled.
    pub fn apply_selector_flags(&mut self, styled: OpaqueNode, flags: Vec<FlaggedElement>)
        ensures
            final(self).applied@ == old(self).applied@ + flags_applied(styled, flags@),
    {
        let ghost all = flags@;
        let ghost before = self.applied@;
        for flagged in iter: flags
            invariant
                iter.seq() == all,
                self.applied@ == before + flags_applied(styled, all.take(iter.index())),
        {
            self.applied.push(AppliedFlags { styled, flagged });
        }
    }
}

/// Switches of the style system.
#[derive(Clone, Copy, Debug)]
pub struct StyleSystemOptions {
    /// Whether the style sharing cache is off.
    pub disable_style_sharing_cache: bool,
}

/// What all threads have in common.
pub struct SharedStyleContext<S> {
    /// The switches.
    pub options: StyleSystemOptions,
    /// The rest of the style system.
    pub system: S,
}

/// What is worth keeping of the element that is being styled.
#[derive(Debug)]
pub struct CurrentElementInfo {
    /// What has been found out about it while trying to share style.
    pub validation_data: ValidationData,
}

/// What a thread has for itself.
pub struct ThreadLocalStyleContext {
    /// The elements to share style with.
    pub style_sharing_candidate_cache: StyleSharingCandidateCache,
    /// The bloom filter.
    pub bloom_filter: StyleBloom,
    /// The selector flags that wait to be set.
    pub selector_flags: SelectorFlagsMap,
    /// The element that is being styled.
    pub current_element_info: Option<CurrentElementInfo>,
}

/// What styling an element needs.
pub struct StyleContext<S> {
    /// What all threads have in common.
    pub shared: SharedStyleContext<S>,
    /// What this thread has for itself.
    pub thread_local: ThreadLocalStyleContext,
}

} // verus!
