//! Elements that look for a style to share.

use crate::atom::Atom;
use crate::bits::bits_of;
use crate::bloom::StyleBloom;
use crate::context::{flags_applied, SelectorFlagsMap, StyleContext};
use crate::data::ElementData;
use crate::dom::Element;
use crate::outcome::{could_share, SharingFacts, StyleSharingResult};
use crate::stylist::{ApplicableDeclarationBlock, FlaggedElement, RevalidationMatch, StyleSystem};
use crate::validation::{matched, ValidationData, ValidationFacts};
use crate::walk::{attempted, Search};
use bit_vec::BitVec;
use std::ops::Deref;
use std::sync::Arc;
use vstd::prelude::*;

verus! {

/// An element we want to test against the style sharing cache.
#[derive(Debug)]
pub struct StyleSharingTarget {
    element: Arc<Element>,
    validation_data: ValidationData,
}

impl View for StyleSharingTarget {
    type V = SharingFacts;

    closed spec fn view(&self) -> SharingFacts {
        SharingFacts { element: *self.element, validation: self.validation_data@ }
    }
}

impl Deref for StyleSharingTarget {
    type Target = Element;

    fn deref(&self) -> (element: &Element)
        ensures
            *element == self@.element,
    {
        &self.element
    }
}

impl StyleSharingTarget {
    /// Trivially construct a new StyleSharingTarget to test against the cache.
    pub fn new(element: Arc<Element>) -> (target: Self)
        ensures
            target@ == (SharingFacts {
                element: *element,
                validation: ValidationFacts::unknown(),
            }),
    {
        StyleSharingTarget { element, validation_data: ValidationData::default() }
    }

    /// Get the classlist of this target.
    pub fn class_list(&mut self) -> (classes: &[Atom])
        ensures
            classes@ == old(self)@.validation.classes(old(self)@.element),
            final(self)@.element == old(self)@.element,
            final(self)@.validation == old(self)@.validation.with_classes(old(self)@.element),
    {
        self.validation_data.class_list(&self.element)
    }

    /// Get the pres hints of this target.
    pub fn pres_hints(&mut self) -> (hints: &[ApplicableDeclarationBlock])
        ensures
            hints@ == old(self)@.validation.hints(old(self)@.element),
            final(self)@.element == old(self)@.element,
            final(self)@.validation == old(self)@.validation.with_hints(old(self)@.element),
    {
        self.validation_data.pres_hints(&self.element)
    }

    /// Compute the bit vector of revalidation selector match results for this
    /// target, and take note of the selector flags that matching asks for.
    pub fn revalidation_match_results<S: StyleSystem>(
        &mut self,
        system: &S,
        bloom: &StyleBloom,
        selector_flags_map: &mut SelectorFlagsMap,
    ) -> (results: &BitVec)
        requires
            old(self)@.validation.revalidation is None ==> bloom.current_parent == old(
                self,
            )@.element.parent_node(),
        ensures
            final(self)@.element == old(self)@.element,
            old(self)@.validation.revalidation matches Some(known) ==> {
                &&& bits_of(*results) == known
                &&& final(self)@.validation == old(self)@.validation
                &&& final(selector_flags_map).applied@ == old(selector_flags_map).applied@
            },
            old(self)@.validation.revalidation is None ==> exists|found: RevalidationMatch|
                #[trigger] matched(*system, *bloom, old(self)@.element, found) && {
                    &&& bits_of(*results) == bits_of(found.results)
                    &&& final(self)@.validation == old(self)@.validation.with_results(found)
                    &&& final(selector_flags_map).applied@ == old(selector_flags_map).applied@
                        + flags_applied(old(self)@.element.node, found.flags@)
                },
    {
        // It's important to set the selector flags. Otherwise, if we succeed in
        // sharing the style, we may not set the slow selector flags for the
        // right elements (which may not necessarily be |element|), causing
        // missed restyles after future DOM mutations.
        //
        // A minimal testcase is:
        // <style> #e:empty + span { ... } </style>
        // <span id="e">
        //   <span></span>
        // </span>
        // <span></span>
        //
        // The style sharing cache will get a hit for the second span. When the
        // child span is subsequently removed from the DOM, missing selector
        // flags would cause us to miss the restyle on the second span.
        let mut flags_set: Vec<FlaggedElement> = Vec::new();
        let results = self.validation_data.revalidation_match_results(
            &self.element,
            system,
            bloom,
            true,
            &mut flags_set,
        );
        selector_flags_map.apply_selector_flags(self.element.node, flags_set);
        results
    }

    /// Attempts to share a style with another node. What has been found out on the
    /// way is left with the element that is being styled.
    pub fn share_style_if_possible<S: StyleSystem>(
        self,
        context: &mut StyleContext<S>,
        data: &mut ElementData,
    ) -> (result: StyleSharingResult)
        requires
            old(context).thread_local.style_sharing_candidate_cache.wf(),
            old(context).thread_local.bloom_filter.current_parent == self@.element.parent_node(),
            old(context).thread_local.current_element_info is Some,
            !old(context).shared.options.disable_style_sharing_cache ==> forall|i: int|
                0 <= i < old(context).thread_local.style_sharing_candidate_cache@.len()
                    && could_share(
                    self@,
                    #[trigger] old(context).thread_local.style_sharing_candidate_cache@[i],
                ) ==> old(context).thread_local.style_sharing_candidate_cache@[i].element.is_styled()
                    && old(data).has_styles() == old(data).has_restyle(),
        ensures
            final(context).shared == old(context).shared,
            final(context).thread_local.bloom_filter == old(context).thread_local.bloom_filter,
            final(context).thread_local.style_sharing_candidate_cache.wf(),
            final(context).thread_local.current_element_info is Some,
            attempted(
                old(context).shared,
                old(context).thread_local.bloom_filter,
                Search {
                    target: self@,
                    candidates: old(context).thread_local.style_sharing_candidate_cache@,
                    flags: old(context).thread_local.selector_flags.applied@,
                },
                *old(data),
                Search {
                    target: SharingFacts {
                        element: self@.element,
                        validation: final(context).thread_local.current_element_info->0
                            .validation_data@,
                    },
                    candidates: final(context).thread_local.style_sharing_candidate_cache@,
                    flags: final(context).thread_local.selector_flags.applied@,
                },
                *final(data),
                result,
            ),
    {
        let mut target = self;
        let result = context.thread_local.style_sharing_candidate_cache.share_style_if_possible(
            &context.shared,
            &mut context.thread_local.selector_flags,
            &context.thread_local.bloom_filter,
            &mut target,
            data,
        );
        let info = context.thread_local.current_element_info.as_mut().unwrap();
        info.validation_data = target.validation_data.take();
        result
    }
}

} // verus!
