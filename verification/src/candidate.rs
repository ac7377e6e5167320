//! The entries of the style sharing cache.

use crate::atom::Atom;
use crate::bits::bits_of;
use crate::bloom::StyleBloom;
use crate::dom::Element;
use crate::outcome::SharingFacts;
use crate::stylist::{ApplicableDeclarationBlock, FlaggedElement, RevalidationMatch, StyleSystem};
use crate::validation::{matched, ValidationData};
use bit_vec::BitVec;
use std::ops::Deref;
use std::sync::Arc;
use vstd::prelude::*;

verus! {

/// Information regarding a style sharing candidate, that is, an entry in the
/// style sharing cache.
///
/// Note that this information is cleared after the traversal, and once here, the
/// style information of the element is immutable, so it's safe to access.
#[derive(Debug)]
pub struct StyleSharingCandidate {
    element: Arc<Element>,
    validation_data: ValidationData,
}

impl View for StyleSharingCandidate {
    type V = SharingFacts;

    closed spec fn view(&self) -> SharingFacts {
        SharingFacts { element: *self.element, validation: self.validation_data@ }
    }
}

impl Deref for StyleSharingCandidate {
    type Target = Element;

    fn deref(&self) -> (element: &Element)
        ensures
            *element == self@.element,
    {
        &self.element
    }
}

impl PartialEq for StyleSharingCandidate {
    /// Candidates are the same when their elements are.
    fn eq(&self, other: &Self) -> (same: bool) {
        self.element.node == other.element.node
    }
}

impl vstd::std_specs::cmp::PartialEqSpecImpl for StyleSharingCandidate {
    open spec fn obeys_eq_spec() -> bool {
        true
    }

    open spec fn eq_spec(&self, other: &Self) -> bool {
        self@.element.node == other@.element.node
    }
}

impl StyleSharingCandidate {
    /// The entry for `element`.
    pub fn new(element: Arc<Element>, validation_data: ValidationData) -> (candidate: Self)
        ensures
            candidate@ == (SharingFacts { element: *element, validation: validation_data@ }),
    {
        StyleSharingCandidate { element, validation_data }
    }

    /// Get the classlist of this candidate.
    pub fn class_list(&mut self) -> (classes: &[Atom])
        ensures
            classes@ == old(self)@.validation.classes(old(self)@.element),
            final(self)@.element == old(self)@.element,
            final(self)@.validation == old(self)@.validation.with_classes(old(self)@.element),
    {
        self.validation_data.class_list(&self.element)
    }

    /// Get the pres hints of this candidate.
    pub fn pres_hints(&mut self) -> (hints: &[ApplicableDeclarationBlock])
        ensures
            hints@ == old(self)@.validation.hints(old(self)@.element),
            final(self)@.element == old(self)@.element,
            final(self)@.validation == old(self)@.validation.with_hints(old(self)@.element),
    {
        self.validation_data.pres_hints(&self.element)
    }

    /// Compute the bit vector of revalidation selector match results
    /// for this candidate. No selector flags are set.
    pub fn revalidation_match_results<S: StyleSystem>(
        &mut self,
        system: &S,
        bloom: &StyleBloom,
    ) -> (results: &BitVec)
        ensures
            final(self)@.element == old(self)@.element,
            old(self)@.validation.revalidation matches Some(known) ==> {
                &&& bits_of(*results) == known
                &&& final(self)@.validation == old(self)@.validation
            },
            old(self)@.validation.revalidation is None ==> exists|found: RevalidationMatch|
                #[trigger] matched(*system, *bloom, old(self)@.element, found) && {
                    &&& bits_of(*results) == bits_of(found.results)
                    &&& final(self)@.validation == old(self)@.validation.with_results(found)
                },
    {
        let mut ignored: Vec<FlaggedElement> = Vec::new();
        self.validation_data.revalidation_match_results(
            &self.element,
            system,
            bloom,
            false,
            &mut ignored,
        )
    }
}

} // verus!
