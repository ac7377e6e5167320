//! The style sharing cache.

use crate::bloom::StyleBloom;
use crate::cache::{inserted, touched, LRUCache};
use crate::candidate::StyleSharingCandidate;
use crate::checks;
use crate::context::{SelectorFlagsMap, SharedStyleContext};
use crate::data::{ComputedStyle, ElementData};
use crate::dom::Element;
use crate::outcome::{
    alike, answered, cacheable, could_share, flags_after_matching, inherit_alike, matches_answered,
    miss_before_ids, tested, Answers, CacheMiss, SharingFacts, StyleSharingResult, Tested,
};
use crate::properties::ComputedValues;
use crate::relations::{StyleRelations, AFFECTED_BY_PRESENTATIONAL_HINTS};
use crate::stylist::StyleSystem;
use crate::target::StyleSharingTarget;
use crate::validation::{ValidationData, ValidationFacts};
use crate::walk::{
    attempted, damaged, goes_on, leads_to, lemma_search_ends, lemma_search_goes_on,
    lemma_search_is_over, searched, Search, SearchEnd,
};
use std::sync::Arc;
use vstd::prelude::*;

verus! {

/// The amount of nodes that the style sharing candidate cache should hold at
/// most.
pub const STYLE_SHARING_CANDIDATE_CACHE_SIZE: usize = 8;

/// Controls whether the style sharing cache is used.
#[derive(Clone, Copy, Debug, PartialEq, Eq, Structural)]
pub enum StyleSharingBehavior {
    /// Style sharing allowed.
    Allow,
    /// Style sharing disallowed.
    Disallow,
}

/// An LRU cache of the last few nodes seen, so that we can aggressively try to
/// reuse their styles.
pub struct StyleSharingCandidateCache {
    cache: LRUCache<StyleSharingCandidate, STYLE_SHARING_CANDIDATE_CACHE_SIZE>,
}

impl View for StyleSharingCandidateCache {
    type V = Seq<SharingFacts>;

    closed spec fn view(&self) -> Seq<SharingFacts> {
        self.cache@.map_values(|candidate: StyleSharingCandidate| candidate@)
    }
}

/// Whether an element with the computed values `style`, of which selector matching
/// found `relations`, is inserted in the cache.
pub open spec fn insertable(
    element: Element,
    style: ComputedValues,
    relations: StyleRelations,
) -> bool {
    &&& cacheable(element)
    &&& checks::shareable(relations)
    &&& !style.box_style.transitions
    &&& !style.box_style.animations
}

/// What is known of an element when it is inserted.
pub open spec fn known_on_insertion(
    relations: StyleRelations,
    validation: ValidationFacts,
) -> ValidationFacts {
    if relations.meets(AFFECTED_BY_PRESENTATIONAL_HINTS) {
        validation
    } else {
        validation.without_hints()
    }
}

/// What is in the cache once an element has been offered to it: the element comes
/// first if it is inserted, and else everything stays as it is.
pub open spec fn offered(
    entries: Seq<SharingFacts>,
    element: Element,
    style: ComputedValues,
    relations: StyleRelations,
    validation: ValidationFacts,
) -> Seq<SharingFacts> {
    if insertable(element, style, relations) {
        inserted(
            entries,
            SharingFacts { element, validation: known_on_insertion(relations, validation) },
            STYLE_SHARING_CANDIDATE_CACHE_SIZE as nat,
        )
    } else {
        entries
    }
}

/// Whether there is room for all the candidates, and each of them may be there.
pub open spec fn fit_to_share(entries: Seq<SharingFacts>) -> bool {
    &&& entries.len() <= STYLE_SHARING_CANDIDATE_CACHE_SIZE
    &&& forall|i: int| 0 <= i < entries.len() ==> cacheable((#[trigger] entries[i]).element)
}

impl StyleSharingCandidateCache {
    /// There is room for all the candidates, and each of them may be there.
    pub open spec fn wf(self) -> bool {
        fit_to_share(self@)
    }

    /// Create a new style sharing candidate cache.
    pub fn new() -> (cache: Self)
        ensures
            cache.wf(),
            cache@ == Seq::<SharingFacts>::empty(),
    {
        StyleSharingCandidateCache { cache: LRUCache::new() }
    }

    /// Returns the number of entries in the cache.
    pub fn num_entries(&self) -> (count: usize)
        ensures
            count == self@.len(),
    {
        self.cache.num_entries()
    }

    /// Tries to insert an element in the style sharing cache.
    ///
    /// Fails if we know it should never be in the cache.
    pub fn insert_if_possible(
        &mut self,
        element: &Arc<Element>,
        style: &ComputedValues,
        relations: StyleRelations,
        validation_data: ValidationData,
    )
        requires
            old(self).wf(),
            insertable(**element, *style, relations) && !relations.meets(
                AFFECTED_BY_PRESENTATIONAL_HINTS,
            ) ==> (validation_data@.pres_hints matches Some(hints) ==> hints.len() == 0),
        ensures
            final(self).wf(),
            final(self)@ == offered(
                old(self)@,
                **element,
                *style,
                relations,
                validation_data@,
            ),
    {
        if element.parent.is_none() {
            return;
        }
        if element.native_anonymous {
            return;
        }
        // These are things we don't check in the candidate match because they
        // are either uncommon or expensive.
        if !checks::relations_are_shareable(&relations) {
            return;
        }
        let box_style = style.get_box();
        if box_style.specifies_transitions() {
            return;
        }
        if box_style.specifies_animations() {
            return;
        }
        let mut validation_data = validation_data;
        // Take advantage of the information we've learned during
        // selector-matching.
        if !relations.intersects(AFFECTED_BY_PRESENTATIONAL_HINTS) {
            validation_data.set_no_pres_hints();
        }
        self.cache.insert(StyleSharingCandidate::new(element.clone(), validation_data));
        proof {
            assert forall|i: int| 0 <= i < self@.len() implies cacheable(
                (#[trigger] self@[i]).element,
            ) by {
                if i > 0 {
                    assert(self@[i] == old(self)@[i - 1]);
                }
            }
        }
    }

    /// Touch a given index in the style sharing candidate cache.
    pub fn touch(&mut self, index: usize)
        requires
            old(self).wf(),
            index == 0 || index < old(self)@.len(),
        ensures
            final(self).wf(),
            final(self)@ == touched(old(self)@, index as int),
    {
        self.cache.touch(index);
        proof {
            assert forall|i: int| 0 <= i < self@.len() implies cacheable(
                (#[trigger] self@[i]).element,
            ) by {
                let from = if index == 0 || i > index {
                    i
                } else if i == 0 {
                    index as int
                } else {
                    i - 1
                };
                assert(self@[i] == old(self)@[from]);
            }
        }
    }

    /// Clear the style sharing candidate cache.
    pub fn clear(&mut self)
        ensures
            final(self).wf(),
            final(self)@ == Seq::<SharingFacts>::empty(),
    {
        self.cache.evict_all()
    }

    /// Attempts to share a style with another node.
    ///
    /// The candidates are tried one after the other, the most recently used one
    /// first.
    pub fn share_style_if_possible<S: StyleSystem>(
        &mut self,
        shared_context: &SharedStyleContext<S>,
        selector_flags_map: &mut SelectorFlagsMap,
        bloom_filter: &StyleBloom,
        target: &mut StyleSharingTarget,
        data: &mut ElementData,
    ) -> (result: StyleSharingResult)
        requires
            old(self).wf(),
            bloom_filter.current_parent == old(target)@.element.parent_node(),
            !shared_context.options.disable_style_sharing_cache ==> forall|i: int|
                0 <= i < old(self)@.len() && could_share(old(target)@, #[trigger] old(self)@[i])
                    ==> old(self)@[i].element.is_styled() && old(data).has_styles() == old(
                    data,
                ).has_restyle(),
        ensures
            final(self).wf(),
            final(target)@.element == old(target)@.element,
            attempted(
                *shared_context,
                *bloom_filter,
                Search {
                    target: old(target)@,
                    candidates: old(self)@,
                    flags: old(selector_flags_map).applied@,
                },
                *old(data),
                Search {
                    target: final(target)@,
                    candidates: final(self)@,
                    flags: final(selector_flags_map).applied@,
                },
                *final(data),
                result,
            ),
    {
        if shared_context.options.disable_style_sharing_cache {
            return StyleSharingResult::CannotShare;
        }
        if target.parent.is_none() {
            return StyleSharingResult::CannotShare;
        }
        if target.native_anonymous {
            return StyleSharingResult::CannotShare;
        }
        let ghost start = Search {
            target: target@,
            candidates: self@,
            flags: selector_flags_map.applied@,
        };
        let ghost system = shared_context.system;
        let ghost bloom = *bloom_filter;
        let ghost element = target@.element;
        let ghost mut now = start;
        let ghost mut answers: Seq<Answers> = Seq::empty();
        assert(leads_to(system, bloom, start, now, 0, answers)) by {
            assert forall|rest: Seq<Answers>| #[trigger] (answers + rest) == rest by {}
        }
        let mut should_clear_cache = false;
        let mut i: usize = 0;
        while i < self.cache.num_entries()
            invariant_except_break
                i <= now.candidates.len(),
                !should_clear_cache,
                leads_to(system, bloom, start, now, i as int, answers),
                forall|j: int|
                    i <= j < now.candidates.len() ==> now.candidates[j] == start.candidates[j],
            invariant
                !shared_context.options.disable_style_sharing_cache,
                system == shared_context.system,
                bloom == *bloom_filter,
                bloom.current_parent == element.parent_node(),
                element == start.target.element,
                cacheable(element),
                forall|j: int|
                    0 <= j < start.candidates.len() && could_share(
                        start.target,
                        #[trigger] start.candidates[j],
                    ) ==> start.candidates[j].element.is_styled() && data.has_styles()
                        == data.has_restyle(),
                start.target == old(target)@,
                start.candidates == old(self)@,
                start.flags == old(selector_flags_map).applied@,
                self.wf(),
                *data == *old(data),
                now.target == target@,
                now.candidates == self@,
                now.flags == selector_flags_map.applied@,
                now.candidates.len() == start.candidates.len(),
                now.target.element == element,
                now.target.validation.classes(element) == start.target.validation.classes(element),
                now.target.validation.hints(element) == start.target.validation.hints(element),
            ensures
                start.answered(system, bloom, 0, answers) && start.end(0, answers) == (
                    now,
                    SearchEnd::Missed { clear: should_clear_cache },
                ) || !should_clear_cache && leads_to(
                    system,
                    bloom,
                    start,
                    now,
                    now.candidates.len() as int,
                    answers,
                ),
            decreases self@.len() - i,
        {
            let ghost before = self@;
            let ghost tried = now.candidates[i as int];
            let candidate = self.cache.entry_mut(i);
            let sharing_result = Self::test_candidate(
                target,
                candidate,
                shared_context,
                bloom_filter,
                selector_flags_map,
            );
            let ghost answer = choose|answer: Answers| #[trigger]
                answered(system, bloom, now.target, tried, answer) && (Tested {
                    target: target@,
                    candidate: candidate@,
                    flags: selector_flags_map.applied@,
                    result: sharing_result,
                }) == tested(now.target, tried, now.flags, answer);
            proof {
                assert(self@ == before.update(i as int, now.test(i as int, answer).candidate));
                if sharing_result matches Err(miss) && goes_on(miss) {
                    lemma_search_goes_on(system, bloom, start, now, i as int, answers, answer);
                } else {
                    lemma_search_ends(system, bloom, start, now, i as int, answers, answer);
                }
                now = now.after(i as int, answer);
                answers = answers.push(answer);
            }
            match sharing_result {
                Ok(shared_style) => {
                    // Yay, cache hit. Share the style.

                    // Accumulate restyle damage.
                    let old_values = data.take_primary_values();
                    let new_values = shared_style.values.unwrap();
                    let (restyle, child_cascade_requirement) =
                        shared_context.system.accumulate_damage(
                        &**target,
                        data.restyle,
                        old_values,
                        &new_values,
                    );
                    assert(damaged(
                        system,
                        element,
                        *old(data),
                        shared_style,
                        restyle,
                        child_cascade_requirement,
                    ));
                    // We never put elements with pseudo style into the style
                    // sharing cache, so we can just mint an ElementStyles
                    // directly here.
                    data.adopt(shared_style, restyle);
                    let result = StyleSharingResult::StyleWasShared(i, child_cascade_requirement);
                    assert(searched(system, bloom, start, *old(data), answers, now, *data, result));
                    return result;
                },
                Err(miss) => {
                    // Cache miss, let's see what kind of failure to decide
                    // whether we keep trying or not.
                    match miss {
                        // Cache miss because of parent, clear the candidate cache.
                        CacheMiss::Parent => {
                            should_clear_cache = true;
                            break;
                        },
                        // Too expensive failure, give up, we don't want another
                        // one of these.
                        CacheMiss::PresHints | CacheMiss::Revalidation => {
                            break;
                        },
                        _ => {},
                    }
                },
            }
            i += 1;
        }
        proof {
            if leads_to(system, bloom, start, now, now.candidates.len() as int, answers) {
                lemma_search_is_over(system, bloom, start, now, answers);
            }
        }
        if should_clear_cache {
            self.clear();
            proof {
                now = Search { candidates: Seq::empty(), ..now };
            }
        }
        let result = StyleSharingResult::CannotShare;
        assert(searched(system, bloom, start, *old(data), answers, now, *data, result));
        result
    }

    /// Holds the target against the candidate. Gives the candidate's style, or the
    /// first check that tells the two apart.
    pub fn test_candidate<S: StyleSystem>(
        target: &mut StyleSharingTarget,
        candidate: &mut StyleSharingCandidate,
        shared: &SharedStyleContext<S>,
        bloom: &StyleBloom,
        selector_flags_map: &mut SelectorFlagsMap,
    ) -> (result: Result<ComputedStyle, CacheMiss>)
        requires
            inherit_alike(old(target)@.element.parent, old(candidate)@.element.parent) && old(
                target,
            )@.element.native_anonymous ==> !old(candidate)@.element.native_anonymous,
            could_share(old(target)@, old(candidate)@) ==> {
                &&& old(target)@.validation.revalidation is None ==> bloom.current_parent == old(
                    target,
                )@.element.parent_node()
                &&& old(candidate)@.element.has_style()
            },
        ensures
            exists|answers: Answers| #[trigger]
                answered(shared.system, *bloom, old(target)@, old(candidate)@, answers) && (Tested {
                    target: final(target)@,
                    candidate: final(candidate)@,
                    flags: final(selector_flags_map).applied@,
                    result,
                }) == tested(
                    old(target)@,
                    old(candidate)@,
                    old(selector_flags_map).applied@,
                    answers,
                ),
    {
        let ghost mut answers: Answers = arbitrary();
        let ghost before_target = target@;
        let ghost before_candidate = candidate@;
        // Nothing is asked before the ids have been compared.
        assert(miss_before_ids(target@.element, candidate@.element) is Some ==> answered(
            shared.system,
            *bloom,
            target@,
            candidate@,
            answers,
        ));

        // Check that we have the same parent, or at least the same pointer
        // identity for parent computed style. The latter check allows us to
        // share style between cousins if the parents shared style.
        let parent = target.parent;
        let candidate_parent = candidate.parent;
        if !checks::same_element(parent, candidate_parent) && !checks::same_computed_values(
            parent,
            candidate_parent,
        ) {
            return Err(CacheMiss::Parent);
        }
        if target.native_anonymous || candidate.native_anonymous {
            return Err(CacheMiss::NativeAnonymousContent);
        }
        if target.local_name != candidate.local_name {
            return Err(CacheMiss::LocalName);
        }
        if target.namespace != candidate.namespace {
            return Err(CacheMiss::Namespace);
        }
        if target.link != candidate.link {
            return Err(CacheMiss::Link);
        }
        if target.user_and_author_rules != candidate.user_and_author_rules {
            return Err(CacheMiss::UserAndAuthorRules);
        }
        if !checks::have_same_state_ignoring_visitedness(&**target, &**candidate) {
            return Err(CacheMiss::State);
        }
        if !checks::have_same_id(&**target, &**candidate) {
            // It's possible that there are no styles for either id.
            let rules_for_ids = checks::may_have_rules_for_ids(
                &shared.system,
                target.id,
                candidate.id,
            );
            proof {
                answers = Answers { rules_for_ids, ..answers };
            }
            if rules_for_ids {
                assert(answered(shared.system, *bloom, before_target, before_candidate, answers));
                    return Err(CacheMiss::IdAttr);
            }
        }
        // Nothing more is asked before the presentational hints have been compared.
        assert(!alike(target@, candidate@, answers.rules_for_ids) ==> answered(
            shared.system,
            *bloom,
            target@,
            candidate@,
            answers,
        ));
        if !checks::have_same_style_attribute(&**target, &**candidate) {
            return Err(CacheMiss::StyleAttr);
        }
        if !checks::have_same_class(target, candidate) {
            return Err(CacheMiss::Class);
        }
        if !checks::have_same_presentational_hints(target, candidate) {
            return Err(CacheMiss::PresHints);
        }
        let ghost known_target = target@;
        let ghost known_candidate = candidate@;
        let ghost known_flags = selector_flags_map.applied@;
        let revalidated = checks::revalidate(
            target,
            candidate,
            &shared.system,
            bloom,
            selector_flags_map,
        );
        proof {
            let found = choose|found: Answers| #[trigger]
                matches_answered(shared.system, *bloom, known_target, known_candidate, found) && {
                    let target_after = known_target.validation.with_results(found.target_match);
                    let candidate_after = known_candidate.validation.with_results(
                        found.candidate_match,
                    );
                    &&& revalidated == (target_after.revalidation == candidate_after.revalidation)
                    &&& target@.validation == target_after
                    &&& candidate@.validation == candidate_after
                    &&& selector_flags_map.applied@ == flags_after_matching(
                        known_target,
                        known_flags,
                        found,
                    )
                };
            answers = Answers { rules_for_ids: answers.rules_for_ids, ..found };
            assert(answered(shared.system, *bloom, before_target, before_candidate, answers));
        }
        if !revalidated {
            return Err(CacheMiss::Revalidation);
        }
        let data = candidate.data.as_ref().unwrap();
        Ok(data.styles.as_ref().unwrap().primary)
    }
}

} // verus!
