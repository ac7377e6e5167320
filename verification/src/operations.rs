//! What the operations do, told by what goes in and what comes out.

use crate::atom::Atom;
use crate::bits::bits_of;
use crate::bloom::StyleBloom;
use crate::candidate::StyleSharingCandidate;
use crate::checks;
use crate::class_order::{law_ordering_is_a_stable_sort, of_hash, sort_by_hash};
use crate::context::{
    flags_applied, AppliedFlags, SelectorFlagsMap, SharedStyleContext, StyleContext,
};
use crate::data::{ComputedStyle, ElementData, RestyleData};
use crate::dom::{Element, OpaqueNode};
use crate::guarantees::{
    flags_asked_for, goes_through, is_class_list, keeps_what_is_worked_out,
    law_attempt_goes_through_the_cache, law_both_ids_are_asked_about,
    law_class_list_holds_every_class, law_class_list_is_the_one_compared,
    law_first_difference_is_told, law_match_results_are_known_or_asked_for,
    law_offered_element_comes_first, law_refused_attempt_changes_nothing,
    law_what_is_worked_out_is_kept, may_find, may_result, own_hints, tells_the_first_difference,
};
use crate::outcome::{
    answered, tested, Answers, CacheMiss, SharingFacts, StyleSharingResult, Tested,
};
use crate::properties::ComputedValues;
use crate::relations::StyleRelations;
use crate::sharing::StyleSharingCandidateCache;
use crate::stylist::{ApplicableDeclarationBlock, FlaggedElement, RevalidationMatch, StyleSystem};
use crate::target::StyleSharingTarget;
use crate::validation::{matched, ValidationData};
use crate::walk::Search;
use bit_vec::BitVec;
use std::sync::Arc;
use vstd::prelude::*;

verus! {

/// Sorting keeps every atom, as often as it is there, brings the hashes in ascending
/// order, and keeps the order of the atoms of one hash.
pub proof fn law_sort_by_hash(atoms: &mut [Atom])
    requires
        call_ensures(sort_by_hash, (atoms,), ()),
    ensures
        final(atoms)@.to_multiset() == old(atoms)@.to_multiset(),
        forall|i: int, j: int|
            0 <= i <= j < final(atoms)@.len() ==> final(atoms)@[i].hash <= final(atoms)@[j].hash,
        forall|hash: u32| #[trigger]
            of_hash(final(atoms)@, hash) == of_hash(old(atoms)@, hash),
{
    law_ordering_is_a_stable_sort(old(atoms)@);
}

/// The class list that is known is given. Else it holds every class of the element,
/// as often as it has it; up to five in ascending order of their hashes, those of one
/// hash in the order in which the element has them, and more than five as they are. It
/// is known from then on, and nothing else changes.
pub proof fn law_class_list(data: &mut ValidationData, element: Element, list: &[Atom])
    requires
        call_ensures(ValidationData::class_list, (data, &element), list),
    ensures
        old(data)@.class_list matches Some(known) ==> list@ == known,
        old(data)@.class_list is None ==> list@.to_multiset() == element.classes@.to_multiset(),
        old(data)@.class_list is None && element.classes@.len() > 5 ==> list@ == element.classes@,
        old(data)@.class_list is None && element.classes@.len() <= 5 ==> forall|i: int, j: int|
            0 <= i <= j < list@.len() ==> list@[i].hash <= list@[j].hash,
        old(data)@.class_list is None && element.classes@.len() <= 5 ==> forall|hash: u32|
            #[trigger] of_hash(list@, hash) == of_hash(element.classes@, hash),
        final(data)@.class_list == Some(list@),
        final(data)@.pres_hints == old(data)@.pres_hints,
        final(data)@.revalidation == old(data)@.revalidation,
{
    law_class_list_holds_every_class(old(data)@, element);
}

/// The hints that are known are given, or else those that the element has when all
/// links are unvisited. They are known from then on, and nothing else changes.
pub proof fn law_pres_hints(
    data: &mut ValidationData,
    element: Element,
    hints: &[ApplicableDeclarationBlock],
)
    requires
        call_ensures(ValidationData::pres_hints, (data, &element), hints),
    ensures
        old(data)@.pres_hints matches Some(known) ==> hints@ == known,
        old(data)@.pres_hints is None ==> hints@ == element.unvisited_hints@,
        final(data)@.pres_hints == Some(hints@),
        final(data)@.class_list == old(data)@.class_list,
        final(data)@.revalidation == old(data)@.revalidation,
{
}

/// The match results that are known are given, and nothing happens. Else the style
/// system is asked, with the filter where that is set up for the element's parent; its
/// results are given and known from then on, and all the flags that it asks for are
/// added, in their order.
pub proof fn law_revalidation_match_results<S: StyleSystem>(
    data: &mut ValidationData,
    element: Element,
    system: S,
    bloom: StyleBloom,
    bloom_known_valid: bool,
    flags_set: &mut Vec<FlaggedElement>,
    results: &BitVec,
)
    requires
        bloom_known_valid ==> bloom.current_parent == (match element.parent {
            Some(parent) => Some(parent.node),
            None => None,
        }),
        call_ensures(
            ValidationData::revalidation_match_results::<S>,
            (data, &element, &system, &bloom, bloom_known_valid, flags_set),
            results,
        ),
    ensures
        final(data)@.revalidation == Some(bits_of(*results)),
        final(data)@.class_list == old(data)@.class_list,
        final(data)@.pres_hints == old(data)@.pres_hints,
        old(data)@.revalidation matches Some(known) ==> bits_of(*results) == known && final(flags_set)@ == old(flags_set)@,
        old(data)@.revalidation is None ==> exists|found: RevalidationMatch| #[trigger]
            may_find(system, bloom, element, found) && bits_of(*results) == bits_of(found.results)
                && final(flags_set)@ == old(flags_set)@ + found.flags@,
{
    law_match_results_are_known_or_asked_for(
        system,
        bloom,
        element,
        bloom_known_valid,
        old(data)@,
        old(flags_set)@,
        bits_of(*results),
        final(data)@,
        final(flags_set)@,
    );
}

/// Taking the data out leaves nothing known behind, and loses none of it.
pub proof fn law_take(data: &mut ValidationData, taken: ValidationData)
    requires
        call_ensures(ValidationData::take, (data,), taken),
    ensures
        taken@ == old(data)@,
        final(data)@.class_list is None,
        final(data)@.pres_hints is None,
        final(data)@.revalidation is None,
{
}

/// The style system is asked about both ids: they do not matter only if it said that
/// there are no rules for either, and matter only if it said that there may be for one.
pub proof fn law_may_have_rules_for_ids<S: StyleSystem>(
    system: S,
    first: Option<Atom>,
    second: Option<Atom>,
    answer: bool,
)
    requires
        call_ensures(checks::may_have_rules_for_ids::<S>, (&system, first, second), answer),
    ensures
        !answer && first is Some ==> call_ensures(
            S::may_have_rules_for_id,
            (&system, &first->0),
            false,
        ),
        !answer && second is Some ==> call_ensures(
            S::may_have_rules_for_id,
            (&system, &second->0),
            false,
        ),
        answer ==> {
            ||| first is Some && call_ensures(
                S::may_have_rules_for_id,
                (&system, &first->0),
                true,
            )
            ||| second is Some && call_ensures(
                S::may_have_rules_for_id,
                (&system, &second->0),
                true,
            )
        },
{
    law_both_ids_are_asked_about(system, first, second, answer);
}

/// An element is worth inserting exactly if it has no pseudo-element styles, whatever
/// else matching found.
pub proof fn law_relations_are_shareable(relations: StyleRelations, answer: bool)
    requires
        call_ensures(checks::relations_are_shareable, (&relations,), answer),
    ensures
        answer == (relations.bits & 8 == 0),
{
    let bits = relations.bits;
    assert(bits & 8usize & 15usize == bits & 8usize) by (bit_vector);
}

/// All the flags are taken note of, in their order, behind those that were there.
pub proof fn law_apply_selector_flags(
    map: &mut SelectorFlagsMap,
    styled: OpaqueNode,
    flags: Vec<FlaggedElement>,
)
    requires
        call_ensures(SelectorFlagsMap::apply_selector_flags, (map, styled, flags), ()),
    ensures
        final(map).applied@.len() == old(map).applied@.len() + flags@.len(),
        forall|i: int|
            0 <= i < old(map).applied@.len() ==> #[trigger] final(map).applied@[i] == old(map).applied@[i],
        forall|i: int|
            #![trigger flags@[i]]
            0 <= i < flags@.len() ==> final(map).applied@[old(map).applied@.len() + i] == (
            AppliedFlags { styled, flagged: flags@[i] }),
{
}

/// Nothing is known of a new target.
pub proof fn law_new_target(element: Arc<Element>, target: StyleSharingTarget)
    requires
        call_ensures(StyleSharingTarget::new, (element,), target),
    ensures
        target@.element == *element,
        target@.validation.class_list is None,
        target@.validation.pres_hints is None,
        target@.validation.revalidation is None,
{
}

/// An element that has a parent, is no native anonymous content, has no pseudo-element
/// styles, and whose style specifies neither transitions nor animations, becomes the
/// first entry. The others move back by one, and only the last makes way when there are
/// eight. Every other element leaves the cache as it is.
pub proof fn law_insert_if_possible(
    cache: &mut StyleSharingCandidateCache,
    element: Arc<Element>,
    style: ComputedValues,
    relations: StyleRelations,
    validation_data: ValidationData,
)
    requires
        call_ensures(
            StyleSharingCandidateCache::insert_if_possible,
            (cache, &element, &style, relations, validation_data),
            (),
        ),
        old(cache)@.len() <= 8,
    ensures
        element.parent is None || element.native_anonymous || relations.bits & 8 != 0
            || style.box_style.transitions || style.box_style.animations ==> final(cache)@ == old(cache)@,
        element.parent is Some && !element.native_anonymous && relations.bits & 8 == 0
            && !style.box_style.transitions && !style.box_style.animations ==> {
            &&& final(cache)@.len() == if old(cache)@.len() < 8 {
                old(cache)@.len() + 1
            } else {
                8
            }
            &&& final(cache)@[0].element == *element
            &&& final(cache)@[0].validation.class_list == validation_data@.class_list
            &&& final(cache)@[0].validation.revalidation == validation_data@.revalidation
            &&& relations.bits & 4 != 0 ==> final(cache)@[0].validation.pres_hints
                == validation_data@.pres_hints
            &&& relations.bits & 4 == 0 ==> final(cache)@[0].validation.pres_hints == Some(
                Seq::<ApplicableDeclarationBlock>::empty(),
            )
            &&& forall|i: int|
                #![trigger old(cache)@[i]]
                0 <= i < old(cache)@.len() && i < 7 ==> final(cache)@[i + 1] == old(cache)@[i]
        },
{
    let offered_element: &Element = &*element;
    law_offered_element_comes_first(
        old(cache)@,
        *offered_element,
        style,
        relations,
        validation_data@,
    );
}

/// Touching an entry makes it the first. Those before it move back by one, and those
/// behind it stay where they are.
pub proof fn law_touch(cache: &mut StyleSharingCandidateCache, index: usize)
    requires
        call_ensures(StyleSharingCandidateCache::touch, (cache, index), ()),
        index < old(cache)@.len(),
    ensures
        final(cache)@.len() == old(cache)@.len(),
        final(cache)@[0] == old(cache)@[index as int],
        forall|i: int|
            #![trigger old(cache)@[i]]
            0 <= i < index ==> final(cache)@[i + 1] == old(cache)@[i],
        forall|i: int| index < i < old(cache)@.len() ==> #[trigger] final(cache)@[i] == old(cache)@[i],
{
}

/// A new cache has no entries, and a cache that is cleared has none left.
pub proof fn law_new_and_clear(
    new: StyleSharingCandidateCache,
    cache: &mut StyleSharingCandidateCache,
)
    requires
        call_ensures(StyleSharingCandidateCache::new, (), new),
        call_ensures(StyleSharingCandidateCache::clear, (cache,), ()),
    ensures
        new@.len() == 0,
        final(cache)@.len() == 0,
{
}

/// Holding a target against a candidate tells the first difference between the two, and
/// keeps what was known and what had to be worked out.
pub proof fn law_test_candidate<S: StyleSystem>(
    target: &mut StyleSharingTarget,
    candidate: &mut StyleSharingCandidate,
    shared: SharedStyleContext<S>,
    bloom: StyleBloom,
    selector_flags_map: &mut SelectorFlagsMap,
    result: Result<ComputedStyle, CacheMiss>,
)
    requires
        call_ensures(
            StyleSharingCandidateCache::test_candidate::<S>,
            (target, candidate, &shared, &bloom, selector_flags_map),
            result,
        ),
    ensures
        tells_the_first_difference(
            shared.system,
            bloom,
            old(target)@,
            old(candidate)@,
            final(target)@,
            final(candidate)@,
            result,
        ),
        keeps_what_is_worked_out(
            shared.system,
            bloom,
            old(target)@,
            old(candidate)@,
            old(selector_flags_map).applied@,
            final(target)@,
            final(candidate)@,
            final(selector_flags_map).applied@,
            result,
        ),
{
    let flags = old(selector_flags_map).applied@;
    let answers = choose|answers: Answers| #[trigger]
        answered(shared.system, bloom, old(target)@, old(candidate)@, answers) && (Tested {
            target: final(target)@,
            candidate: final(candidate)@,
            flags: final(selector_flags_map).applied@,
            result,
        }) == tested(old(target)@, old(candidate)@, flags, answers);
    law_first_difference_is_told(
        shared.system,
        bloom,
        old(target)@,
        old(candidate)@,
        flags,
        answers,
    );
    law_what_is_worked_out_is_kept(
        shared.system,
        bloom,
        old(target)@,
        old(candidate)@,
        flags,
        answers,
    );
}

/// An attempt to share does nothing where sharing is off, and for an element that has no
/// parent or is native anonymous content. Every other attempt goes through the cache,
/// the most recently used entry first, until one decides.
pub proof fn law_share_style_if_possible<S: StyleSystem>(
    cache: &mut StyleSharingCandidateCache,
    shared: SharedStyleContext<S>,
    selector_flags_map: &mut SelectorFlagsMap,
    bloom: StyleBloom,
    target: &mut StyleSharingTarget,
    data: &mut ElementData,
    result: StyleSharingResult,
)
    requires
        call_ensures(
            StyleSharingCandidateCache::share_style_if_possible::<S>,
            (cache, &shared, selector_flags_map, &bloom, target, data),
            result,
        ),
    ensures
        shared.options.disable_style_sharing_cache || old(target)@.element.parent is None || old(target)@.element.native_anonymous ==> {
            &&& result == StyleSharingResult::CannotShare
            &&& final(cache)@ == old(cache)@
            &&& final(target)@ == old(target)@
            &&& final(selector_flags_map).applied@ == old(selector_flags_map).applied@
            &&& *final(data) == *old(data)
        },
        !shared.options.disable_style_sharing_cache && old(target)@.element.parent is Some && !old(target)@.element.native_anonymous ==> exists|at: int| #[trigger]
            goes_through(
                shared.system,
                bloom,
                (Search {
                    target: old(target)@,
                    candidates: old(cache)@,
                    flags: old(selector_flags_map).applied@,
                }),
                *old(data),
                (Search {
                    target: final(target)@,
                    candidates: final(cache)@,
                    flags: final(selector_flags_map).applied@,
                }),
                *final(data),
                result,
                at,
            ),
{
    let before = Search {
        target: old(target)@,
        candidates: old(cache)@,
        flags: old(selector_flags_map).applied@,
    };
    let after = Search {
        target: final(target)@,
        candidates: final(cache)@,
        flags: final(selector_flags_map).applied@,
    };
    if shared.options.disable_style_sharing_cache || before.target.element.parent is None
        || before.target.element.native_anonymous {
        law_refused_attempt_changes_nothing(
            shared,
            bloom,
            before,
            *old(data),
            after,
            *final(data),
            result,
        );
    } else {
        let at = law_attempt_goes_through_the_cache(
            shared,
            bloom,
            before,
            *old(data),
            after,
            *final(data),
            result,
        );
    }
}

/// An attempt that a target makes does the same with the cache of the thread. What is
/// known of the element then is left with the element that is being styled.
pub proof fn law_target_shares_style_if_possible<S: StyleSystem>(
    target: StyleSharingTarget,
    context: &mut StyleContext<S>,
    data: &mut ElementData,
    result: StyleSharingResult,
)
    requires
        call_ensures(
            StyleSharingTarget::share_style_if_possible::<S>,
            (target, context, data),
            result,
        ),
    ensures
        final(context).thread_local.current_element_info is Some,
        old(context).shared.options.disable_style_sharing_cache || target@.element.parent is None
            || target@.element.native_anonymous ==> {
            &&& result == StyleSharingResult::CannotShare
            &&& final(context).thread_local.style_sharing_candidate_cache@ == old(context).thread_local.style_sharing_candidate_cache@
            &&& final(context).thread_local.current_element_info->0.validation_data@
                == target@.validation
            &&& final(context).thread_local.selector_flags.applied@ == old(context).thread_local.selector_flags.applied@
            &&& *final(data) == *old(data)
        },
        !old(context).shared.options.disable_style_sharing_cache && target@.element.parent is Some
            && !target@.element.native_anonymous ==> exists|at: int| #[trigger]
            goes_through(
                old(context).shared.system,
                old(context).thread_local.bloom_filter,
                (Search {
                    target: target@,
                    candidates: old(context).thread_local.style_sharing_candidate_cache@,
                    flags: old(context).thread_local.selector_flags.applied@,
                }),
                *old(data),
                (Search {
                    target: (SharingFacts {
                        element: target@.element,
                        validation: final(context).thread_local.current_element_info->0
                            .validation_data@,
                    }),
                    candidates: final(context).thread_local.style_sharing_candidate_cache@,
                    flags: final(context).thread_local.selector_flags.applied@,
                }),
                *final(data),
                result,
                at,
            ),
{
    let before = Search {
        target: target@,
        candidates: old(context).thread_local.style_sharing_candidate_cache@,
        flags: old(context).thread_local.selector_flags.applied@,
    };
    let after = Search {
        target: SharingFacts {
            element: target@.element,
            validation: final(context).thread_local.current_element_info->0.validation_data@,
        },
        candidates: final(context).thread_local.style_sharing_candidate_cache@,
        flags: final(context).thread_local.selector_flags.applied@,
    };
    let shared = old(context).shared;
    let bloom = old(context).thread_local.bloom_filter;
    if shared.options.disable_style_sharing_cache || target@.element.parent is None
        || target@.element.native_anonymous {
        law_refused_attempt_changes_nothing(
            shared,
            bloom,
            before,
            *old(data),
            after,
            *final(data),
            result,
        );
    } else {
        let at = law_attempt_goes_through_the_cache(
            shared,
            bloom,
            before,
            *old(data),
            after,
            *final(data),
            result,
        );
    }
}

/// The number of entries is that of all that are there.
pub proof fn law_num_entries(cache: StyleSharingCandidateCache, count: usize)
    requires
        call_ensures(StyleSharingCandidateCache::num_entries, (&cache,), count),
    ensures
        count == cache@.len(),
{
}

/// Candidates are the same exactly if their elements are one and the same node.
pub proof fn law_candidates_are_the_same(
    left: StyleSharingCandidate,
    right: StyleSharingCandidate,
    same: bool,
)
    requires
        call_ensures(<StyleSharingCandidate as PartialEq>::eq, (&left, &right), same),
    ensures
        same == (left@.element.node == right@.element.node),
{
}

/// The candidate for an element has just what is known of it.
pub proof fn law_new_candidate(
    element: Arc<Element>,
    validation_data: ValidationData,
    candidate: StyleSharingCandidate,
)
    requires
        call_ensures(StyleSharingCandidate::new, (element, validation_data), candidate),
    ensures
        candidate@.element == *element,
        candidate@.validation == validation_data@,
{
}

/// A filter is set up for an element exactly if it is set up for the node of the
/// element's parent, or for none if there is no parent.
pub proof fn law_is_set_up_for(bloom: StyleBloom, element: Element, answer: bool)
    requires
        call_ensures(StyleBloom::is_set_up_for, (&bloom, &element), answer),
    ensures
        element.parent is Some ==> answer == (bloom.current_parent == Some(
            element.parent->0.node,
        )),
        element.parent is None ==> answer == (bloom.current_parent is None),
{
}

/// The class list of a target is found out as that of any element is.
pub proof fn law_class_list_of_target(target: &mut StyleSharingTarget, list: &[Atom])
    requires
        call_ensures(StyleSharingTarget::class_list, (target,), list),
    ensures
        is_class_list(list@, old(target)@),
        final(target)@.element == old(target)@.element,
        final(target)@.validation.class_list == Some(list@),
        final(target)@.validation.pres_hints == old(target)@.validation.pres_hints,
        final(target)@.validation.revalidation == old(target)@.validation.revalidation,
{
    law_class_list_is_the_one_compared(list@, old(target)@);
}

/// The class list of a candidate is found out as that of any element is.
pub proof fn law_class_list_of_candidate(candidate: &mut StyleSharingCandidate, list: &[Atom])
    requires
        call_ensures(StyleSharingCandidate::class_list, (candidate,), list),
    ensures
        is_class_list(list@, old(candidate)@),
        final(candidate)@.element == old(candidate)@.element,
        final(candidate)@.validation.class_list == Some(list@),
        final(candidate)@.validation.pres_hints == old(candidate)@.validation.pres_hints,
        final(candidate)@.validation.revalidation == old(candidate)@.validation.revalidation,
{
    law_class_list_is_the_one_compared(list@, old(candidate)@);
}

/// The hints of a target are found out as those of any element are.
pub proof fn law_pres_hints_of_target(
    target: &mut StyleSharingTarget,
    hints: &[ApplicableDeclarationBlock],
)
    requires
        call_ensures(StyleSharingTarget::pres_hints, (target,), hints),
    ensures
        hints@ == own_hints(old(target)@),
        final(target)@.element == old(target)@.element,
        final(target)@.validation.pres_hints == Some(hints@),
        final(target)@.validation.class_list == old(target)@.validation.class_list,
        final(target)@.validation.revalidation == old(target)@.validation.revalidation,
{
}

/// The hints of a candidate are found out as those of any element are.
pub proof fn law_pres_hints_of_candidate(
    candidate: &mut StyleSharingCandidate,
    hints: &[ApplicableDeclarationBlock],
)
    requires
        call_ensures(StyleSharingCandidate::pres_hints, (candidate,), hints),
    ensures
        hints@ == own_hints(old(candidate)@),
        final(candidate)@.element == old(candidate)@.element,
        final(candidate)@.validation.pres_hints == Some(hints@),
        final(candidate)@.validation.class_list == old(candidate)@.validation.class_list,
        final(candidate)@.validation.revalidation == old(candidate)@.validation.revalidation,
{
}

/// The match results of a target are known or asked for, and the flags that matching
/// asks for are taken note of.
pub proof fn law_revalidation_match_results_of_target<S: StyleSystem>(
    target: &mut StyleSharingTarget,
    system: S,
    bloom: StyleBloom,
    selector_flags_map: &mut SelectorFlagsMap,
    results: &BitVec,
)
    requires
        call_ensures(
            StyleSharingTarget::revalidation_match_results::<S>,
            (target, &system, &bloom, selector_flags_map),
            results,
        ),
    ensures
        may_result(system, bloom, old(target)@, bits_of(*results)),
        final(target)@.element == old(target)@.element,
        final(target)@.validation.revalidation == Some(bits_of(*results)),
        final(target)@.validation.class_list == old(target)@.validation.class_list,
        final(target)@.validation.pres_hints == old(target)@.validation.pres_hints,
        flags_asked_for(
            system,
            bloom,
            old(target)@,
            old(selector_flags_map).applied@,
            final(target)@,
            final(selector_flags_map).applied@,
        ),
{
    if old(target)@.validation.revalidation is None {
        let found = choose|found: RevalidationMatch| #[trigger]
            matched(system, bloom, old(target)@.element, found) && {
                &&& bits_of(*results) == bits_of(found.results)
                &&& final(target)@.validation == old(target)@.validation.with_results(found)
                &&& final(selector_flags_map).applied@ == old(selector_flags_map).applied@
                    + flags_applied(old(target)@.element.node, found.flags@)
            };
        assert(may_find(system, bloom, old(target)@.element, found));
        assert(final(selector_flags_map).applied@ == old(selector_flags_map).applied@
            + found.flags@.map_values(
            |flagged: FlaggedElement| AppliedFlags { styled: old(target)@.element.node, flagged },
        ));
    }
}

/// The match results of a candidate are known or asked for.
pub proof fn law_revalidation_match_results_of_candidate<S: StyleSystem>(
    candidate: &mut StyleSharingCandidate,
    system: S,
    bloom: StyleBloom,
    results: &BitVec,
)
    requires
        call_ensures(
            StyleSharingCandidate::revalidation_match_results::<S>,
            (candidate, &system, &bloom),
            results,
        ),
    ensures
        may_result(system, bloom, old(candidate)@, bits_of(*results)),
        final(candidate)@.element == old(candidate)@.element,
        final(candidate)@.validation.revalidation == Some(bits_of(*results)),
        final(candidate)@.validation.class_list == old(candidate)@.validation.class_list,
        final(candidate)@.validation.pres_hints == old(candidate)@.validation.pres_hints,
{
    if old(candidate)@.validation.revalidation is None {
        let found = choose|found: RevalidationMatch| #[trigger]
            matched(system, bloom, old(candidate)@.element, found) && {
                &&& bits_of(*results) == bits_of(found.results)
                &&& final(candidate)@.validation == old(candidate)@.validation.with_results(found)
            };
        assert(may_find(system, bloom, old(candidate)@.element, found));
    }
}

/// The values of the element's own style are taken out of its data, and nothing else
/// changes.
pub proof fn law_take_primary_values(data: &mut ElementData, values: Option<ComputedValues>)
    requires
        call_ensures(ElementData::take_primary_values, (data,), values),
    ensures
        old(data).styles is None ==> values is None && final(data).styles is None,
        old(data).styles is Some ==> {
            &&& values == old(data).styles->0.primary.values
            &&& final(data).styles is Some
            &&& final(data).styles->0.primary.values is None
            &&& final(data).styles->0.primary.rules == old(data).styles->0.primary.rules
            &&& final(data).styles->0.pseudos == old(data).styles->0.pseudos
        },
        final(data).restyle == old(data).restyle,
{
}

/// An element that adopts a style has that style, no pseudo-element styles, and the
/// restyle data that came out of it if it was being restyled.
pub proof fn law_adopt(
    data: &mut ElementData,
    style: ComputedStyle,
    restyle: RestyleData,
)
    requires
        call_ensures(ElementData::adopt, (data, style, restyle), ()),
    ensures
        final(data).styles is Some,
        final(data).styles->0.primary == style,
        final(data).styles->0.pseudos@.len() == 0,
        old(data).restyle is Some ==> final(data).restyle == Some(restyle),
        old(data).restyle is None ==> final(data).restyle is None,
{
}

/// Whether there are no more than eight entries, each of them for an element that has a
/// parent and is no native anonymous content.
pub open spec fn in_order(entries: Seq<SharingFacts>) -> bool {
    &&& entries.len() <= 8
    &&& forall|i: int|
        0 <= i < entries.len() ==> (#[trigger] entries[i]).element.parent is Some
            && !entries[i].element.native_anonymous
}

/// Any element can be offered to the cache, with any style and whatever matching found,
/// as long as no hints are known of one that matching found unaffected by any.
pub proof fn law_any_element_can_be_offered(
    cache: &mut StyleSharingCandidateCache,
    element: Arc<Element>,
    style: ComputedValues,
    relations: StyleRelations,
    validation_data: ValidationData,
)
    requires
        in_order(old(cache)@),
        relations.bits & 4 != 0 || validation_data@.pres_hints is None
            || validation_data@.pres_hints->0.len() == 0,
    ensures
        call_requires(
            StyleSharingCandidateCache::insert_if_possible,
            (cache, &element, &style, relations, validation_data),
        ),
{
    let bits = relations.bits;
    assert(bits & 4usize & 15usize == bits & 4usize) by (bit_vector);
}

/// Any entry can be touched, and so can the first place of an empty cache. Any cache can
/// be cleared and counted.
pub proof fn law_any_entry_can_be_touched(cache: &mut StyleSharingCandidateCache, index: usize)
    requires
        in_order(old(cache)@),
        index == 0 || index < old(cache)@.len(),
    ensures
        call_requires(StyleSharingCandidateCache::touch, (cache, index)),
        call_requires(StyleSharingCandidateCache::clear, (cache,)),
        call_requires(StyleSharingCandidateCache::num_entries, (&*old(cache),)),
{
}

/// Any element can look for a style while the filter is set up for its parent, the
/// cached elements are styled, and it has styles exactly if it is being restyled.
pub proof fn law_any_element_can_look_for_a_style<S: StyleSystem>(
    cache: &mut StyleSharingCandidateCache,
    shared: SharedStyleContext<S>,
    selector_flags_map: &mut SelectorFlagsMap,
    bloom: StyleBloom,
    target: &mut StyleSharingTarget,
    data: &mut ElementData,
)
    requires
        in_order(old(cache)@),
        bloom.current_parent == (match old(target)@.element.parent {
            Some(parent) => Some(parent.node),
            None => None,
        }),
        forall|i: int|
            0 <= i < old(cache)@.len() ==> {
                &&& (#[trigger] old(cache)@[i]).element.data is Some
                &&& old(cache)@[i].element.data->0.styles is Some
                &&& old(cache)@[i].element.data->0.styles->0.primary.values is Some
            },
        old(data).styles is Some == old(data).restyle is Some,
    ensures
        call_requires(
            StyleSharingCandidateCache::share_style_if_possible::<S>,
            (cache, &shared, selector_flags_map, &bloom, target, data),
        ),
{
}

/// So can any target, with the cache and the filter of the thread, while an element is
/// being styled.
pub proof fn law_any_target_can_look_for_a_style<S: StyleSystem>(
    target: StyleSharingTarget,
    context: &mut StyleContext<S>,
    data: &mut ElementData,
)
    requires
        in_order(old(context).thread_local.style_sharing_candidate_cache@),
        old(context).thread_local.current_element_info is Some,
        old(context).thread_local.bloom_filter.current_parent == (match target@.element.parent {
            Some(parent) => Some(parent.node),
            None => None,
        }),
        ({
            let entries = old(context).thread_local.style_sharing_candidate_cache@;
            forall|i: int|
                0 <= i < entries.len() ==> {
                    &&& (#[trigger] entries[i]).element.data is Some
                    &&& entries[i].element.data->0.styles is Some
                    &&& entries[i].element.data->0.styles->0.primary.values is Some
                }
        }),
        old(data).styles is Some == old(data).restyle is Some,
    ensures
        call_requires(
            StyleSharingTarget::share_style_if_possible::<S>,
            (target, context, data),
        ),
{
}

/// Any two elements can be held against each other while the filter is set up for the
/// parent of the first and the second has a style, unless both are native anonymous
/// content.
pub proof fn law_any_two_can_be_held_against_each_other<S: StyleSystem>(
    target: &mut StyleSharingTarget,
    candidate: &mut StyleSharingCandidate,
    shared: SharedStyleContext<S>,
    bloom: StyleBloom,
    selector_flags_map: &mut SelectorFlagsMap,
)
    requires
        !(old(target)@.element.native_anonymous && old(candidate)@.element.native_anonymous),
        bloom.current_parent == (match old(target)@.element.parent {
            Some(parent) => Some(parent.node),
            None => None,
        }),
        old(candidate)@.element.data is Some,
        old(candidate)@.element.data->0.styles is Some,
    ensures
        call_requires(
            StyleSharingCandidateCache::test_candidate::<S>,
            (target, candidate, &shared, &bloom, selector_flags_map),
        ),
{
}

/// The classes and hints of any element can be asked for, and its match results if the
/// filter is set up for its parent where that is said to be known.
pub proof fn law_anything_can_be_asked_for<S: StyleSystem>(
    data: &mut ValidationData,
    element: Element,
    system: S,
    bloom: StyleBloom,
    bloom_known_valid: bool,
    flags_set: &mut Vec<FlaggedElement>,
    first: Option<Atom>,
    second: Option<Atom>,
)
    requires
        bloom_known_valid ==> bloom.current_parent == (match element.parent {
            Some(parent) => Some(parent.node),
            None => None,
        }),
    ensures
        call_requires(ValidationData::class_list, (data, &element)),
        call_requires(ValidationData::pres_hints, (data, &element)),
        call_requires(
            ValidationData::revalidation_match_results::<S>,
            (data, &element, &system, &bloom, bloom_known_valid, flags_set),
        ),
        call_requires(checks::may_have_rules_for_ids::<S>, (&system, first, second)),
{
}

} // verus!
