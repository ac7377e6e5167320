//! Different checks done during the style sharing process in order to determine
//! quickly whether it's worth to share style, and whether two different elements
//! can indeed share the same style.

use crate::atom::Atom;
use crate::bits::{bits_of, same_bits};
use crate::bloom::StyleBloom;
use crate::candidate::StyleSharingCandidate;
use crate::context::{flags_applied, SelectorFlagsMap};
use crate::dom::{Element, ParentElement};
use crate::outcome::{flags_after_matching, ids_answered, matches_answered, Answers};
use crate::relations::{StyleRelations, AFFECTED_BY_PSEUDO_ELEMENTS};
use crate::stylist::{ApplicableDeclarationBlock, RevalidationMatch, StyleSystem};
use crate::target::StyleSharingTarget;
use crate::validation::matched;
use vstd::prelude::*;

verus! {

/// Whether it's worth to insert an element in the cache, going by the results of
/// selector matching. Elements that have pseudo-element styles are not.
pub open spec fn shareable(relations: StyleRelations) -> bool {
    !relations.meets(AFFECTED_BY_PSEUDO_ELEMENTS)
}

/// Determines, based on the results of selector matching, whether it's worth to
/// try to insert the element in the cache.
pub fn relations_are_shareable(relations: &StyleRelations) -> (answer: bool)
    ensures
        answer == shareable(*relations),
{
    !relations.intersects(AFFECTED_BY_PSEUDO_ELEMENTS)
}

/// Whether the two are one and the same element, or there is none either way.
pub fn same_element(first: Option<ParentElement>, second: Option<ParentElement>) -> (answer: bool)
    ensures
        answer == match (first, second) {
            (Some(first), Some(second)) => first.node == second.node,
            (None, None) => true,
            _ => false,
        },
{
    match (first, second) {
        (Some(first), Some(second)) => first.node == second.node,
        (None, None) => true,
        _ => false,
    }
}

/// Whether there are two elements, and they have one and the same computed values.
///
/// This is used to know whether we can share style across cousins.
pub fn same_computed_values(
    first: Option<ParentElement>,
    second: Option<ParentElement>,
) -> (answer: bool)
    ensures
        answer == match (first, second) {
            (Some(first), Some(second)) => first.computed_values == second.computed_values,
            _ => false,
        },
{
    match (first, second) {
        (Some(first), Some(second)) => first.computed_values == second.computed_values,
        _ => false,
    }
}

/// Whether two elements are in the same state, visitedness aside.
pub fn have_same_state_ignoring_visitedness(element: &Element, candidate: &Element) -> (answer:
    bool)
    ensures
        answer == (element.state.other == candidate.state.other),
{
    element.state.other == candidate.state.other
}

/// Whether two elements have the same `id` attribute.
pub fn have_same_id(element: &Element, candidate: &Element) -> (answer: bool)
    ensures
        answer == (element.id == candidate.id),
{
    match (element.id, candidate.id) {
        (Some(first), Some(second)) => first == second,
        (None, None) => true,
        _ => false,
    }
}

/// Whether two elements have the same style attribute.
pub fn have_same_style_attribute(element: &Element, candidate: &Element) -> (answer: bool)
    ensures
        answer == (element.style_attribute == candidate.style_attribute),
{
    match (element.style_attribute, candidate.style_attribute) {
        (Some(first), Some(second)) => first == second,
        (None, None) => true,
        _ => false,
    }
}

/// Checks whether we might have rules for either of the two ids.
pub fn may_have_rules_for_ids<S: StyleSystem>(
    system: &S,
    element_id: Option<Atom>,
    candidate_id: Option<Atom>,
) -> (answer: bool)
    ensures
        ids_answered(*system, element_id, candidate_id, answer),
{
    if let Some(id) = element_id {
        if system.may_have_rules_for_id(&id) {
            return true;
        }
    }
    if let Some(id) = candidate_id {
        return system.may_have_rules_for_id(&id);
    }
    false
}

/// Whether two lists hold the same atoms in the same order.
fn same_atoms(left: &[Atom], right: &[Atom]) -> (same: bool)
    ensures
        same == (left@ == right@),
{
    if left.len() != right.len() {
        return false;
    }
    let mut i: usize = 0;
    while i < left.len()
        invariant
            i <= left@.len(),
            left@.len() == right@.len(),
            left@.take(i as int) == right@.take(i as int),
        decreases left@.len() - i,
    {
        if left[i] != right[i] {
            return false;
        }
        i += 1;
    }
    assert(left@.take(i as int) == left@);
    assert(right@.take(i as int) == right@);
    true
}

/// Whether two lists hold the same blocks in the same order.
fn same_blocks(
    left: &[ApplicableDeclarationBlock],
    right: &[ApplicableDeclarationBlock],
) -> (same: bool)
    ensures
        same == (left@ == right@),
{
    if left.len() != right.len() {
        return false;
    }
    let mut i: usize = 0;
    while i < left.len()
        invariant
            i <= left@.len(),
            left@.len() == right@.len(),
            left@.take(i as int) == right@.take(i as int),
        decreases left@.len() - i,
    {
        if left[i] != right[i] {
            return false;
        }
        i += 1;
    }
    assert(left@.take(i as int) == left@);
    assert(right@.take(i as int) == right@);
    true
}

/// Whether a given element has the same class attribute than a given candidate.
///
/// We don't try to share style across elements with different class attributes.
pub fn have_same_class(
    target: &mut StyleSharingTarget,
    candidate: &mut StyleSharingCandidate,
) -> (same: bool)
    ensures
        same == (old(target)@.validation.classes(old(target)@.element) == old(
            candidate,
        )@.validation.classes(old(candidate)@.element)),
        final(target)@.element == old(target)@.element,
        final(target)@.validation == old(target)@.validation.with_classes(old(target)@.element),
        final(candidate)@.element == old(candidate)@.element,
        final(candidate)@.validation == old(candidate)@.validation.with_classes(
            old(candidate)@.element,
        ),
{
    same_atoms(target.class_list(), candidate.class_list())
}

/// Whether two elements have the same presentational attributes.
pub fn have_same_presentational_hints(
    target: &mut StyleSharingTarget,
    candidate: &mut StyleSharingCandidate,
) -> (same: bool)
    ensures
        same == (old(target)@.validation.hints(old(target)@.element) == old(
            candidate,
        )@.validation.hints(old(candidate)@.element)),
        final(target)@.element == old(target)@.element,
        final(target)@.validation == old(target)@.validation.with_hints(old(target)@.element),
        final(candidate)@.element == old(candidate)@.element,
        final(candidate)@.validation == old(candidate)@.validation.with_hints(
            old(candidate)@.element,
        ),
{
    same_blocks(target.pres_hints(), candidate.pres_hints())
}

/// Whether a given element and a candidate match the same set of "revalidation"
/// selectors.
pub fn revalidate<S: StyleSystem>(
    target: &mut StyleSharingTarget,
    candidate: &mut StyleSharingCandidate,
    system: &S,
    bloom: &StyleBloom,
    selector_flags_map: &mut SelectorFlagsMap,
) -> (same: bool)
    requires
        old(target)@.validation.revalidation is None ==> bloom.current_parent == old(
            target,
        )@.element.parent_node(),
    ensures
        exists|answers: Answers| #[trigger]
            matches_answered(*system, *bloom, old(target)@, old(candidate)@, answers) && {
                let target_after = old(target)@.validation.with_results(answers.target_match);
                let candidate_after = old(candidate)@.validation.with_results(
                    answers.candidate_match,
                );
                &&& same == (target_after.revalidation == candidate_after.revalidation)
                &&& final(target)@.element == old(target)@.element
                &&& final(target)@.validation == target_after
                &&& final(candidate)@.element == old(candidate)@.element
                &&& final(candidate)@.validation == candidate_after
                &&& final(selector_flags_map).applied@ == flags_after_matching(
                    old(target)@,
                    old(selector_flags_map).applied@,
                    answers,
                )
            },
{
    let for_element = target.revalidation_match_results(system, bloom, selector_flags_map);
    let for_candidate = candidate.revalidation_match_results(system, bloom);
    let same = same_bits(for_element, for_candidate);
    proof {
        let before_target = old(target)@;
        let before_candidate = old(candidate)@;
        let target_match = choose|found: RevalidationMatch|
            before_target.validation.revalidation is None ==> #[trigger] matched(
                *system,
                *bloom,
                before_target.element,
                found,
            ) && {
                &&& target@.validation == before_target.validation.with_results(found)
                &&& bits_of(*for_element) == bits_of(found.results)
                &&& selector_flags_map.applied@ == old(selector_flags_map).applied@ + flags_applied(
                    before_target.element.node,
                    found.flags@,
                )
            };
        let candidate_match = choose|found: RevalidationMatch|
            before_candidate.validation.revalidation is None ==> #[trigger] matched(
                *system,
                *bloom,
                before_candidate.element,
                found,
            ) && {
                &&& candidate@.validation == before_candidate.validation.with_results(found)
                &&& bits_of(*for_candidate) == bits_of(found.results)
            };
        let answers = Answers { rules_for_ids: false, target_match, candidate_match };
        assert(matches_answered(*system, *bloom, before_target, before_candidate, answers));
    }
    same
}

} // verus!
