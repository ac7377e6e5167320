//! What holds of style sharing as a whole.

use crate::atom::Atom;
use crate::bits::bits_of;
use crate::bloom::StyleBloom;
use crate::cache::{inserted, law_use_reorders_only, touched};
use crate::class_order::law_order_of_atoms_is_immaterial;
use crate::context::{flags_applied, AppliedFlags, SharedStyleContext};
use crate::data::{ComputedStyle, ElementData};
use crate::dom::{Element, ParentElement, VisitedHandlingMode};
use crate::inline_list::INLINE_ITEMS;
use crate::outcome::{
    alike, answered, cacheable, could_share, id_answered, ids_answered, inherit_alike,
    miss_before_classes, tested, Answers, SharingFacts, StyleSharingResult,
};
use crate::properties::ComputedValues;
use crate::relations::{StyleRelations, AFFECTED_BY_PRESENTATIONAL_HINTS};
use crate::sharing::{
    fit_to_share, insertable, known_on_insertion, offered, STYLE_SHARING_CANDIDATE_CACHE_SIZE,
};
use crate::stylist::{ChildCascadeRequirement, FlaggedElement, RevalidationMatch, StyleSystem};
use crate::validation::{class_order, match_found, matched, revalidated, ValidationFacts};
use crate::walk::{attempted, goes_on, searched, taken_over, Search, SearchEnd};
use selectors::bloom::BloomFilter;
use vstd::prelude::*;

verus! {

/// Elements that have the same few classes are not told apart by the order in
/// which they have them, as long as different classes have different hashes.
pub proof fn law_order_of_classes_is_immaterial(left: Seq<Atom>, right: Seq<Atom>)
    requires
        left.len() <= INLINE_ITEMS,
        left.to_multiset() == right.to_multiset(),
        forall|a: Atom, b: Atom|
            left.contains(a) && left.contains(b) && a.hash == b.hash ==> a == b,
    ensures
        class_order(left) == class_order(right),
{
    broadcast use vstd::seq_lib::group_to_multiset_ensures;

    assert(left.to_multiset().len() == left.len());
    assert(right.to_multiset().len() == right.len());
    law_order_of_atoms_is_immaterial(left, right);
}

/// What is worked out once stays as it is, and working it out changes none of what
/// an element is compared by.
pub proof fn law_known_facts_stay(facts: ValidationFacts, element: Element)
    ensures
        facts.with_classes(element).classes(element) == facts.classes(element),
        facts.with_classes(element).hints(element) == facts.hints(element),
        facts.with_classes(element).with_classes(element) == facts.with_classes(element),
        facts.with_hints(element).classes(element) == facts.classes(element),
        facts.with_hints(element).hints(element) == facts.hints(element),
        facts.with_hints(element).with_hints(element) == facts.with_hints(element),
{
}

/// An element shares the style of a cached one exactly when the two inherit the
/// same styles, neither is native anonymous content, and they have the same name,
/// kind and state, the same id or ids without rules, the same style attribute,
/// classes and presentational hints, and match the same revalidation selectors. The
/// style is then that of the cached element.
pub proof fn law_shared_means_alike(
    target: SharingFacts,
    candidate: SharingFacts,
    flags: Seq<AppliedFlags>,
    answers: Answers,
)
    ensures
        ({
            let t = target.element;
            let c = candidate.element;
            let result = tested(target, candidate, flags, answers).result;
            &&& result is Ok <==> {
                &&& inherit_alike(t.parent, c.parent)
                &&& !t.native_anonymous
                &&& !c.native_anonymous
                &&& t.local_name == c.local_name
                &&& t.namespace == c.namespace
                &&& t.link == c.link
                &&& t.user_and_author_rules == c.user_and_author_rules
                &&& t.state.other == c.state.other
                &&& t.id == c.id || !answers.rules_for_ids
                &&& t.style_attribute == c.style_attribute
                &&& target.validation.classes(t) == candidate.validation.classes(c)
                &&& target.validation.hints(t) == candidate.validation.hints(c)
                &&& target.validation.results(answers.target_match)
                    == candidate.validation.results(answers.candidate_match)
            }
            &&& result matches Ok(style) ==> style == c.primary_style()
        }),
{
}

/// Holding an element against a cached one changes neither of them, nor what they
/// are compared by, and forgets nothing that was known. Selector flags are added
/// only for the element, and only when it is matched for the first time.
pub proof fn law_testing_only_adds_knowledge(
    target: SharingFacts,
    candidate: SharingFacts,
    flags: Seq<AppliedFlags>,
    answers: Answers,
)
    ensures
        ({
            let done = tested(target, candidate, flags, answers);
            &&& done.target.element == target.element
            &&& done.candidate.element == candidate.element
            &&& only_more_known(target, done.target)
            &&& only_more_known(candidate, done.candidate)
            &&& done.flags == flags || target.validation.revalidation is None && done.flags
                == flags + flags_applied(target.element.node, answers.target_match.flags@)
        }),
{
}

/// Whether `after` is the same element as `before`, compared by the same, with
/// nothing forgotten.
pub open spec fn only_more_known(before: SharingFacts, after: SharingFacts) -> bool {
    let element = before.element;
    &&& after.element == element
    &&& after.validation.classes(element) == before.validation.classes(element)
    &&& after.validation.hints(element) == before.validation.hints(element)
    &&& before.validation.class_list is Some ==> after.validation.class_list
        == before.validation.class_list
    &&& before.validation.pres_hints is Some ==> after.validation.pres_hints
        == before.validation.pres_hints
    &&& before.validation.revalidation is Some ==> after.validation.revalidation
        == before.validation.revalidation
}

/// Whether an expensive check was done that changed what is known of an element.
pub open spec fn examined(before: SharingFacts, after: SharingFacts) -> bool {
    ||| after.validation.pres_hints != before.validation.pres_hints
    ||| after.validation.revalidation != before.validation.revalidation
}

/// How a search leaves the cache, from `index` on.
proof fn lemma_search(search: Search, index: int, answers: Seq<Answers>)
    requires
        0 <= index <= search.candidates.len(),
    ensures
        ({
            let (end, how) = search.end(index, answers);
            &&& end.candidates.len() == search.candidates.len()
            &&& only_more_known(search.target, end.target)
            &&& forall|i: int|
                0 <= i < search.candidates.len() ==> only_more_known(
                    search.candidates[i],
                    #[trigger] end.candidates[i],
                )
            &&& forall|i: int|
                0 <= i < index ==> search.candidates[i] == #[trigger] end.candidates[i]
            &&& how matches SearchEnd::Shared { index: at, style } ==> {
                &&& index <= at < search.candidates.len()
                &&& style == search.candidates[at].element.primary_style()
                &&& forall|i: int|
                    at < i < search.candidates.len() ==> search.candidates[i]
                        == #[trigger] end.candidates[i]
                &&& forall|i: int|
                    0 <= i < at ==> !examined(search.candidates[i], #[trigger] end.candidates[i])
            }
            &&& forall|i: int, j: int|
                0 <= i < j < search.candidates.len() && examined(
                    search.candidates[i],
                    #[trigger] end.candidates[i],
                ) ==> search.candidates[j] == #[trigger] end.candidates[j]
            &&& how matches SearchEnd::Missed { clear: true } ==> exists|at: int|
                index <= at < search.candidates.len() && !inherit_alike(
                    search.target.element.parent,
                    (#[trigger] search.candidates[at]).element.parent,
                )
        }),
    decreases search.candidates.len() - index,
{
    if index < search.candidates.len() {
        let answer = answers[index];
        let next = search.after(index, answer);
        let done = search.test(index, answer);
        law_testing_only_adds_knowledge(
            search.target,
            search.candidates[index],
            search.flags,
            answer,
        );
        assert(next.candidates[index] == done.candidate);
        match done.result {
            Err(miss) => if goes_on(miss) {
                lemma_search(next, index + 1, answers);
                let (end, how) = next.end(index + 1, answers);
                assert(end.candidates[index] == next.candidates[index]);
                assert(!examined(search.candidates[index], end.candidates[index]));
                if how matches SearchEnd::Missed { clear: true } {
                    let at = choose|at: int|
                        index + 1 <= at < next.candidates.len() && !inherit_alike(
                            next.target.element.parent,
                            (#[trigger] next.candidates[at]).element.parent,
                        );
                    assert(search.candidates[at] == next.candidates[at]);
                }
            },
            Ok(style) => {},
        }
    }
}

/// Whether none of the cheap checks tells the two apart: all those that come before
/// the presentational hints.
pub open spec fn passes_cheap_checks(
    target: SharingFacts,
    candidate: SharingFacts,
    rules_for_ids: bool,
) -> bool {
    &&& miss_before_classes(target.element, candidate.element, rules_for_ids) is None
    &&& target.validation.classes(target.element) == candidate.validation.classes(candidate.element)
}

proof fn lemma_first_promising(search: Search, index: int, at: int, answers: Seq<Answers>)
    requires
        0 <= index <= at < search.candidates.len(),
        forall|i: int|
            index <= i < at ==> inherit_alike(
                search.target.element.parent,
                (#[trigger] search.candidates[i]).element.parent,
            ) && !passes_cheap_checks(
                search.target,
                search.candidates[i],
                answers[i].rules_for_ids,
            ),
        passes_cheap_checks(search.target, search.candidates[at], answers[at].rules_for_ids),
    ensures
        search.end(index, answers).1 == decision(
            search.target,
            search.candidates[at],
            at,
            answers[at],
        ),
    decreases at - index,
{
    if index < at {
        let next = search.after(index, answers[index]);
        law_testing_only_adds_knowledge(
            search.target,
            search.candidates[index],
            search.flags,
            answers[index],
        );
        assert forall|i: int| index + 1 <= i < at implies inherit_alike(
            next.target.element.parent,
            (#[trigger] next.candidates[i]).element.parent,
        ) && !passes_cheap_checks(next.target, next.candidates[i], answers[i].rules_for_ids) by {
            assert(next.candidates[i] == search.candidates[i]);
        }
        assert(next.candidates[at] == search.candidates[at]);
        lemma_first_promising(next, index + 1, at, answers);
    }
}

/// How a search ends at the cached element at `at` when that passes the cheap
/// checks.
pub open spec fn decision(
    target: SharingFacts,
    candidate: SharingFacts,
    at: int,
    answers: Answers,
) -> SearchEnd {
    if target.validation.hints(target.element) == candidate.validation.hints(candidate.element)
        && target.validation.results(answers.target_match) == candidate.validation.results(
        answers.candidate_match,
    ) {
        SearchEnd::Shared { index: at, style: candidate.element.primary_style() }
    } else {
        SearchEnd::Missed { clear: false }
    }
}

/// The first cached element that passes the cheap checks decides, as long as those
/// before it inherit alike: its style is shared if it has the same presentational
/// hints and matches the revalidation selectors alike, and else none is.
pub proof fn law_first_promising_candidate_decides(search: Search, at: int, answers: Seq<Answers>)
    requires
        0 <= at < search.candidates.len(),
        forall|i: int|
            0 <= i < at ==> inherit_alike(
                search.target.element.parent,
                (#[trigger] search.candidates[i]).element.parent,
            ) && !passes_cheap_checks(
                search.target,
                search.candidates[i],
                answers[i].rules_for_ids,
            ),
        passes_cheap_checks(search.target, search.candidates[at], answers[at].rules_for_ids),
    ensures
        search.end(0, answers).1 == decision(
            search.target,
            search.candidates[at],
            at,
            answers[at],
        ),
{
    lemma_first_promising(search, 0, at, answers);
}

/// A search comes to nothing when no cached element passes the cheap checks. The
/// cache is of no use any more as soon as one of them does not inherit alike.
pub proof fn law_no_promising_candidate_means_no_sharing(search: Search, answers: Seq<Answers>)
    requires
        forall|i: int|
            0 <= i < search.candidates.len() ==> !passes_cheap_checks(
                search.target,
                #[trigger] search.candidates[i],
                answers[i].rules_for_ids,
            ),
    ensures
        search.end(0, answers).1 == (SearchEnd::Missed {
            clear: exists|i: int|
                0 <= i < search.candidates.len() && !inherit_alike(
                    search.target.element.parent,
                    (#[trigger] search.candidates[i]).element.parent,
                ),
        }),
{
    lemma_no_promising(search, 0, answers);
}

proof fn lemma_no_promising(search: Search, index: int, answers: Seq<Answers>)
    requires
        0 <= index <= search.candidates.len(),
        forall|i: int|
            index <= i < search.candidates.len() ==> !passes_cheap_checks(
                search.target,
                #[trigger] search.candidates[i],
                answers[i].rules_for_ids,
            ),
    ensures
        search.end(index, answers).1 == (SearchEnd::Missed {
            clear: exists|i: int|
                index <= i < search.candidates.len() && !inherit_alike(
                    search.target.element.parent,
                    (#[trigger] search.candidates[i]).element.parent,
                ),
        }),
    decreases search.candidates.len() - index,
{
    if index < search.candidates.len() {
        let next = search.after(index, answers[index]);
        law_testing_only_adds_knowledge(
            search.target,
            search.candidates[index],
            search.flags,
            answers[index],
        );
        let parent = search.target.element.parent;
        if inherit_alike(parent, search.candidates[index].element.parent) {
            assert forall|i: int| index + 1 <= i < next.candidates.len() implies
                !passes_cheap_checks(
                next.target,
                #[trigger] next.candidates[i],
                answers[i].rules_for_ids,
            ) by {
                assert(next.candidates[i] == search.candidates[i]);
            }
            lemma_no_promising(next, index + 1, answers);
            assert forall|i: int| index + 1 <= i < search.candidates.len() implies #[trigger]
                search.candidates[i] == next.candidates[i] by {}
            if search.end(index, answers).1->clear {
                let i = choose|i: int|
                    index + 1 <= i < next.candidates.len() && !inherit_alike(
                        parent,
                        (#[trigger] next.candidates[i]).element.parent,
                    );
                assert(search.candidates[i] == next.candidates[i]);
            }
        }
    }
}

/// Which selector flags a search adds, from `index` on.
proof fn lemma_search_flags<S: StyleSystem>(
    system: S,
    bloom: StyleBloom,
    search: Search,
    index: int,
    answers: Seq<Answers>,
)
    requires
        0 <= index <= search.candidates.len(),
        search.answered(system, bloom, index, answers),
    ensures
        flags_of_one_match(system, bloom, search, search.end(index, answers).0.flags),
    decreases search.candidates.len() - index,
{
    if index < search.candidates.len() {
        let answer = answers[index];
        let done = search.test(index, answer);
        if done.result matches Err(miss) && goes_on(miss) {
            lemma_search_flags(system, bloom, search.after(index, answer), index + 1, answers);
        } else if done.flags != search.flags {
            assert(matched(system, bloom, search.target.element, answer.target_match));
        }
    }
}

/// Whether `flags` are those that waited when `search` began, with those that one
/// match of the element asked for added if its match results were not known.
pub open spec fn flags_of_one_match<S: StyleSystem>(
    system: S,
    bloom: StyleBloom,
    search: Search,
    flags: Seq<AppliedFlags>,
) -> bool {
    ||| flags == search.flags
    ||| {
        &&& search.target.validation.revalidation is None
        &&& exists|found: RevalidationMatch| #[trigger]
            matched(system, bloom, search.target.element, found) && flags == search.flags
                + flags_applied(search.target.element.node, found.flags@)
    }
}

/// A style that is shared is that of a cached element, which stays in the cache at
/// the place that is given, and the element has no pseudo-element styles then.
/// Where no style is shared the data of the element stay as they are.
pub proof fn law_shared_style_comes_from_the_cache<S: StyleSystem>(
    shared: SharedStyleContext<S>,
    bloom: StyleBloom,
    before: Search,
    data_before: ElementData,
    after: Search,
    data_after: ElementData,
    result: StyleSharingResult,
)
    requires
        attempted(shared, bloom, before, data_before, after, data_after, result),
    ensures
        match result {
            StyleSharingResult::StyleWasShared(index, requirement) => {
                &&& index < before.candidates.len() == after.candidates.len()
                &&& after.candidates[index as int].element == before.candidates[index as int].element
                &&& data_after.styles is Some
                &&& data_after.styles->0.primary
                    == before.candidates[index as int].element.primary_style()
                &&& data_after.styles->0.pseudos@ == Seq::<ComputedStyle>::empty()
                &&& data_after.has_restyle() == data_before.has_restyle()
            },
            StyleSharingResult::CannotShare => data_after == data_before,
        },
{
    if result is StyleWasShared {
        let answers = choose|answers: Seq<Answers>| #[trigger]
            searched(
                shared.system,
                bloom,
                before,
                data_before,
                answers,
                after,
                data_after,
                result,
            );
        lemma_search(before, 0, answers);
    }
}

/// An attempt to share leaves every cached element where it is, or clears the whole
/// cache. What was known of the elements stays known. The cache is cleared only
/// when a cached element and the one that looks for a style do not inherit alike.
pub proof fn law_attempt_keeps_or_clears_the_cache<S: StyleSystem>(
    shared: SharedStyleContext<S>,
    bloom: StyleBloom,
    before: Search,
    data_before: ElementData,
    after: Search,
    data_after: ElementData,
    result: StyleSharingResult,
)
    requires
        attempted(shared, bloom, before, data_before, after, data_after, result),
    ensures
        only_more_known(before.target, after.target),
        ({
            ||| {
                &&& after.candidates.len() == before.candidates.len()
                &&& forall|i: int|
                    0 <= i < before.candidates.len() ==> only_more_known(
                        before.candidates[i],
                        #[trigger] after.candidates[i],
                    )
            }
            ||| {
                &&& result is CannotShare
                &&& after.candidates.len() == 0
                &&& exists|i: int|
                    0 <= i < before.candidates.len() && !inherit_alike(
                        before.target.element.parent,
                        (#[trigger] before.candidates[i]).element.parent,
                    )
            }
        }),
{
    if !shared.options.disable_style_sharing_cache && cacheable(before.target.element) {
        let answers = choose|answers: Seq<Answers>| #[trigger]
            searched(
                shared.system,
                bloom,
                before,
                data_before,
                answers,
                after,
                data_after,
                result,
            );
        lemma_search(before, 0, answers);
    }
}

/// The expensive checks are done for one cached element at most in the course of
/// an attempt to share.
pub proof fn law_expensive_checks_are_done_once<S: StyleSystem>(
    shared: SharedStyleContext<S>,
    bloom: StyleBloom,
    before: Search,
    data_before: ElementData,
    after: Search,
    data_after: ElementData,
    result: StyleSharingResult,
    i: int,
    j: int,
)
    requires
        attempted(shared, bloom, before, data_before, after, data_after, result),
        0 <= i < after.candidates.len(),
        0 <= j < after.candidates.len(),
        examined(before.candidates[i], after.candidates[i]),
        examined(before.candidates[j], after.candidates[j]),
    ensures
        i == j,
{
    let answers = choose|answers: Seq<Answers>| #[trigger]
        searched(shared.system, bloom, before, data_before, answers, after, data_after, result);
    lemma_search(before, 0, answers);
}

/// An attempt to share adds the selector flags of one match of the element at most,
/// and none where its match results were known.
pub proof fn law_selector_flags_come_from_the_target<S: StyleSystem>(
    shared: SharedStyleContext<S>,
    bloom: StyleBloom,
    before: Search,
    data_before: ElementData,
    after: Search,
    data_after: ElementData,
    result: StyleSharingResult,
)
    requires
        attempted(shared, bloom, before, data_before, after, data_after, result),
    ensures
        flags_of_one_match(shared.system, bloom, before, after.flags),
{
    if !shared.options.disable_style_sharing_cache && cacheable(before.target.element) {
        let answers = choose|answers: Seq<Answers>| #[trigger]
            searched(
                shared.system,
                bloom,
                before,
                data_before,
                answers,
                after,
                data_after,
                result,
            );
        lemma_search_flags(shared.system, bloom, before, 0, answers);
    }
}

/// Parents that share style let their children share: the children of an element
/// that has taken over the style of a cached one inherit alike with the children of
/// the cached one.
pub proof fn law_cousins_of_shared_parents_inherit_alike<S: StyleSystem>(
    system: S,
    parent: SharingFacts,
    candidate: SharingFacts,
    flags: Seq<AppliedFlags>,
    answers: Answers,
    before: ElementData,
    after: ElementData,
    requirement: ChildCascadeRequirement,
)
    requires
        tested(parent, candidate, flags, answers).result is Ok,
        candidate.element.is_styled(),
        taken_over(
            system,
            parent.element,
            before,
            tested(parent, candidate, flags, answers).result->Ok_0,
            after,
            requirement,
        ),
    ensures
        after.primary_values() is Some,
        inherit_alike(
            Some(
                ParentElement {
                    node: parent.element.node,
                    computed_values: after.primary_values()->0.identity,
                },
            ),
            Some(
                ParentElement {
                    node: candidate.element.node,
                    computed_values: candidate.element.data->0.primary_values()->0.identity,
                },
            ),
        ),
{
}

/// Whether two elements are alike in everything that sharing compares.
pub open spec fn twins(left: Element, right: Element) -> bool {
    &&& inherit_alike(left.parent, right.parent)
    &&& left.native_anonymous == right.native_anonymous
    &&& left.local_name == right.local_name
    &&& left.namespace == right.namespace
    &&& left.link == right.link
    &&& left.user_and_author_rules == right.user_and_author_rules
    &&& left.state.other == right.state.other
    &&& left.id == right.id
    &&& left.style_attribute == right.style_attribute
    &&& left.classes@ == right.classes@
    &&& left.unvisited_hints@ == right.unvisited_hints@
}

/// Whether what is known of `element` is what it has.
pub open spec fn describes(facts: ValidationFacts, element: Element) -> bool {
    &&& facts.classes(element) == class_order(element.classes@)
    &&& facts.hints(element) == element.hints(VisitedHandlingMode::AllLinksUnvisited)
}

/// What is found out about an element while it looks for a style is what it has, as
/// long as nothing else was known before. So it is at the start, when nothing is
/// known at all.
pub proof fn law_what_is_found_out_is_so<S: StyleSystem>(
    shared: SharedStyleContext<S>,
    bloom: StyleBloom,
    before: Search,
    data_before: ElementData,
    after: Search,
    data_after: ElementData,
    result: StyleSharingResult,
)
    requires
        attempted(shared, bloom, before, data_before, after, data_after, result),
        describes(before.target.validation, before.target.element),
    ensures
        describes(after.target.validation, before.target.element),
        describes(ValidationFacts::unknown(), before.target.element),
{
    law_attempt_keeps_or_clears_the_cache(
        shared,
        bloom,
        before,
        data_before,
        after,
        data_after,
        result,
    );
}

/// Whether `results` may be the match results of an element: those that are known,
/// or some that `system` finds.
pub open spec fn may_match<S: StyleSystem>(
    system: S,
    bloom: StyleBloom,
    facts: SharingFacts,
    results: Seq<bool>,
) -> bool {
    match facts.validation.revalidation {
        Some(known) => results == known,
        None => exists|found: RevalidationMatch| #[trigger]
            matched(system, bloom, facts.element, found) && results == bits_of(found.results),
    }
}

/// Whether two elements cannot but match the revalidation selectors alike.
pub open spec fn match_alike<S: StyleSystem>(
    system: S,
    bloom: StyleBloom,
    left: SharingFacts,
    right: SharingFacts,
) -> bool {
    forall|a: Seq<bool>, b: Seq<bool>| #[trigger]
        may_match(system, bloom, left, a) && #[trigger] may_match(system, bloom, right, b) ==> a
            == b
}

/// An attempt shares the style of the first cached element if that is alike in
/// everything and matches the revalidation selectors alike.
proof fn lemma_first_is_shared<S: StyleSystem>(
    shared: SharedStyleContext<S>,
    bloom: StyleBloom,
    before: Search,
    data_before: ElementData,
    after: Search,
    data_after: ElementData,
    result: StyleSharingResult,
)
    requires
        attempted(shared, bloom, before, data_before, after, data_after, result),
        !shared.options.disable_style_sharing_cache,
        cacheable(before.target.element),
        before.candidates.len() > 0,
        ({
            let t = before.target;
            let c = before.candidates[0];
            &&& could_share(t, c)
            &&& t.element.id == c.element.id || forall|answer: bool| #[trigger]
                ids_answered(shared.system, t.element.id, c.element.id, answer) ==> !answer
            &&& match_alike(shared.system, bloom, t, c)
        }),
    ensures
        result matches StyleSharingResult::StyleWasShared(index, _) && index == 0,
        data_after.styles is Some,
        data_after.styles->0.primary == before.candidates[0].element.primary_style(),
{
    let t = before.target;
    let c = before.candidates[0];
    let answers = choose|answers: Seq<Answers>| #[trigger]
        searched(shared.system, bloom, before, data_before, answers, after, data_after, result);
    let answer = answers[0];
    assert(answered(shared.system, bloom, t, c, answer));
    assert(alike(t, c, answer.rules_for_ids));
    assert(may_match(shared.system, bloom, t, t.validation.results(answer.target_match)));
    assert(may_match(shared.system, bloom, c, c.validation.results(answer.candidate_match)));
    law_shared_means_alike(t, c, before.flags, answer);
}

/// An element that has just been inserted is found by its like: another element that
/// is alike in everything shares its style at once, provided that the two match the
/// revalidation selectors alike. That holds whatever part of what the two have is
/// known already.
pub proof fn law_inserted_element_is_found<S: StyleSystem>(
    shared: SharedStyleContext<S>,
    bloom: StyleBloom,
    entries: Seq<SharingFacts>,
    element: Element,
    style: ComputedValues,
    relations: StyleRelations,
    validation: ValidationFacts,
    before: Search,
    data_before: ElementData,
    after: Search,
    data_after: ElementData,
    result: StyleSharingResult,
)
    requires
        !shared.options.disable_style_sharing_cache,
        insertable(element, style, relations),
        describes(validation, element),
        !relations.meets(AFFECTED_BY_PRESENTATIONAL_HINTS) ==> element.hints(
            VisitedHandlingMode::AllLinksUnvisited,
        ).len() == 0,
        before.candidates == offered(entries, element, style, relations, validation),
        twins(before.target.element, element),
        describes(before.target.validation, before.target.element),
        match_alike(
            shared.system,
            bloom,
            before.target,
            SharingFacts { element, validation: known_on_insertion(relations, validation) },
        ),
        attempted(shared, bloom, before, data_before, after, data_after, result),
    ensures
        result matches StyleSharingResult::StyleWasShared(index, _) && index == 0,
        data_after.styles is Some,
        data_after.styles->0.primary == element.primary_style(),
{
    let entry = SharingFacts { element, validation: known_on_insertion(relations, validation) };
    assert(before.candidates[0] == entry);
    assert(entry.validation.hints(element) == before.target.validation.hints(
        before.target.element,
    ));
    lemma_first_is_shared(shared, bloom, before, data_before, after, data_after, result);
}

/// Whether `system`, asked the same thing twice, gives the same answer.
pub open spec fn answers_alike<S: StyleSystem>(system: S) -> bool {
    &&& forall|id: Atom, a: bool, b: bool| #[trigger]
        id_answered(system, id, a) && #[trigger] id_answered(system, id, b) ==> a == b
    &&& forall|
        element: Element,
        filter: Option<&BloomFilter>,
        a: RevalidationMatch,
        b: RevalidationMatch,
    | #[trigger]
        match_found(system, element, filter, a) && #[trigger] match_found(
            system,
            element,
            filter,
            b,
        ) ==> bits_of(a.results) == bits_of(b.results) && a.flags@ == b.flags@
}

/// Whether `target`, held against `candidate`, would be found to be alike again:
/// nothing tells them apart, there are no rules for their ids if these differ, and
/// the match results of `candidate` are known and are some that `target` may have.
spec fn hit<S: StyleSystem>(
    system: S,
    bloom: StyleBloom,
    target: SharingFacts,
    candidate: SharingFacts,
) -> bool {
    &&& could_share(target, candidate)
    &&& target.element.id == candidate.element.id || ids_answered(
        system,
        target.element.id,
        candidate.element.id,
        false,
    )
    &&& candidate.validation.revalidation matches Some(results)
    &&& may_match(system, bloom, target, results)
}

/// A search that ends with a style to share leaves a hit behind.
proof fn lemma_search_leaves_a_hit<S: StyleSystem>(
    system: S,
    bloom: StyleBloom,
    search: Search,
    index: int,
    answers: Seq<Answers>,
)
    requires
        0 <= index <= search.candidates.len(),
        search.answered(system, bloom, index, answers),
    ensures
        search.end(index, answers).1 matches SearchEnd::Shared { index: at, style } ==> hit(
            system,
            bloom,
            search.target,
            search.end(index, answers).0.candidates[at],
        ),
    decreases search.candidates.len() - index,
{
    if index < search.candidates.len() {
        let answer = answers[index];
        let done = search.test(index, answer);
        let next = search.after(index, answer);
        law_testing_only_adds_knowledge(
            search.target,
            search.candidates[index],
            search.flags,
            answer,
        );
        if done.result matches Err(miss) && goes_on(miss) {
            lemma_search_leaves_a_hit(system, bloom, next, index + 1, answers);
        } else if done.result is Ok {
            law_shared_means_alike(
                search.target,
                search.candidates[index],
                search.flags,
                answer,
            );
            assert(next.candidates[index] == done.candidate);
            assert(may_match(
                system,
                bloom,
                search.target,
                search.target.validation.results(answer.target_match),
            ));
        }
    }
}

/// A cached element whose style was shared, and which is then used, is the first to
/// share its style when the same element looks for one again, provided that the
/// style system answers as it did.
pub proof fn law_used_hit_comes_first<S: StyleSystem>(
    shared: SharedStyleContext<S>,
    bloom: StyleBloom,
    before: Search,
    data_before: ElementData,
    after: Search,
    data_after: ElementData,
    hit_at: usize,
    requirement: ChildCascadeRequirement,
    again: Search,
    data_again: ElementData,
    end: Search,
    data_end: ElementData,
    result: StyleSharingResult,
)
    requires
        answers_alike(shared.system),
        attempted(
            shared,
            bloom,
            before,
            data_before,
            after,
            data_after,
            StyleSharingResult::StyleWasShared(hit_at, requirement),
        ),
        again.target == before.target,
        again.candidates == touched(after.candidates, hit_at as int),
        attempted(shared, bloom, again, data_again, end, data_end, result),
    ensures
        result matches StyleSharingResult::StyleWasShared(index, _) && index == 0,
        data_after.styles is Some,
        data_end.styles is Some,
        data_end.styles->0.primary == data_after.styles->0.primary,
{
    let first = StyleSharingResult::StyleWasShared(hit_at, requirement);
    law_shared_style_comes_from_the_cache(
        shared,
        bloom,
        before,
        data_before,
        after,
        data_after,
        first,
    );
    let answers = choose|answers: Seq<Answers>| #[trigger]
        searched(shared.system, bloom, before, data_before, answers, after, data_after, first);
    lemma_search_leaves_a_hit(shared.system, bloom, before, 0, answers);
    law_use_reorders_only(after.candidates, hit_at as int);
    assert(hit(shared.system, bloom, again.target, again.candidates[0]));
    lemma_first_is_shared(shared, bloom, again, data_again, end, data_end, result);
}

/// Whether the filter is known to be set up for an element makes no difference to
/// what comes out of asking for its match results, where the filter is: the results,
/// what is known then and the flags are the same, provided that the style system
/// answers as it did.
pub proof fn law_known_filter_makes_no_difference<S: StyleSystem>(
    system: S,
    bloom: StyleBloom,
    element: Element,
    before: ValidationFacts,
    flags: Seq<FlaggedElement>,
    results_known: Seq<bool>,
    after_known: ValidationFacts,
    flags_known: Seq<FlaggedElement>,
    results_unknown: Seq<bool>,
    after_unknown: ValidationFacts,
    flags_unknown: Seq<FlaggedElement>,
)
    requires
        answers_alike(system),
        bloom.current_parent == element.parent_node(),
        revalidated(
            system,
            bloom,
            element,
            true,
            before,
            flags,
            results_known,
            after_known,
            flags_known,
        ),
        revalidated(
            system,
            bloom,
            element,
            false,
            before,
            flags,
            results_unknown,
            after_unknown,
            flags_unknown,
        ),
    ensures
        results_known == results_unknown,
        after_known == after_unknown,
        flags_known == flags_unknown,
{
}

/// An element that is inserted twice is in the cache twice: there is no check for
/// duplicates. The other entries move back by two, as far as there is room for them.
pub proof fn law_element_inserted_twice_is_there_twice(
    entries: Seq<SharingFacts>,
    element: Element,
    style: ComputedValues,
    relations: StyleRelations,
    validation: ValidationFacts,
)
    requires
        fit_to_share(entries),
        insertable(element, style, relations),
    ensures
        ({
            let once = offered(entries, element, style, relations, validation);
            let twice = offered(once, element, style, relations, validation);
            let entry = SharingFacts {
                element,
                validation: known_on_insertion(relations, validation),
            };
            let room = STYLE_SHARING_CANDIDATE_CACHE_SIZE - 2;
            &&& entries.len() <= room ==> twice.len() == entries.len() + 2
            &&& twice[0] == entry
            &&& twice[1] == entry
            &&& twice == seq![entry, entry] + if entries.len() <= room {
                entries
            } else {
                entries.take(room)
            }
        }),
{
}

/// Whether an attempt to share style may take the cached elements from `before` to
/// `after`.
pub open spec fn searched_through<S: StyleSystem>(
    before: Seq<SharingFacts>,
    after: Seq<SharingFacts>,
) -> bool {
    exists|
        shared: SharedStyleContext<S>,
        bloom: StyleBloom,
        start: Search,
        data_before: ElementData,
        end: Search,
        data_after: ElementData,
        result: StyleSharingResult,
    | #[trigger]
        attempted(shared, bloom, start, data_before, end, data_after, result) && start.candidates
            == before && end.candidates == after
}

/// Whether an element that is offered to the cache may take the cached elements from
/// `before` to `after`.
pub open spec fn added_to(before: Seq<SharingFacts>, after: Seq<SharingFacts>) -> bool {
    exists|
        element: Element,
        style: ComputedValues,
        relations: StyleRelations,
        validation: ValidationFacts,
    |
        after == #[trigger] offered(before, element, style, relations, validation)
}

/// Whether something that can be done with the cache may take the cached elements
/// from `before` to `after`: an element is offered, an entry is used, everything is
/// cleared, or an element looks for a style.
pub open spec fn may_become<S: StyleSystem>(
    before: Seq<SharingFacts>,
    after: Seq<SharingFacts>,
) -> bool {
    ||| added_to(before, after)
    ||| exists|index: int| 0 <= index < before.len() && after == #[trigger] touched(before, index)
    ||| after == Seq::<SharingFacts>::empty()
    ||| searched_through::<S>(before, after)
}

/// Whatever is done with the cache, it holds no more entries than there is room for,
/// and each of them has a parent and is no native anonymous content.
pub proof fn law_cache_stays_fit_to_share<S: StyleSystem>(
    before: Seq<SharingFacts>,
    after: Seq<SharingFacts>,
)
    requires
        fit_to_share(before),
        may_become::<S>(before, after),
    ensures
        fit_to_share(after),
{
    assert forall|i: int| 0 <= i < before.len() implies cacheable(
        (#[trigger] before[i]).element,
    ) by {}
    if added_to(before, after) {
        let (element, style, relations, validation) = choose|
            element: Element,
            style: ComputedValues,
            relations: StyleRelations,
            validation: ValidationFacts,
        |
            after == #[trigger] offered(before, element, style, relations, validation);
        assert forall|i: int| 0 <= i < after.len() implies cacheable(
            (#[trigger] after[i]).element,
        ) by {
            if insertable(element, style, relations) && i > 0 {
                assert(after[i] == before[i - 1]);
            }
        }
    } else if searched_through::<S>(before, after) {
        let (shared, bloom, start, data_before, end, data_after, result) = choose|
            shared: SharedStyleContext<S>,
            bloom: StyleBloom,
            start: Search,
            data_before: ElementData,
            end: Search,
            data_after: ElementData,
            result: StyleSharingResult,
        | #[trigger]
            attempted(shared, bloom, start, data_before, end, data_after, result)
                && start.candidates == before && end.candidates == after;
        law_attempt_keeps_or_clears_the_cache(
            shared,
            bloom,
            start,
            data_before,
            end,
            data_after,
            result,
        );
        assert forall|i: int| 0 <= i < after.len() implies cacheable(
            (#[trigger] after[i]).element,
        ) by {
            assert(only_more_known(before[i], after[i]));
        }
    } else if after.len() > 0 {
        let index = choose|index: int|
            0 <= index < before.len() && after == #[trigger] touched(before, index);
        assert forall|i: int| 0 <= i < after.len() implies cacheable(
            (#[trigger] after[i]).element,
        ) by {
            if 0 < index {
                if i == 0 {
                    assert(after[i] == before[index]);
                } else if i <= index {
                    assert(after[i] == before[i - 1]);
                } else {
                    assert(after[i] == before[i]);
                }
            }
        }
    }
}

/// A cache that began empty never holds more than
/// `STYLE_SHARING_CANDIDATE_CACHE_SIZE` entries, nor one without a parent or one that
/// is native anonymous content, however it has been used: `history` lists what was in
/// it at one time after the other.
pub proof fn law_cache_is_always_fit_to_share<S: StyleSystem>(
    history: Seq<Seq<SharingFacts>>,
    time: int,
)
    requires
        0 <= time < history.len(),
        history[0] == Seq::<SharingFacts>::empty(),
        forall|i: int|
            #![trigger history[i]]
            0 <= i && i + 1 < history.len() ==> may_become::<S>(history[i], history[i + 1]),
    ensures
        history[time].len() <= STYLE_SHARING_CANDIDATE_CACHE_SIZE <= 8,
        forall|i: int|
            0 <= i < history[time].len() ==> (#[trigger] history[time][i]).element.parent is Some
                && !history[time][i].element.native_anonymous,
    decreases time,
{
    if time > 0 {
        law_cache_is_always_fit_to_share::<S>(history, time - 1);
        assert(may_become::<S>(history[time - 1], history[time - 1 + 1]));
        law_cache_stays_fit_to_share::<S>(history[time - 1], history[time]);
    }
}

/// Whether every cached element has its own style.
pub open spec fn all_styled(entries: Seq<SharingFacts>) -> bool {
    forall|i: int| 0 <= i < entries.len() ==> (#[trigger] entries[i]).element.is_styled()
}

/// A cache of styled elements stays one, whatever is done with it: when a styled
/// element is inserted, when one is used, and when an element looks for a style.
pub proof fn law_styled_elements_stay_styled<S: StyleSystem>(
    shared: SharedStyleContext<S>,
    bloom: StyleBloom,
    before: Search,
    data_before: ElementData,
    after: Search,
    data_after: ElementData,
    result: StyleSharingResult,
    entry: SharingFacts,
    index: int,
)
    requires
        all_styled(before.candidates),
        entry.element.is_styled(),
        attempted(shared, bloom, before, data_before, after, data_after, result),
    ensures
        all_styled(
            inserted(before.candidates, entry, STYLE_SHARING_CANDIDATE_CACHE_SIZE as nat),
        ),
        all_styled(touched(before.candidates, index)),
        all_styled(after.candidates),
{
    law_attempt_keeps_or_clears_the_cache(
        shared,
        bloom,
        before,
        data_before,
        after,
        data_after,
        result,
    );
    let entries = before.candidates;
    let longer = inserted(entries, entry, STYLE_SHARING_CANDIDATE_CACHE_SIZE as nat);
    assert forall|i: int| 0 <= i < longer.len() implies (#[trigger]
    longer[i]).element.is_styled() by {
        if i > 0 {
            assert(longer[i] == entries[i - 1]);
        }
    }
    let moved = touched(entries, index);
    assert forall|i: int| 0 <= i < moved.len() implies (#[trigger] moved[i]).element.is_styled() by {
        if 0 < index < entries.len() {
            if i == 0 {
                assert(moved[i] == entries[index]);
            } else if i <= index {
                assert(moved[i] == entries[i - 1]);
            } else {
                assert(moved[i] == entries[i]);
            }
        }
    }
    assert forall|i: int| 0 <= i < after.candidates.len() implies (#[trigger]
    after.candidates[i]).element.is_styled() by {
        assert(only_more_known(entries[i], after.candidates[i]));
        assert(entries[i].element.is_styled());
    }
}

} // verus!
