//! What sharing guarantees, told by what the elements have and by what the style
//! system answered.

use crate::atom::Atom;
use crate::bits::bits_of;
use crate::bloom::StyleBloom;
use crate::class_order::{ascending, law_ordering_is_a_stable_sort, of_hash, ordered_by_hash};
use crate::context::{AppliedFlags, SharedStyleContext};
use crate::data::{ComputedStyle, ElementData, RestyleData};
use crate::dom::{Element, VisitedHandlingMode};
use crate::outcome::{
    answered, ids_answered, tested, Answers, CacheMiss, SharingFacts, StyleSharingResult,
};
use crate::properties::ComputedValues;
use crate::relations::StyleRelations;
use crate::sharing::offered;
use crate::stylist::{
    ApplicableDeclarationBlock, ChildCascadeRequirement, FlaggedElement, RevalidationMatch,
    StyleSystem,
};
use crate::validation::{class_order, filter_to_use, match_found, revalidated, ValidationFacts};
use crate::walk::{attempted, damaged, goes_on, searched, Search};
use selectors::bloom::BloomFilter;
use vstd::prelude::*;

verus! {

/// Whether the two inherit the same styles: they have one parent, or parents with
/// one set of computed values, or no parent either way.
pub open spec fn same_inheritance(left: Element, right: Element) -> bool {
    match (left.parent, right.parent) {
        (Some(l), Some(r)) => l.node == r.node || l.computed_values == r.computed_values,
        (Some(_), None) => false,
        (None, Some(_)) => false,
        (None, None) => true,
    }
}

/// Whether the two are ordinary content of the same name, kind and state.
pub open spec fn same_kind(left: Element, right: Element) -> bool {
    &&& !left.native_anonymous
    &&& !right.native_anonymous
    &&& left.local_name == right.local_name
    &&& left.namespace == right.namespace
    &&& left.link == right.link
    &&& left.user_and_author_rules == right.user_and_author_rules
    &&& left.state.other == right.state.other
}

/// Whether `system` may say that there are no rules for `id`, if there is one.
pub open spec fn may_have_no_rules<S: StyleSystem>(system: S, id: Option<Atom>) -> bool {
    id matches Some(id) ==> call_ensures(S::may_have_rules_for_id, (&system, &id), false)
}

/// Whether there is an id, and `system` may say that there may be rules for it.
pub open spec fn may_have_rules<S: StyleSystem>(system: S, id: Option<Atom>) -> bool {
    id matches Some(id) && call_ensures(S::may_have_rules_for_id, (&system, &id), true)
}

/// Whether `list` holds `classes` in the order of comparison. Up to five classes are
/// put in ascending order of their hashes, where those of one hash keep their order;
/// more than five stay as they are.
pub open spec fn lists(list: Seq<Atom>, classes: Seq<Atom>) -> bool {
    if classes.len() <= 5 {
        &&& forall|i: int, j: int| 0 <= i <= j < list.len() ==> list[i].hash <= list[j].hash
        &&& forall|hash: u32| #[trigger] of_hash(list, hash) == of_hash(classes, hash)
    } else {
        list == classes
    }
}

/// Whether `list` is the class list of an element: the one that is known, or else one
/// of the classes it has.
pub open spec fn is_class_list(list: Seq<Atom>, facts: SharingFacts) -> bool {
    match facts.validation.class_list {
        Some(known) => list == known,
        None => lists(list, facts.element.classes@),
    }
}

/// Whether the two have the same class list.
pub open spec fn same_classes(left: SharingFacts, right: SharingFacts) -> bool {
    exists|list: Seq<Atom>| #[trigger] is_class_list(list, left) && is_class_list(list, right)
}

/// The presentational hints of an element: those that are known, or else those that
/// it has when all links are unvisited.
pub open spec fn own_hints(facts: SharingFacts) -> Seq<ApplicableDeclarationBlock> {
    match facts.validation.pres_hints {
        Some(known) => known,
        None => facts.element.unvisited_hints@,
    }
}

/// Whether `system` may answer `found` when it is asked to match `element`. It is
/// handed the filter of `bloom` if that is set up for the element's parent, and else
/// none.
pub open spec fn may_find<S: StyleSystem>(
    system: S,
    bloom: StyleBloom,
    element: Element,
    found: RevalidationMatch,
) -> bool {
    let parent = match element.parent {
        Some(parent) => Some(parent.node),
        None => None,
    };
    let filter: Option<&BloomFilter> = if bloom.current_parent == parent {
        Some(&*bloom.filter)
    } else {
        None
    };
    call_ensures(S::match_revalidation_selectors, (&system, &element, filter), found)
}

/// Whether `results` may be the match results of an element: those that are known, or
/// else some that `system` finds.
pub open spec fn may_result<S: StyleSystem>(
    system: S,
    bloom: StyleBloom,
    facts: SharingFacts,
    results: Seq<bool>,
) -> bool {
    match facts.validation.revalidation {
        Some(known) => results == known,
        None => exists|found: RevalidationMatch| #[trigger]
            may_find(system, bloom, facts.element, found) && results == bits_of(found.results),
    }
}

/// Whether the classes of an element are all that may have been found out about it.
pub open spec fn only_classes_found_out(before: SharingFacts, after: SharingFacts) -> bool {
    &&& after.element == before.element
    &&& after.validation.pres_hints == before.validation.pres_hints
    &&& after.validation.revalidation == before.validation.revalidation
    &&& after.validation.class_list == before.validation.class_list || classes_found_out(
        before,
        after,
    )
}

/// Whether the class list of an element is known now.
pub open spec fn classes_found_out(before: SharingFacts, after: SharingFacts) -> bool {
    after.validation.class_list matches Some(list) && is_class_list(list, before)
}

/// There is but one way to put atoms in ascending order of their hashes so that those
/// of one hash keep their order.
proof fn lemma_one_stable_order(left: Seq<Atom>, right: Seq<Atom>)
    requires
        ascending(left),
        ascending(right),
        forall|hash: u32| #[trigger] of_hash(left, hash) == of_hash(right, hash),
    ensures
        left == right,
    decreases left.len() + right.len(),
{
    reveal(Seq::filter);
    broadcast use vstd::seq_lib::group_filter_ensures;

    if left.len() > 0 && right.len() > 0 {
        let l = left.last();
        let r = right.last();
        let left1 = left.drop_last();
        let right1 = right.drop_last();
        lemma_last_of_hash(left, right);
        lemma_last_of_hash(right, left);
        assert(l.hash == r.hash);
        assert(of_hash(left, l.hash).last() == l);
        assert(of_hash(right, l.hash).last() == r);
        assert forall|hash: u32| #[trigger] of_hash(left1, hash) == of_hash(right1, hash) by {
            assert(of_hash(left, hash) == of_hash(right, hash));
            if hash == l.hash {
                assert(of_hash(left1, hash) == of_hash(left, hash).drop_last());
                assert(of_hash(right1, hash) == of_hash(right, hash).drop_last());
            }
        }
        lemma_one_stable_order(left1, right1);
        assert(left == left1.push(l));
        assert(right == right1.push(r));
    } else if left.len() > 0 {
        assert(of_hash(left, left.last().hash) == of_hash(right, left.last().hash));
    } else if right.len() > 0 {
        assert(of_hash(left, right.last().hash) == of_hash(right, right.last().hash));
    }
}

/// The last atom of `left` has no greater hash than that of `right`, if the two have
/// the same atoms of each hash.
proof fn lemma_last_of_hash(left: Seq<Atom>, right: Seq<Atom>)
    requires
        left.len() > 0,
        ascending(right),
        of_hash(left, left.last().hash) == of_hash(right, left.last().hash),
    ensures
        right.len() > 0,
        left.last().hash <= right.last().hash,
{
    reveal(Seq::filter);
    broadcast use vstd::seq_lib::group_filter_ensures;

    let hash = left.last().hash;
    let same = of_hash(right, hash);
    assert(same.last() == left.last());
    assert(same.contains(left.last()));
    right.lemma_filter_contains_rev(|atom: Atom| atom.hash == hash, left.last());
    assert(right.contains(left.last()));
}

/// What is put in the order of comparison is listed, and nothing else is.
proof fn lemma_class_order_lists(list: Seq<Atom>, classes: Seq<Atom>)
    ensures
        lists(list, classes) <==> list == class_order(classes),
        class_order(classes).to_multiset() == classes.to_multiset(),
{
    law_ordering_is_a_stable_sort(classes);
    let ordered = ordered_by_hash(classes);
    assert(lists(class_order(classes), classes));
    if lists(list, classes) && classes.len() <= 5 {
        lemma_one_stable_order(list, ordered);
    }
}

/// The class list of an element is the one that it is compared by.
pub proof fn law_class_list_is_the_one_compared(list: Seq<Atom>, facts: SharingFacts)
    ensures
        is_class_list(list, facts) <==> list == facts.validation.classes(facts.element),
{
    lemma_class_order_lists(list, facts.element.classes@);
}

proof fn lemma_same_classes(left: SharingFacts, right: SharingFacts)
    ensures
        same_classes(left, right) <==> left.validation.classes(left.element)
            == right.validation.classes(right.element),
{
    let list = left.validation.classes(left.element);
    law_class_list_is_the_one_compared(list, left);
    law_class_list_is_the_one_compared(list, right);
    if same_classes(left, right) {
        let shared = choose|list: Seq<Atom>| #[trigger]
            is_class_list(list, left) && is_class_list(list, right);
        law_class_list_is_the_one_compared(shared, left);
        law_class_list_is_the_one_compared(shared, right);
    }
}

/// The class list of an element of which nothing is known holds exactly its classes,
/// each as often as it has it. Up to five come in ascending order of their hashes,
/// those of one hash in the order in which the element has them; more than five come
/// as they are. A class list that is known is the class list.
pub proof fn law_class_list_holds_every_class(facts: ValidationFacts, element: Element)
    ensures
        facts.class_list matches Some(known) ==> facts.classes(element) == known,
        facts.class_list is None ==> {
            let list = facts.classes(element);
            &&& list.to_multiset() == element.classes@.to_multiset()
            &&& list.len() == element.classes@.len()
            &&& element.classes@.len() > 5 ==> list == element.classes@
            &&& element.classes@.len() <= 5 ==> forall|i: int, j: int|
                0 <= i <= j < list.len() ==> list[i].hash <= list[j].hash
            &&& element.classes@.len() <= 5 ==> forall|hash: u32| #[trigger]
                of_hash(list, hash) == of_hash(element.classes@, hash)
        },
        class_order(element.classes@).to_multiset() == element.classes@.to_multiset(),
        element.classes@.len() > 5 ==> class_order(element.classes@) == element.classes@,
        facts.with_classes(element).class_list == Some(facts.classes(element)),
        facts.with_classes(element).pres_hints == facts.pres_hints,
        facts.with_classes(element).revalidation == facts.revalidation,
{
    broadcast use vstd::seq_lib::group_to_multiset_ensures;

    let list = class_order(element.classes@);
    lemma_class_order_lists(list, element.classes@);
    assert(list.to_multiset().len() == list.len());
    assert(element.classes@.to_multiset().len() == element.classes@.len());
}

/// The class lists of two elements of which nothing is known are the same exactly when
/// the elements have the same classes in the same order, or up to five each, and of
/// each hash the same ones in the same order.
pub proof fn law_class_lists_are_the_same_for_the_same_classes(
    of_left: ValidationFacts,
    left: Element,
    of_right: ValidationFacts,
    right: Element,
)
    requires
        of_left.class_list is None,
        of_right.class_list is None,
    ensures
        (of_left.classes(left) == of_right.classes(right)) <==> {
            ||| left.classes@ == right.classes@
            ||| {
                &&& left.classes@.len() <= 5
                &&& right.classes@.len() <= 5
                &&& forall|hash: u32| #[trigger]
                    of_hash(left.classes@, hash) == of_hash(right.classes@, hash)
            }
        },
{
    broadcast use vstd::seq_lib::group_to_multiset_ensures;

    let l = class_order(left.classes@);
    let r = class_order(right.classes@);
    lemma_class_order_lists(l, left.classes@);
    lemma_class_order_lists(r, right.classes@);
    lemma_class_order_lists(l, right.classes@);
    assert(left.classes@.to_multiset().len() == left.classes@.len());
    assert(right.classes@.to_multiset().len() == right.classes@.len());
    if l == r && left.classes@.len() <= 5 {
        assert forall|hash: u32| #[trigger]
            of_hash(left.classes@, hash) == of_hash(right.classes@, hash) by {
            assert(of_hash(l, hash) == of_hash(left.classes@, hash));
        }
    }
    if left.classes@ != right.classes@ && left.classes@.len() <= 5 && right.classes@.len() <= 5
        && (forall|hash: u32| #[trigger]
        of_hash(left.classes@, hash) == of_hash(right.classes@, hash)) {
        assert forall|hash: u32| #[trigger]
            of_hash(l, hash) == of_hash(right.classes@, hash) by {
            assert(of_hash(left.classes@, hash) == of_hash(right.classes@, hash));
        }
        assert(lists(l, right.classes@));
    }
}

/// The presentational hints of an element are those that are known, or else those that
/// it has when all links are unvisited, every one of them and in their order. Once they
/// have been asked for they are known, and nothing else changes.
pub proof fn law_hints_are_those_of_unvisited_links(facts: ValidationFacts, element: Element)
    ensures
        facts.pres_hints matches Some(known) ==> facts.hints(element) == known,
        facts.pres_hints is None ==> facts.hints(element) == element.unvisited_hints@,
        facts.with_hints(element).pres_hints == Some(facts.hints(element)),
        facts.with_hints(element).class_list == facts.class_list,
        facts.with_hints(element).revalidation == facts.revalidation,
        element.hints(VisitedHandlingMode::AllLinksUnvisited) == element.unvisited_hints@,
        element.hints(VisitedHandlingMode::RelevantLinkVisited) == element.visited_hints@,
{
}

/// Nothing is known of an element at first.
pub proof fn law_nothing_is_known_at_first()
    ensures
        ValidationFacts::unknown().class_list is None,
        ValidationFacts::unknown().pres_hints is None,
        ValidationFacts::unknown().revalidation is None,
{
}

/// Match results that are known are given as they are, and nothing happens. Else the
/// style system is asked to match the element, with the filter if that is set up for
/// the element's parent and without one if it is not; its results are given and known
/// from then on, and all the flags that it asks for are added, in their order.
pub proof fn law_match_results_are_known_or_asked_for<S: StyleSystem>(
    system: S,
    bloom: StyleBloom,
    element: Element,
    bloom_known_valid: bool,
    before: ValidationFacts,
    flags_before: Seq<FlaggedElement>,
    results: Seq<bool>,
    after: ValidationFacts,
    flags_after: Seq<FlaggedElement>,
)
    requires
        bloom_known_valid ==> bloom.current_parent == (match element.parent {
            Some(parent) => Some(parent.node),
            None => None,
        }),
        revalidated(
            system,
            bloom,
            element,
            bloom_known_valid,
            before,
            flags_before,
            results,
            after,
            flags_after,
        ),
    ensures
        after.revalidation == Some(results),
        after.class_list == before.class_list,
        after.pres_hints == before.pres_hints,
        before.revalidation matches Some(known) ==> results == known && flags_after
            == flags_before,
        before.revalidation is None ==> exists|found: RevalidationMatch| #[trigger]
            may_find(system, bloom, element, found) && results == bits_of(found.results)
                && flags_after == flags_before + found.flags@,
{
    if before.revalidation is None {
        let found = choose|found: RevalidationMatch| #[trigger]
            match_found(
                system,
                element,
                filter_to_use(&bloom, element, bloom_known_valid),
                found,
            ) && results == bits_of(found.results) && after == before.with_results(found)
                && flags_after == flags_before + found.flags@;
        assert(may_find(system, bloom, element, found));
    }
}

/// Different ids do not matter only if the style system said that there are no rules
/// for the first, if it is there, and that there are none for the second, if it is
/// there. They matter only if it said that there may be rules for one of them.
pub proof fn law_both_ids_are_asked_about<S: StyleSystem>(
    system: S,
    first: Option<Atom>,
    second: Option<Atom>,
    answer: bool,
)
    requires
        ids_answered(system, first, second, answer),
    ensures
        !answer ==> (first matches Some(id) ==> call_ensures(
            S::may_have_rules_for_id,
            (&system, &id),
            false,
        )),
        !answer ==> (second matches Some(id) ==> call_ensures(
            S::may_have_rules_for_id,
            (&system, &id),
            false,
        )),
        answer ==> {
            ||| first matches Some(id) && call_ensures(
                S::may_have_rules_for_id,
                (&system, &id),
                true,
            )
            ||| second matches Some(id) && call_ensures(
                S::may_have_rules_for_id,
                (&system, &id),
                true,
            )
        },
{
}

/// Which check tells `target` from `candidate`: the first that fails, in a fixed order.
/// Where none fails the style of the cached element is handed out.
pub open spec fn tells_the_first_difference<S: StyleSystem>(
    system: S,
    bloom: StyleBloom,
    target: SharingFacts,
    candidate: SharingFacts,
    target_after: SharingFacts,
    candidate_after: SharingFacts,
    result: Result<ComputedStyle, CacheMiss>,
) -> bool {
    let t = target.element;
    let c = candidate.element;
    let same_id = t.id == c.id || may_have_no_rules(system, t.id) && may_have_no_rules(
        system,
        c.id,
    );
    let same_until_classes = {
        &&& same_inheritance(t, c)
        &&& same_kind(t, c)
        &&& same_id
        &&& t.style_attribute == c.style_attribute
    };
    match result {
        Err(CacheMiss::Parent) => !same_inheritance(t, c),
        Err(CacheMiss::NativeAnonymousContent) => {
            &&& same_inheritance(t, c)
            &&& t.native_anonymous || c.native_anonymous
        },
        Err(CacheMiss::LocalName) => {
            &&& same_inheritance(t, c)
            &&& !t.native_anonymous && !c.native_anonymous
            &&& t.local_name != c.local_name
        },
        Err(CacheMiss::Namespace) => {
            &&& same_inheritance(t, c)
            &&& !t.native_anonymous && !c.native_anonymous
            &&& t.local_name == c.local_name
            &&& t.namespace != c.namespace
        },
        Err(CacheMiss::Link) => {
            &&& same_inheritance(t, c)
            &&& !t.native_anonymous && !c.native_anonymous
            &&& t.local_name == c.local_name
            &&& t.namespace == c.namespace
            &&& t.link != c.link
        },
        Err(CacheMiss::UserAndAuthorRules) => {
            &&& same_inheritance(t, c)
            &&& !t.native_anonymous && !c.native_anonymous
            &&& t.local_name == c.local_name
            &&& t.namespace == c.namespace
            &&& t.link == c.link
            &&& t.user_and_author_rules != c.user_and_author_rules
        },
        Err(CacheMiss::State) => {
            &&& same_inheritance(t, c)
            &&& !t.native_anonymous && !c.native_anonymous
            &&& t.local_name == c.local_name
            &&& t.namespace == c.namespace
            &&& t.link == c.link
            &&& t.user_and_author_rules == c.user_and_author_rules
            &&& t.state.other != c.state.other
        },
        Err(CacheMiss::IdAttr) => {
            &&& same_inheritance(t, c)
            &&& same_kind(t, c)
            &&& t.id != c.id
            &&& may_have_rules(system, t.id) || may_have_rules(system, c.id)
        },
        Err(CacheMiss::StyleAttr) => {
            &&& same_inheritance(t, c)
            &&& same_kind(t, c)
            &&& same_id
            &&& t.style_attribute != c.style_attribute
        },
        Err(CacheMiss::Class) => {
            &&& same_until_classes
            &&& !same_classes(target, candidate)
        },
        Err(CacheMiss::PresHints) => {
            &&& same_until_classes
            &&& same_classes(target, candidate)
            &&& own_hints(target) != own_hints(candidate)
        },
        Err(CacheMiss::Revalidation) => {
            &&& same_until_classes
            &&& same_classes(target, candidate)
            &&& own_hints(target) == own_hints(candidate)
            &&& matched_as_found(system, bloom, target, target_after)
            &&& matched_as_found(system, bloom, candidate, candidate_after)
            &&& target_after.validation.revalidation
                != candidate_after.validation.revalidation
        },
        Ok(style) => {
            &&& same_until_classes
            &&& same_classes(target, candidate)
            &&& own_hints(target) == own_hints(candidate)
            &&& matched_as_found(system, bloom, target, target_after)
            &&& matched_as_found(system, bloom, candidate, candidate_after)
            &&& target_after.validation.revalidation
                == candidate_after.validation.revalidation
            &&& style == c.data->0.styles->0.primary
        },
    }
}

/// The result of holding an element against a cached one tells the first difference
/// between the two, or that there is none.
pub proof fn law_first_difference_is_told<S: StyleSystem>(
    system: S,
    bloom: StyleBloom,
    target: SharingFacts,
    candidate: SharingFacts,
    flags: Seq<AppliedFlags>,
    answers: Answers,
)
    requires
        answered(system, bloom, target, candidate, answers),
    ensures
        ({
            let done = tested(target, candidate, flags, answers);
            tells_the_first_difference(
                system,
                bloom,
                target,
                candidate,
                done.target,
                done.candidate,
                done.result,
            )
        }),
{
    lemma_same_classes(target, candidate);
    let t = target.element;
    let c = candidate.element;
    let done = tested(target, candidate, flags, answers);
    if done.result is Ok || done.result == Err::<ComputedStyle, CacheMiss>(
        CacheMiss::Revalidation,
    ) {
        if target.validation.revalidation is None {
            assert(may_find(system, bloom, t, answers.target_match));
        }
        if candidate.validation.revalidation is None {
            assert(may_find(system, bloom, c, answers.candidate_match));
        }
    }
}

/// Whether the match results of an element are known now: as they were, or as `system`
/// found them.
pub open spec fn matched_as_found<S: StyleSystem>(
    system: S,
    bloom: StyleBloom,
    before: SharingFacts,
    after: SharingFacts,
) -> bool {
    after.validation.revalidation matches Some(results) && may_result(
        system,
        bloom,
        before,
        results,
    )
}

/// What holding `target` against `candidate` leaves known. Nothing is forgotten, and
/// what a check had to work out is kept: the classes once classes are compared, the
/// hints once hints are, the match results once these are. Flags are added exactly when
/// the element is matched: those that matching asked for, all of them, in their order.
pub open spec fn keeps_what_is_worked_out<S: StyleSystem>(
    system: S,
    bloom: StyleBloom,
    target: SharingFacts,
    candidate: SharingFacts,
    flags_before: Seq<AppliedFlags>,
    target_after: SharingFacts,
    candidate_after: SharingFacts,
    flags_after: Seq<AppliedFlags>,
    result: Result<ComputedStyle, CacheMiss>,
) -> bool {
    &&& target_after.element == target.element
    &&& candidate_after.element == candidate.element
    &&& match result {
        Err(CacheMiss::Class) => {
            &&& classes_found_out(target, target_after)
            &&& classes_found_out(candidate, candidate_after)
            &&& target_after.validation.pres_hints == target.validation.pres_hints
            &&& candidate_after.validation.pres_hints == candidate.validation.pres_hints
            &&& target_after.validation.revalidation == target.validation.revalidation
            &&& candidate_after.validation.revalidation == candidate.validation.revalidation
            &&& flags_after == flags_before
        },
        Err(CacheMiss::PresHints) => {
            &&& classes_found_out(target, target_after)
            &&& classes_found_out(candidate, candidate_after)
            &&& target_after.validation.pres_hints == Some(own_hints(target))
            &&& candidate_after.validation.pres_hints == Some(own_hints(candidate))
            &&& target_after.validation.revalidation == target.validation.revalidation
            &&& candidate_after.validation.revalidation == candidate.validation.revalidation
            &&& flags_after == flags_before
        },
        Ok(_) | Err(CacheMiss::Revalidation) => {
            &&& classes_found_out(target, target_after)
            &&& classes_found_out(candidate, candidate_after)
            &&& target_after.validation.pres_hints == Some(own_hints(target))
            &&& candidate_after.validation.pres_hints == Some(own_hints(candidate))
            &&& matched_as_found(system, bloom, target, target_after)
            &&& matched_as_found(system, bloom, candidate, candidate_after)
            &&& flags_asked_for(system, bloom, target, flags_before, target_after, flags_after)
        },
        Err(_) => {
            &&& target_after == target
            &&& candidate_after == candidate
            &&& flags_after == flags_before
        },
    }
}

/// Holding an element against a cached one keeps what was known and what it had to work
/// out.
pub proof fn law_what_is_worked_out_is_kept<S: StyleSystem>(
    system: S,
    bloom: StyleBloom,
    target: SharingFacts,
    candidate: SharingFacts,
    flags: Seq<AppliedFlags>,
    answers: Answers,
)
    requires
        answered(system, bloom, target, candidate, answers),
    ensures
        ({
            let done = tested(target, candidate, flags, answers);
            keeps_what_is_worked_out(
                system,
                bloom,
                target,
                candidate,
                flags,
                done.target,
                done.candidate,
                done.flags,
                done.result,
            )
        }),
{
    let done = tested(target, candidate, flags, answers);
    law_class_list_is_the_one_compared(target.validation.classes(target.element), target);
    law_class_list_is_the_one_compared(candidate.validation.classes(candidate.element), candidate);
    law_first_difference_is_told(system, bloom, target, candidate, flags, answers);
    if done.result is Ok || done.result == Err::<ComputedStyle, CacheMiss>(
        CacheMiss::Revalidation,
    ) {
        if target.validation.revalidation is None {
            let found = answers.target_match;
            assert(may_find(system, bloom, target.element, found));
            assert(done.flags == flags + found.flags@.map_values(
                |flagged: FlaggedElement| AppliedFlags { styled: target.element.node, flagged },
            ));
        }
    }
}

/// Whether `flags_after` are `flags_before` and, if the element had to be matched,
/// those flags that the match asked for which gave the results that are known now.
pub open spec fn flags_asked_for<S: StyleSystem>(
    system: S,
    bloom: StyleBloom,
    before: SharingFacts,
    flags_before: Seq<AppliedFlags>,
    after: SharingFacts,
    flags_after: Seq<AppliedFlags>,
) -> bool {
    if before.validation.revalidation is Some {
        flags_after == flags_before
    } else {
        exists|found: RevalidationMatch| #[trigger]
            may_find(system, bloom, before.element, found) && {
                &&& after.validation.revalidation == Some(bits_of(found.results))
                &&& flags_after == flags_before + found.flags@.map_values(
                    |flagged: FlaggedElement|
                        AppliedFlags { styled: before.element.node, flagged },
                )
            }
    }
}

/// An element that has a parent, is no native anonymous content, has no pseudo-element
/// styles, and whose style specifies neither transitions nor animations, is the first
/// entry of the cache once it has been offered. What was known of it is still known;
/// that it has no presentational hints is known too if matching found it unaffected by
/// any. The other entries move back by one, and only the last makes way when there are
/// eight. Every other element leaves the cache as it is.
pub proof fn law_offered_element_comes_first(
    entries: Seq<SharingFacts>,
    element: Element,
    style: ComputedValues,
    relations: StyleRelations,
    validation: ValidationFacts,
)
    requires
        entries.len() <= 8,
    ensures
        element.parent is Some && !element.native_anonymous && relations.bits & 8 == 0
            && !style.box_style.transitions && !style.box_style.animations ==> {
            let now = offered(entries, element, style, relations, validation);
            &&& now.len() == if entries.len() < 8 {
                entries.len() + 1
            } else {
                8
            }
            &&& now[0].element == element
            &&& now[0].validation.class_list == validation.class_list
            &&& now[0].validation.revalidation == validation.revalidation
            &&& relations.bits & 4 != 0 ==> now[0].validation.pres_hints == validation.pres_hints
            &&& relations.bits & 4 == 0 ==> now[0].validation.pres_hints == Some(
                Seq::<ApplicableDeclarationBlock>::empty(),
            )
            &&& forall|i: int|
                #![trigger entries[i]]
                0 <= i < entries.len() && i < 7 ==> now[i + 1] == entries[i]
        },
        element.parent is None ==> offered(entries, element, style, relations, validation)
            == entries,
        element.native_anonymous ==> offered(entries, element, style, relations, validation)
            == entries,
        style.box_style.transitions ==> offered(entries, element, style, relations, validation)
            == entries,
        style.box_style.animations ==> offered(entries, element, style, relations, validation)
            == entries,
        relations.bits & 8 != 0 ==> offered(entries, element, style, relations, validation)
            == entries,
{
    let bits = relations.bits;
    assert(bits & 8usize & 15usize == bits & 8usize) by (bit_vector);
    assert(bits & 4usize & 15usize == bits & 4usize) by (bit_vector);
}

/// Whatever else matching found, an element that has pseudo-element styles leaves the
/// cache as it is.
pub proof fn law_pseudo_element_styles_keep_out(
    entries: Seq<SharingFacts>,
    element: Element,
    style: ComputedValues,
    relations: StyleRelations,
    validation: ValidationFacts,
)
    requires
        relations.bits & 8 != 0,
    ensures
        offered(entries, element, style, relations, validation) == entries,
{
    let bits = relations.bits;
    assert(bits & 8usize & 15usize == bits & 8usize) by (bit_vector);
}

/// Whether one of the checks before the presentational hints tells the two apart, as
/// `system` may answer.
pub open spec fn told_apart<S: StyleSystem>(
    system: S,
    target: SharingFacts,
    candidate: SharingFacts,
) -> bool {
    let t = target.element;
    let c = candidate.element;
    ||| !same_kind(t, c)
    ||| t.id != c.id && (may_have_rules(system, t.id) || may_have_rules(system, c.id))
    ||| t.style_attribute != c.style_attribute
    ||| !same_classes(target, candidate)
}

/// Whether one of the checks before the presentational hints told the two apart, as
/// `system` answered. The class lists are known afterwards if it was they that did.
pub open spec fn passed_over<S: StyleSystem>(
    system: S,
    target: SharingFacts,
    candidate: SharingFacts,
    target_after: SharingFacts,
    candidate_after: SharingFacts,
) -> bool {
    let t = target.element;
    let c = candidate.element;
    &&& same_inheritance(t, c)
    &&& {
        ||| {
            &&& candidate_after == candidate
            &&& {
                ||| !same_kind(t, c)
                ||| t.id != c.id && (may_have_rules(system, t.id) || may_have_rules(system, c.id))
                ||| t.style_attribute != c.style_attribute
            }
        }
        ||| {
            &&& same_kind(t, c)
            &&& t.id == c.id || may_have_no_rules(system, t.id) && may_have_no_rules(system, c.id)
            &&& t.style_attribute == c.style_attribute
            &&& !same_classes(target, candidate)
            &&& only_classes_found_out(candidate, candidate_after)
            &&& classes_found_out(candidate, candidate_after)
            &&& classes_found_out(target, target_after)
        }
    }
}

/// Whether none of the checks before the presentational hints told the two apart, as
/// `system` answered.
pub open spec fn promising<S: StyleSystem>(
    system: S,
    target: SharingFacts,
    candidate: SharingFacts,
) -> bool {
    let t = target.element;
    let c = candidate.element;
    &&& same_inheritance(t, c)
    &&& same_kind(t, c)
    &&& t.id == c.id || may_have_no_rules(system, t.id) && may_have_no_rules(system, c.id)
    &&& t.style_attribute == c.style_attribute
    &&& same_classes(target, candidate)
}

/// What is known of an element is the same for comparison.
proof fn lemma_found_out(before: SharingFacts, now: SharingFacts, candidate: SharingFacts)
    requires
        only_classes_found_out(before, now),
    ensures
        now.validation.classes(now.element) == before.validation.classes(before.element),
        same_classes(now, candidate) == same_classes(before, candidate),
        own_hints(now) == own_hints(before),
        forall|list: Seq<Atom>| #[trigger]
            is_class_list(list, now) <==> is_class_list(list, before),
{
    if now.validation.class_list is Some {
        law_class_list_is_the_one_compared(now.validation.class_list->0, before);
    }
    lemma_same_classes(now, candidate);
    lemma_same_classes(before, candidate);
    assert forall|list: Seq<Atom>| #[trigger]
        is_class_list(list, now) <==> is_class_list(list, before) by {
        law_class_list_is_the_one_compared(list, now);
        law_class_list_is_the_one_compared(list, before);
    }
}

/// A search passes over cached elements until it comes to one at which it ends, or
/// through all of them. Gives where that is, and how far the search has come then.
proof fn lemma_course<S: StyleSystem>(
    system: S,
    bloom: StyleBloom,
    search: Search,
    index: int,
    answers: Seq<Answers>,
) -> (reached: (int, Search))
    requires
        0 <= index <= search.candidates.len(),
        search.answered(system, bloom, index, answers),
    ensures
        ({
            let (at, now) = reached;
            &&& index <= at <= search.candidates.len()
            &&& now.candidates.len() == search.candidates.len()
            &&& search.end(index, answers) == now.end(at, answers)
            &&& now.answered(system, bloom, at, answers)
            &&& now.flags == search.flags
            &&& only_classes_found_out(search.target, now.target)
            &&& search.target.validation.class_list is Some ==> now.target == search.target
            &&& forall|i: int|
                #![trigger now.candidates[i]]
                at <= i < search.candidates.len() || 0 <= i < index ==> now.candidates[i]
                    == search.candidates[i]
            &&& forall|i: int|
                #![trigger now.candidates[i]]
                #![trigger search.candidates[i]]
                index <= i < at ==> passed_over(
                    system,
                    search.target,
                    search.candidates[i],
                    now.target,
                    now.candidates[i],
                )
            &&& at < search.candidates.len() ==> !(now.test(at, answers[at]).result matches Err(
                miss,
            ) && goes_on(miss))
        }),
    decreases search.candidates.len() - index,
{
    let answer = answers[index];
    let done = search.test(index, answer);
    let t = search.target;
    let c = search.candidates[index];
    if index < search.candidates.len() && (done.result matches Err(miss) && goes_on(miss)) {
        law_first_difference_is_told(system, bloom, t, c, search.flags, answer);
        law_what_is_worked_out_is_kept(system, bloom, t, c, search.flags, answer);
        law_class_list_is_the_one_compared(t.validation.classes(t.element), t);
        let next = search.after(index, answer);
        let (at, now) = lemma_course(system, bloom, next, index + 1, answers);
        assert(only_classes_found_out(t, next.target));
        lemma_found_out(t, next.target, c);
        assert(now.candidates[index] == done.candidate);
        assert(passed_over(system, t, c, now.target, now.candidates[index]));
        assert forall|i: int|
            #![trigger now.candidates[i]]
            at <= i < search.candidates.len() || 0 <= i < index implies now.candidates[i]
            == search.candidates[i] by {
            assert(next.candidates[i] == search.candidates[i]);
        }
        assert forall|i: int|
            #![trigger now.candidates[i]]
            #![trigger search.candidates[i]]
            index <= i < at implies passed_over(
            system,
            t,
            search.candidates[i],
            now.target,
            now.candidates[i],
        ) by {
            if i > index {
                assert(next.candidates[i] == search.candidates[i]);
                assert(passed_over(
                    system,
                    next.target,
                    next.candidates[i],
                    now.target,
                    now.candidates[i],
                ));
                lemma_found_out(t, next.target, search.candidates[i]);
            }
        }
        (at, now)
    } else {
        (index, search)
    }
}

/// Whether `system`, asked to accumulate the damage that an element with the data
/// `before` suffers when its values change to `new_values`, may answer with `restyle`
/// and `requirement`.
pub open spec fn may_damage<S: StyleSystem>(
    system: S,
    element: Element,
    before: ElementData,
    new_values: ComputedValues,
    restyle: RestyleData,
    requirement: ChildCascadeRequirement,
) -> bool {
    let old_values = match before.styles {
        Some(styles) => styles.primary.values,
        None => None,
    };
    call_ensures(
        S::accumulate_damage,
        (&system, &element, before.restyle, old_values, &new_values),
        (restyle, requirement),
    )
}

/// Whether `after` are the data of `element` once it has taken over `style`. The style
/// system was handed the restyle data, the old values and the new ones, and answered
/// with `requirement` and with restyle data that the element has now, if it had some.
pub open spec fn style_taken_over<S: StyleSystem>(
    system: S,
    element: Element,
    before: ElementData,
    style: ComputedStyle,
    after: ElementData,
    requirement: ChildCascadeRequirement,
) -> bool {
    &&& after.styles matches Some(styles) && styles.primary == style && styles.pseudos@.len() == 0
    &&& exists|restyle: RestyleData| #[trigger]
        may_damage(system, element, before, style.values->0, restyle, requirement)
            && after.restyle == match before.restyle {
            Some(_) => Some(restyle),
            None => None,
        }
}

/// Whether an attempt goes through the cached elements before `at`, all of which are
/// passed over, and ends at the one there, or after all of them.
///
/// It ends at an element that does not inherit alike, which clears the cache, and at
/// the first promising one: its style is shared if it has the same hints and the same
/// match results, and none is if it does not. Behind that one nothing is touched.
pub open spec fn goes_through<S: StyleSystem>(
    system: S,
    bloom: StyleBloom,
    before: Search,
    data_before: ElementData,
    after: Search,
    data_after: ElementData,
    result: StyleSharingResult,
    at: int,
) -> bool {
    let target = before.target;
    let count = before.candidates.len();
    let candidate = before.candidates[at];
    &&& 0 <= at <= count
    &&& after.target.element == target.element
    &&& if at < count && !same_inheritance(target.element, candidate.element) {
        &&& forall|i: int|
            #![trigger before.candidates[i]]
            0 <= i < at ==> same_inheritance(target.element, before.candidates[i].element)
                && told_apart(system, target, before.candidates[i])
        &&& only_classes_found_out(target, after.target)
        &&& after.candidates.len() == 0
        &&& after.flags == before.flags
        &&& data_after == data_before
        &&& result == StyleSharingResult::CannotShare
    } else {
        &&& after.candidates.len() == count
        &&& forall|i: int|
            #![trigger before.candidates[i]]
            #![trigger after.candidates[i]]
            0 <= i < at ==> passed_over(
                system,
                target,
                before.candidates[i],
                after.target,
                after.candidates[i],
            )
        &&& forall|i: int|
            #![trigger before.candidates[i]]
            #![trigger after.candidates[i]]
            at < i < count ==> after.candidates[i] == before.candidates[i]
        &&& if at == count {
            &&& only_classes_found_out(target, after.target)
            &&& after.flags == before.flags
            &&& data_after == data_before
            &&& result == StyleSharingResult::CannotShare
        } else {
            let candidate_after = after.candidates[at];
            &&& promising(system, target, candidate)
            &&& candidate_after.element == candidate.element
            &&& classes_found_out(target, after.target)
            &&& classes_found_out(candidate, candidate_after)
            &&& after.target.validation.pres_hints == Some(own_hints(target))
            &&& candidate_after.validation.pres_hints == Some(own_hints(candidate))
            &&& if own_hints(target) != own_hints(candidate) {
                &&& after.target.validation.revalidation == target.validation.revalidation
                &&& candidate_after.validation.revalidation == candidate.validation.revalidation
                &&& after.flags == before.flags
                &&& data_after == data_before
                &&& result == StyleSharingResult::CannotShare
            } else {
                &&& matched_as_found(system, bloom, target, after.target)
                &&& matched_as_found(system, bloom, candidate, candidate_after)
                &&& flags_asked_for(
                    system,
                    bloom,
                    target,
                    before.flags,
                    after.target,
                    after.flags,
                )
                &&& if after.target.validation.revalidation
                    == candidate_after.validation.revalidation {
                    &&& result matches StyleSharingResult::StyleWasShared(index, requirement)
                    &&& index == at
                    &&& style_taken_over(
                        system,
                        target.element,
                        data_before,
                        candidate.element.data->0.styles->0.primary,
                        data_after,
                        requirement,
                    )
                } else {
                    &&& data_after == data_before
                    &&& result == StyleSharingResult::CannotShare
                }
            }
        }
    }
}

/// Nothing happens and nothing is shared where sharing is off, and for an element that
/// has no parent or is native anonymous content.
pub proof fn law_refused_attempt_changes_nothing<S: StyleSystem>(
    shared: SharedStyleContext<S>,
    bloom: StyleBloom,
    before: Search,
    data_before: ElementData,
    after: Search,
    data_after: ElementData,
    result: StyleSharingResult,
)
    requires
        attempted(shared, bloom, before, data_before, after, data_after, result),
        shared.options.disable_style_sharing_cache || before.target.element.parent is None
            || before.target.element.native_anonymous,
    ensures
        after == before,
        data_after == data_before,
        result == StyleSharingResult::CannotShare,
{
}

/// Every other attempt goes through the cached elements, the most recently used one
/// first, until one decides.
pub proof fn law_attempt_goes_through_the_cache<S: StyleSystem>(
    shared: SharedStyleContext<S>,
    bloom: StyleBloom,
    before: Search,
    data_before: ElementData,
    after: Search,
    data_after: ElementData,
    result: StyleSharingResult,
) -> (at: int)
    requires
        attempted(shared, bloom, before, data_before, after, data_after, result),
        !shared.options.disable_style_sharing_cache,
        before.target.element.parent is Some,
        !before.target.element.native_anonymous,
    ensures
        goes_through(
            shared.system,
            bloom,
            before,
            data_before,
            after,
            data_after,
            result,
            at,
        ),
{
    let system = shared.system;
    let answers = choose|answers: Seq<Answers>| #[trigger]
        searched(system, bloom, before, data_before, answers, after, data_after, result);
    let (at, now) = lemma_course(system, bloom, before, 0, answers);
    let target = before.target;
    if at < before.candidates.len() {
        let candidate = before.candidates[at];
        let answer = answers[at];
        let done = now.test(at, answer);
        assert(now.candidates[at] == candidate);
        lemma_found_out(target, now.target, candidate);
        law_first_difference_is_told(system, bloom, now.target, candidate, now.flags, answer);
        law_what_is_worked_out_is_kept(system, bloom, now.target, candidate, now.flags, answer);
        let end = now.after(at, answer);
        assert(end.candidates[at] == done.candidate);
        assert forall|i: int|
            #![trigger before.candidates[i]]
            #![trigger end.candidates[i]]
            0 <= i < at implies passed_over(
            system,
            target,
            before.candidates[i],
            end.target,
            end.candidates[i],
        ) by {
            assert(now.candidates[i] == end.candidates[i]);
            assert(passed_over(
                system,
                target,
                before.candidates[i],
                now.target,
                now.candidates[i],
            ));
        }
        if same_inheritance(target.element, candidate.element) {
            assert(after == end);
            match result {
                StyleSharingResult::StyleWasShared(_, requirement) => {
                    let style = candidate.element.data->0.styles->0.primary;
                    let restyle = choose|restyle: RestyleData| #[trigger]
                        damaged(system, target.element, data_before, style, restyle, requirement)
                            && data_after.adopted(data_before, style, restyle);
                    assert(may_damage(
                        system,
                        target.element,
                        data_before,
                        style.values->0,
                        restyle,
                        requirement,
                    ));
                    assert(style_taken_over(
                        system,
                        target.element,
                        data_before,
                        style,
                        data_after,
                        requirement,
                    ));
                },
                StyleSharingResult::CannotShare => {},
            }
        }
    }
    at
}

/// An element shares the style of a cached one only if the two have one parent, or
/// parents with one set of computed values, neither is native anonymous content, they
/// have the same name, kind and state, the same id, or ids of which the style system
/// has said that there are no rules for either, the same style attribute, the same
/// classes and hints, and the same match results. It has the style of that element
/// then, and no pseudo-element styles.
pub proof fn law_style_is_shared_with_a_like_element_only<S: StyleSystem>(
    shared: SharedStyleContext<S>,
    bloom: StyleBloom,
    before: Search,
    data_before: ElementData,
    after: Search,
    data_after: ElementData,
    index: usize,
    requirement: ChildCascadeRequirement,
)
    requires
        attempted(
            shared,
            bloom,
            before,
            data_before,
            after,
            data_after,
            StyleSharingResult::StyleWasShared(index, requirement),
        ),
    ensures
        !shared.options.disable_style_sharing_cache,
        index < before.candidates.len(),
        ({
            let target = before.target;
            let candidate = before.candidates[index as int];
            let t = target.element;
            let c = candidate.element;
            &&& t.parent is Some
            &&& c.parent is Some
            &&& t.parent->0.node == c.parent->0.node || t.parent->0.computed_values
                == c.parent->0.computed_values
            &&& !t.native_anonymous
            &&& !c.native_anonymous
            &&& t.local_name == c.local_name
            &&& t.namespace == c.namespace
            &&& t.link == c.link
            &&& t.user_and_author_rules == c.user_and_author_rules
            &&& t.state.other == c.state.other
            &&& t.style_attribute == c.style_attribute
            &&& t.id != c.id && t.id is Some ==> call_ensures(
                S::may_have_rules_for_id,
                (&shared.system, &t.id->0),
                false,
            )
            &&& t.id != c.id && c.id is Some ==> call_ensures(
                S::may_have_rules_for_id,
                (&shared.system, &c.id->0),
                false,
            )
            &&& same_classes(target, candidate)
            &&& target.validation.class_list is None && candidate.validation.class_list is None
                ==> t.classes@.to_multiset() == c.classes@.to_multiset()
            &&& target.validation.class_list is None && candidate.validation.class_list is None
                && t.classes@.len() > 5 ==> t.classes@ == c.classes@
            &&& own_hints(target) == own_hints(candidate)
            &&& target.validation.pres_hints is None && candidate.validation.pres_hints is None
                ==> t.unvisited_hints@ == c.unvisited_hints@
            &&& exists|results: Seq<bool>| #[trigger]
                may_result(shared.system, bloom, target, results) && may_result(
                    shared.system,
                    bloom,
                    candidate,
                    results,
                )
            &&& data_after.styles is Some
            &&& data_after.styles->0.primary == c.data->0.styles->0.primary
            &&& data_after.styles->0.pseudos@.len() == 0
        }),
{
    broadcast use vstd::seq_lib::group_to_multiset_ensures;

    let result = StyleSharingResult::StyleWasShared(index, requirement);
    if shared.options.disable_style_sharing_cache || before.target.element.parent is None
        || before.target.element.native_anonymous {
        law_refused_attempt_changes_nothing(
            shared,
            bloom,
            before,
            data_before,
            after,
            data_after,
            result,
        );
    }
    let at = law_attempt_goes_through_the_cache(
        shared,
        bloom,
        before,
        data_before,
        after,
        data_after,
        result,
    );
    let target = before.target;
    let candidate = before.candidates[at];
    let results = after.target.validation.revalidation->0;
    assert(may_result(shared.system, bloom, target, results));
    lemma_same_classes(target, candidate);
    let t = target.element.classes@;
    let c = candidate.element.classes@;
    lemma_class_order_lists(class_order(t), t);
    lemma_class_order_lists(class_order(c), c);
    assert(t.to_multiset().len() == t.len());
    assert(c.to_multiset().len() == c.len());
}

/// Nothing is shared with a cached element whose id differs and for whose id the style
/// system cannot but say that there may be rules, nor by an element for whose id it
/// cannot but say so.
pub proof fn law_rules_for_an_id_prevent_sharing<S: StyleSystem>(
    shared: SharedStyleContext<S>,
    bloom: StyleBloom,
    before: Search,
    data_before: ElementData,
    after: Search,
    data_after: ElementData,
    result: StyleSharingResult,
    index: usize,
)
    requires
        attempted(shared, bloom, before, data_before, after, data_after, result),
        index < before.candidates.len(),
        before.target.element.id != before.candidates[index as int].element.id,
        ({
            ||| before.candidates[index as int].element.id matches Some(id) && !call_ensures(
                S::may_have_rules_for_id,
                (&shared.system, &id),
                false,
            )
            ||| before.target.element.id matches Some(id) && !call_ensures(
                S::may_have_rules_for_id,
                (&shared.system, &id),
                false,
            )
        }),
    ensures
        !(result matches StyleSharingResult::StyleWasShared(at, _) && at == index),
{
    match result {
        StyleSharingResult::StyleWasShared(at, requirement) => {
            law_style_is_shared_with_a_like_element_only(
                shared,
                bloom,
                before,
                data_before,
                after,
                data_after,
                at,
                requirement,
            );
        },
        StyleSharingResult::CannotShare => {},
    }
}

/// Elements that do not have the same classes, each as often, never share.
pub proof fn law_different_classes_prevent_sharing<S: StyleSystem>(
    shared: SharedStyleContext<S>,
    bloom: StyleBloom,
    before: Search,
    data_before: ElementData,
    after: Search,
    data_after: ElementData,
    result: StyleSharingResult,
    index: usize,
)
    requires
        attempted(shared, bloom, before, data_before, after, data_after, result),
        index < before.candidates.len(),
        before.target.validation.class_list is None,
        before.candidates[index as int].validation.class_list is None,
        before.target.element.classes@.to_multiset()
            != before.candidates[index as int].element.classes@.to_multiset(),
    ensures
        !(result matches StyleSharingResult::StyleWasShared(at, _) && at == index),
{
    match result {
        StyleSharingResult::StyleWasShared(at, requirement) => {
            law_style_is_shared_with_a_like_element_only(
                shared,
                bloom,
                before,
                data_before,
                after,
                data_after,
                at,
                requirement,
            );
        },
        StyleSharingResult::CannotShare => {},
    }
}

/// When a style is shared, the style system has been handed the element, the restyle
/// data, the old values and the new ones, and has answered with restyle data and with
/// the requirement that is given. An element that was being restyled has these restyle
/// data now, whatever the requirement; one that was not has none.
pub proof fn law_damage_is_accumulated<S: StyleSystem>(
    shared: SharedStyleContext<S>,
    bloom: StyleBloom,
    before: Search,
    data_before: ElementData,
    after: Search,
    data_after: ElementData,
    index: usize,
    requirement: ChildCascadeRequirement,
    old_values: Option<ComputedValues>,
) -> (restyle: RestyleData)
    requires
        attempted(
            shared,
            bloom,
            before,
            data_before,
            after,
            data_after,
            StyleSharingResult::StyleWasShared(index, requirement),
        ),
        old_values == (match data_before.styles {
            Some(styles) => styles.primary.values,
            None => None,
        }),
    ensures
        call_ensures(
            S::accumulate_damage,
            (
                &shared.system,
                &before.target.element,
                data_before.restyle,
                old_values,
                &before.candidates[index as int].element.data->0.styles->0.primary.values->0,
            ),
            (restyle, requirement),
        ),
        data_before.restyle is Some ==> data_after.restyle == Some(restyle),
        data_before.restyle is None ==> data_after.restyle is None,
{
    let result = StyleSharingResult::StyleWasShared(index, requirement);
    law_style_is_shared_with_a_like_element_only(
        shared,
        bloom,
        before,
        data_before,
        after,
        data_after,
        index,
        requirement,
    );
    let at = law_attempt_goes_through_the_cache(
        shared,
        bloom,
        before,
        data_before,
        after,
        data_after,
        result,
    );
    let style = before.candidates[at].element.data->0.styles->0.primary;
    choose|restyle: RestyleData| #[trigger]
        may_damage(
            shared.system,
            before.target.element,
            data_before,
            style.values->0,
            restyle,
            requirement,
        ) && data_after.restyle == match data_before.restyle {
            Some(_) => Some(restyle),
            None => None,
        }
}

/// Whether `system` cannot but say that there may be rules for `id`, which there is.
pub open spec fn has_rules<S: StyleSystem>(system: S, id: Option<Atom>) -> bool {
    id matches Some(id) && !call_ensures(S::may_have_rules_for_id, (&system, &id), false)
}

/// Whether `system` cannot but say that there are no rules for `id`, if there is one.
pub open spec fn has_no_rules<S: StyleSystem>(system: S, id: Option<Atom>) -> bool {
    id matches Some(id) ==> !call_ensures(S::may_have_rules_for_id, (&system, &id), true)
}

/// Whether the two inherit the same styles, but one of the checks before the
/// presentational hints is sure to tell them apart.
pub open spec fn sure_to_be_passed_over<S: StyleSystem>(
    system: S,
    target: SharingFacts,
    candidate: SharingFacts,
) -> bool {
    let t = target.element;
    let c = candidate.element;
    &&& same_inheritance(t, c)
    &&& {
        ||| !same_kind(t, c)
        ||| t.id != c.id && (has_rules(system, t.id) || has_rules(system, c.id))
        ||| t.style_attribute != c.style_attribute
        ||| !same_classes(target, candidate)
    }
}

/// Whether none of the checks before the presentational hints can tell the two apart.
pub open spec fn sure_to_be_promising<S: StyleSystem>(
    system: S,
    target: SharingFacts,
    candidate: SharingFacts,
) -> bool {
    let t = target.element;
    let c = candidate.element;
    &&& same_inheritance(t, c)
    &&& same_kind(t, c)
    &&& t.id == c.id || has_no_rules(system, t.id) && has_no_rules(system, c.id)
    &&& t.style_attribute == c.style_attribute
    &&& same_classes(target, candidate)
}

/// Where all the cached elements before `at` are sure to be passed over, the one there
/// decides. If it does not inherit alike, nothing is shared and the cache is cleared.
/// If it is sure to be promising, its style is shared when it has the same hints and
/// cannot but have the same match results; nothing is shared, and every entry stays,
/// when it has different hints or cannot but have different match results. The same
/// holds when there is none left.
pub proof fn law_first_that_is_not_passed_over_decides<S: StyleSystem>(
    shared: SharedStyleContext<S>,
    bloom: StyleBloom,
    before: Search,
    data_before: ElementData,
    after: Search,
    data_after: ElementData,
    result: StyleSharingResult,
    at: int,
)
    requires
        attempted(shared, bloom, before, data_before, after, data_after, result),
        !shared.options.disable_style_sharing_cache,
        before.target.element.parent is Some,
        !before.target.element.native_anonymous,
        0 <= at <= before.candidates.len(),
        forall|i: int|
            0 <= i < at ==> sure_to_be_passed_over(
                shared.system,
                before.target,
                #[trigger] before.candidates[i],
            ),
    ensures
        ({
            let target = before.target;
            let candidate = before.candidates[at];
            let stays = {
                &&& result == StyleSharingResult::CannotShare
                &&& data_after == data_before
                &&& after.candidates.len() == before.candidates.len()
                &&& forall|i: int|
                    0 <= i < before.candidates.len() ==> (#[trigger] after.candidates[i]).element
                        == before.candidates[i].element
            };
            &&& at == before.candidates.len() ==> stays
            &&& at < before.candidates.len() ==> {
                &&& !same_inheritance(target.element, candidate.element) ==> {
                    &&& result == StyleSharingResult::CannotShare
                    &&& data_after == data_before
                    &&& after.candidates.len() == 0
                }
                &&& sure_to_be_promising(shared.system, target, candidate) ==> {
                    &&& own_hints(target) != own_hints(candidate) ==> stays
                    &&& own_hints(target) == own_hints(candidate) && (forall|
                        a: Seq<bool>,
                        b: Seq<bool>,
                    | #[trigger]
                        may_result(shared.system, bloom, target, a) && #[trigger] may_result(
                            shared.system,
                            bloom,
                            candidate,
                            b,
                        ) ==> a == b) ==> {
                        &&& result matches StyleSharingResult::StyleWasShared(index, _)
                        &&& index == at
                        &&& data_after.styles is Some
                        &&& data_after.styles->0.primary
                            == candidate.element.data->0.styles->0.primary
                    }
                    &&& (forall|a: Seq<bool>| #[trigger]
                        may_result(shared.system, bloom, target, a) ==> !may_result(
                            shared.system,
                            bloom,
                            candidate,
                            a,
                        )) ==> stays
                }
            }
        }),
{
    let reached = law_attempt_goes_through_the_cache(
        shared,
        bloom,
        before,
        data_before,
        after,
        data_after,
        result,
    );
    if reached < at {
        assert(sure_to_be_passed_over(
            shared.system,
            before.target,
            before.candidates[reached],
        ));
    }
    if reached == at && at < before.candidates.len() {
        assert(before.candidates[at] == before.candidates[reached]);
    }
    assert forall|i: int|
        after.candidates.len() == before.candidates.len() && 0 <= i < before.candidates.len()
            && i != reached implies (#[trigger] after.candidates[i]).element
        == before.candidates[i].element by {}
}

/// An element that has a parent, is no native anonymous content, has no pseudo-element
/// styles, and whose style specifies neither transitions nor animations, shares its
/// style once it has been offered to the cache: an element that is alike takes it over
/// from the first entry. That holds whatever part of what the two have is known
/// already, provided that they cannot but have the same match results.
pub proof fn law_like_of_an_offered_element_shares<S: StyleSystem>(
    shared: SharedStyleContext<S>,
    bloom: StyleBloom,
    entries: Seq<SharingFacts>,
    element: Element,
    style: ComputedValues,
    relations: StyleRelations,
    validation: ValidationFacts,
    before: Search,
    data_before: ElementData,
    after: Search,
    data_after: ElementData,
    result: StyleSharingResult,
)
    requires
        element.parent is Some,
        !element.native_anonymous,
        relations.bits & 8 == 0,
        !style.box_style.transitions,
        !style.box_style.animations,
        relations.bits & 4 == 0 ==> element.unvisited_hints@.len() == 0,
        validation.class_list matches Some(list) ==> lists(list, element.classes@),
        validation.pres_hints matches Some(hints) ==> hints == element.unvisited_hints@,
        before.candidates == offered(entries, element, style, relations, validation),
        !shared.options.disable_style_sharing_cache,
        ({
            let t = before.target.element;
            &&& t.parent is Some
            &&& t.parent->0.node == element.parent->0.node || t.parent->0.computed_values
                == element.parent->0.computed_values
            &&& !t.native_anonymous
            &&& t.local_name == element.local_name
            &&& t.namespace == element.namespace
            &&& t.link == element.link
            &&& t.user_and_author_rules == element.user_and_author_rules
            &&& t.state.other == element.state.other
            &&& t.id == element.id || has_no_rules(shared.system, t.id) && has_no_rules(
                shared.system,
                element.id,
            )
            &&& t.style_attribute == element.style_attribute
            &&& t.classes@ == element.classes@ || t.classes@.len() <= 5 && element.classes@.len()
                <= 5 && forall|hash: u32| #[trigger]
                of_hash(t.classes@, hash) == of_hash(element.classes@, hash)
            &&& t.unvisited_hints@ == element.unvisited_hints@
            &&& before.target.validation.class_list matches Some(list) ==> lists(list, t.classes@)
            &&& before.target.validation.pres_hints matches Some(hints) ==> hints
                == t.unvisited_hints@
        }),
        forall|a: Seq<bool>, b: Seq<bool>| #[trigger]
            may_result(shared.system, bloom, before.target, a) && #[trigger] may_result(
                shared.system,
                bloom,
                before.candidates[0],
                b,
            ) ==> a == b,
        attempted(shared, bloom, before, data_before, after, data_after, result),
    ensures
        before.candidates[0].element == element,
        result matches StyleSharingResult::StyleWasShared(index, _) && index == 0,
        data_after.styles is Some,
        data_after.styles->0.primary == element.data->0.styles->0.primary,
{
    let bits = relations.bits;
    assert(bits & 8usize & 15usize == bits & 8usize) by (bit_vector);
    assert(bits & 4usize & 15usize == bits & 4usize) by (bit_vector);
    let t = before.target;
    let c = before.candidates[0];
    assert(c.element == element);
    assert(own_hints(t) == own_hints(c));
    law_class_lists_are_the_same_for_the_same_classes(
        ValidationFacts::unknown(),
        t.element,
        ValidationFacts::unknown(),
        element,
    );
    lemma_class_order_lists(t.validation.classes(t.element), t.element.classes@);
    lemma_class_order_lists(c.validation.classes(element), element.classes@);
    lemma_same_classes(t, c);
    law_first_that_is_not_passed_over_decides(
        shared,
        bloom,
        before,
        data_before,
        after,
        data_after,
        result,
        0,
    );
}

} // verus!
