//! What comes out of holding an element against the cached ones.

use crate::atom::Atom;
use crate::bloom::StyleBloom;
use crate::context::{flags_applied, AppliedFlags};
use crate::data::ComputedStyle;
use crate::dom::{Element, ParentElement};
use crate::stylist::{ChildCascadeRequirement, RevalidationMatch, StyleSystem};
use crate::validation::{matched, ValidationFacts};
use vstd::prelude::*;

verus! {

/// A cache miss result.
#[derive(Clone, Copy, Debug, PartialEq, Eq, Structural)]
pub enum CacheMiss {
    /// The parents don't match.
    Parent,
    /// One element was NAC, while the other wasn't.
    NativeAnonymousContent,
    /// The local name of the element and the candidate don't match.
    LocalName,
    /// The namespace of the element and the candidate don't match.
    Namespace,
    /// One of the element or the candidate was a link, but the other one
    /// wasn't.
    Link,
    /// The element and the candidate match different kind of rules.
    UserAndAuthorRules,
    /// The element and the candidate are in a different state.
    State,
    /// The element and the candidate have different ids, and there may be rules
    /// for one of them.
    IdAttr,
    /// The element and the candidate have different style attributes.
    StyleAttr,
    /// The element and the candidate class names didn't match.
    Class,
    /// The presentation hints didn't match.
    PresHints,
    /// The element and the candidate didn't match the same set of revalidation
    /// selectors.
    Revalidation,
}

/// The results of attempting to share a style.
#[derive(Clone, Copy, Debug, PartialEq, Eq, Structural)]
pub enum StyleSharingResult {
    /// We didn't find anybody to share the style with.
    CannotShare,
    /// The node's style can be shared. The integer specifies the index in the
    /// LRU cache that was hit and the damage that was done. The
    /// `ChildCascadeRequirement` indicates whether style changes due to using
    /// the shared style mean we need to recascade to children.
    StyleWasShared(usize, ChildCascadeRequirement),
}

/// An element and what is already known of it.
#[verifier::ext_equal]
pub struct SharingFacts {
    /// The element.
    pub element: Element,
    /// What is known of it.
    pub validation: ValidationFacts,
}

/// Whether an element may share style at all, be it to give or to take: it has a
/// parent and is no native anonymous content.
pub open spec fn cacheable(element: Element) -> bool {
    element.parent is Some && !element.native_anonymous
}

/// What the style system answers while an element is held against a cached one.
pub struct Answers {
    /// Whether there may be rules for one of the two ids.
    pub rules_for_ids: bool,
    /// How the element matches the revalidation selectors.
    pub target_match: RevalidationMatch,
    /// How the cached element matches them.
    pub candidate_match: RevalidationMatch,
}

/// Whether the children of the two parents inherit the same styles: they have one
/// and the same parent, or parents with one and the same computed values.
pub open spec fn inherit_alike(left: Option<ParentElement>, right: Option<ParentElement>) -> bool {
    match (left, right) {
        (Some(left), Some(right)) => left.node == right.node || left.computed_values
            == right.computed_values,
        (None, None) => true,
        _ => false,
    }
}

/// The first difference between the element and the cached one that comes before
/// their ids are looked at.
pub open spec fn miss_before_ids(target: Element, candidate: Element) -> Option<CacheMiss> {
    if !inherit_alike(target.parent, candidate.parent) {
        Some(CacheMiss::Parent)
    } else if target.native_anonymous || candidate.native_anonymous {
        Some(CacheMiss::NativeAnonymousContent)
    } else if target.local_name != candidate.local_name {
        Some(CacheMiss::LocalName)
    } else if target.namespace != candidate.namespace {
        Some(CacheMiss::Namespace)
    } else if target.link != candidate.link {
        Some(CacheMiss::Link)
    } else if target.user_and_author_rules != candidate.user_and_author_rules {
        Some(CacheMiss::UserAndAuthorRules)
    } else if target.state.other != candidate.state.other {
        Some(CacheMiss::State)
    } else {
        None
    }
}

/// The first difference that comes before their classes are looked at.
pub open spec fn miss_before_classes(
    target: Element,
    candidate: Element,
    rules_for_ids: bool,
) -> Option<CacheMiss> {
    if miss_before_ids(target, candidate) is Some {
        miss_before_ids(target, candidate)
    } else if target.id != candidate.id && rules_for_ids {
        Some(CacheMiss::IdAttr)
    } else if target.style_attribute != candidate.style_attribute {
        Some(CacheMiss::StyleAttr)
    } else {
        None
    }
}

/// Whether the two are alike in everything that comes before the revalidation
/// selectors.
pub open spec fn alike(target: SharingFacts, candidate: SharingFacts, rules_for_ids: bool) -> bool {
    &&& miss_before_classes(target.element, candidate.element, rules_for_ids) is None
    &&& target.validation.classes(target.element) == candidate.validation.classes(candidate.element)
    &&& target.validation.hints(target.element) == candidate.validation.hints(candidate.element)
}

/// Whether the element can come to share the style of the cached one, as far as
/// that is not for the style system to say.
pub open spec fn could_share(target: SharingFacts, candidate: SharingFacts) -> bool {
    alike(target, candidate, false)
}

/// The selector flags that wait to be set once the match results of `target` are
/// known: those that matching asked for are added, if it had to be done.
pub open spec fn flags_after_matching(
    target: SharingFacts,
    flags: Seq<AppliedFlags>,
    answers: Answers,
) -> Seq<AppliedFlags> {
    if target.validation.revalidation is None {
        flags + flags_applied(target.element.node, answers.target_match.flags@)
    } else {
        flags
    }
}

/// What comes out of holding an element against a cached one.
#[verifier::ext_equal]
pub struct Tested {
    /// What is known of the element then.
    pub target: SharingFacts,
    /// What is known of the cached element then.
    pub candidate: SharingFacts,
    /// The selector flags that wait to be set then.
    pub flags: Seq<AppliedFlags>,
    /// The style to share, or the first difference.
    pub result: Result<ComputedStyle, CacheMiss>,
}

/// Holds `target` against `candidate`, given what the style system answers.
///
/// The checks come in a fixed order, the first that fails gives the miss, and what
/// is worked out on the way is kept.
pub open spec fn tested(
    target: SharingFacts,
    candidate: SharingFacts,
    flags: Seq<AppliedFlags>,
    answers: Answers,
) -> Tested {
    let t = target.element;
    let c = candidate.element;
    let target1 = SharingFacts { validation: target.validation.with_classes(t), ..target };
    let candidate1 = SharingFacts { validation: candidate.validation.with_classes(c), ..candidate };
    let target2 = SharingFacts { validation: target1.validation.with_hints(t), ..target };
    let candidate2 = SharingFacts { validation: candidate1.validation.with_hints(c), ..candidate };
    let target3 = SharingFacts {
        validation: target2.validation.with_results(answers.target_match),
        ..target
    };
    let candidate3 = SharingFacts {
        validation: candidate2.validation.with_results(answers.candidate_match),
        ..candidate
    };
    let flags3 = flags_after_matching(target, flags, answers);
    let early = miss_before_classes(t, c, answers.rules_for_ids);
    if early is Some {
        Tested { target, candidate, flags, result: Err(early->0) }
    } else if target1.validation.classes(t) != candidate1.validation.classes(c) {
        Tested { target: target1, candidate: candidate1, flags, result: Err(CacheMiss::Class) }
    } else if target2.validation.hints(t) != candidate2.validation.hints(c) {
        Tested { target: target2, candidate: candidate2, flags, result: Err(CacheMiss::PresHints) }
    } else if target3.validation.revalidation != candidate3.validation.revalidation {
        Tested {
            target: target3,
            candidate: candidate3,
            flags: flags3,
            result: Err(CacheMiss::Revalidation),
        }
    } else {
        Tested {
            target: target3,
            candidate: candidate3,
            flags: flags3,
            result: Ok(c.primary_style()),
        }
    }
}

/// Whether `system`, asked about rules for `id`, may answer `answer`.
pub open spec fn id_answered<S: StyleSystem>(system: S, id: Atom, answer: bool) -> bool {
    call_ensures(S::may_have_rules_for_id, (&system, &id), answer)
}

/// Whether `answer` is what `system` says of the two ids: that there may be rules
/// for one of them, or that there are none for either.
pub open spec fn ids_answered<S: StyleSystem>(
    system: S,
    first: Option<Atom>,
    second: Option<Atom>,
    answer: bool,
) -> bool {
    if answer {
        ||| first matches Some(id) && id_answered(system, id, true)
        ||| second matches Some(id) && id_answered(system, id, true)
    } else {
        &&& first matches Some(id) ==> id_answered(system, id, false)
        &&& second matches Some(id) ==> id_answered(system, id, false)
    }
}

/// Whether the matches in `answers` are what `system` finds for `target` and for
/// `candidate`, where it is not known yet how they match.
pub open spec fn matches_answered<S: StyleSystem>(
    system: S,
    bloom: StyleBloom,
    target: SharingFacts,
    candidate: SharingFacts,
    answers: Answers,
) -> bool {
    &&& target.validation.revalidation is None ==> matched(
        system,
        bloom,
        target.element,
        answers.target_match,
    )
    &&& candidate.validation.revalidation is None ==> matched(
        system,
        bloom,
        candidate.element,
        answers.candidate_match,
    )
}

/// Whether `answers` are what `system` says while `target` is held against
/// `candidate`. It is asked about ids only when they differ, and about the
/// revalidation selectors only when nothing else tells the two apart and the
/// results are not known yet.
pub open spec fn answered<S: StyleSystem>(
    system: S,
    bloom: StyleBloom,
    target: SharingFacts,
    candidate: SharingFacts,
    answers: Answers,
) -> bool {
    &&& miss_before_ids(target.element, candidate.element) is None && target.element.id
        != candidate.element.id ==> ids_answered(
        system,
        target.element.id,
        candidate.element.id,
        answers.rules_for_ids,
    )
    &&& alike(target, candidate, answers.rules_for_ids) ==> matches_answered(
        system,
        bloom,
        target,
        candidate,
        answers,
    )
}

} // verus!
