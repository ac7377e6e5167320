//! What comes out of holding an element against one cached element after the
//! other.

use crate::bloom::StyleBloom;
use crate::context::{AppliedFlags, SharedStyleContext};
use crate::data::{ComputedStyle, ElementData, RestyleData};
use crate::dom::Element;
use crate::outcome::{
    answered, cacheable, tested, Answers, CacheMiss, SharingFacts, StyleSharingResult, Tested,
};
use crate::stylist::{ChildCascadeRequirement, StyleSystem};
use vstd::prelude::*;

verus! {

/// How far a search for a style to share has come.
#[verifier::ext_equal]
pub struct Search {
    /// What is known of the element.
    pub target: SharingFacts,
    /// What is known of the cached elements.
    pub candidates: Seq<SharingFacts>,
    /// The selector flags that wait to be set.
    pub flags: Seq<AppliedFlags>,
}

/// How a search ends.
pub enum SearchEnd {
    /// The style of the cached element at `index` is shared.
    Shared {
        /// Where in the cache the element is.
        index: int,
        /// Its style.
        style: ComputedStyle,
    },
    /// There is none to share with.
    Missed {
        /// Whether the cached elements are of no use any more.
        clear: bool,
    },
}

/// Whether the search goes on after a miss. It does not when the parents did not
/// match, nor after a check that is too expensive to do twice.
pub open spec fn goes_on(miss: CacheMiss) -> bool {
    !(miss is Parent || miss is PresHints || miss is Revalidation)
}

impl Search {
    /// What comes out of holding the element against the cached one at `index`.
    pub open spec fn test(self, index: int, answers: Answers) -> Tested {
        tested(self.target, self.candidates[index], self.flags, answers)
    }

    /// How far the search has come when that is done.
    pub open spec fn after(self, index: int, answers: Answers) -> Search {
        let done = self.test(index, answers);
        Search {
            target: done.target,
            candidates: self.candidates.update(index, done.candidate),
            flags: done.flags,
        }
    }

    /// How the search ends that goes through the cached elements from `index` on,
    /// given what the style system answers for each of them.
    pub open spec fn end(self, index: int, answers: Seq<Answers>) -> (Search, SearchEnd)
        decreases self.candidates.len() - index,
    {
        if !(0 <= index < self.candidates.len()) {
            (self, SearchEnd::Missed { clear: false })
        } else {
            let next = self.after(index, answers[index]);
            match self.test(index, answers[index]).result {
                Ok(style) => (next, SearchEnd::Shared { index, style }),
                Err(miss) => if goes_on(miss) {
                    next.end(index + 1, answers)
                } else {
                    (next, SearchEnd::Missed { clear: miss is Parent })
                },
            }
        }
    }

    /// Whether `answers` are what `system` says in the course of that search.
    pub open spec fn answered<S: StyleSystem>(
        self,
        system: S,
        bloom: StyleBloom,
        index: int,
        answers: Seq<Answers>,
    ) -> bool
        decreases self.candidates.len() - index,
    {
        0 <= index < self.candidates.len() ==> {
            &&& answered(system, bloom, self.target, self.candidates[index], answers[index])
            &&& (self.test(index, answers[index]).result matches Err(miss) && goes_on(miss))
                ==> self.after(index, answers[index]).answered(system, bloom, index + 1, answers)
        }
    }
}

/// Whether `after` are the data of `element` once it has taken over `style`, and
/// `requirement` what that means for its children.
///
/// `system` accumulates the damage on the way from the old values to those of
/// `style`; the element then has no pseudo-element styles.
pub open spec fn taken_over<S: StyleSystem>(
    system: S,
    element: Element,
    before: ElementData,
    style: ComputedStyle,
    after: ElementData,
    requirement: ChildCascadeRequirement,
) -> bool {
    exists|restyle: RestyleData| #[trigger]
        damaged(system, element, before, style, restyle, requirement) && after.adopted(
            before,
            style,
            restyle,
        )
}

/// Whether `system`, asked to accumulate the damage that `element` suffers when
/// it takes over `style`, may answer with `restyle` and `requirement`.
pub open spec fn damaged<S: StyleSystem>(
    system: S,
    element: Element,
    before: ElementData,
    style: ComputedStyle,
    restyle: RestyleData,
    requirement: ChildCascadeRequirement,
) -> bool {
    call_ensures(
        S::accumulate_damage,
        (&system, &element, before.restyle, before.primary_values(), &style.values->0),
        (restyle, requirement),
    )
}

/// Whether a search through the cached elements, from the first one on, takes
/// `before` to `after`, the data of the element from `data_before` to
/// `data_after`, and gives `result`.
pub open spec fn searched<S: StyleSystem>(
    system: S,
    bloom: StyleBloom,
    before: Search,
    data_before: ElementData,
    answers: Seq<Answers>,
    after: Search,
    data_after: ElementData,
    result: StyleSharingResult,
) -> bool {
    &&& before.answered(system, bloom, 0, answers)
    &&& match before.end(0, answers) {
        (end, SearchEnd::Shared { index, style }) => {
            &&& after == end
            &&& result matches StyleSharingResult::StyleWasShared(shared, requirement)
            &&& shared == index
            &&& taken_over(
                system,
                before.target.element,
                data_before,
                style,
                data_after,
                requirement,
            )
        },
        (end, SearchEnd::Missed { clear }) => {
            &&& after == Search {
                candidates: if clear {
                    Seq::empty()
                } else {
                    end.candidates
                },
                ..end
            }
            &&& result is CannotShare
            &&& data_after == data_before
        },
    }
}

/// Whether an attempt to share style takes `before` to `after`, the data of the
/// element from `data_before` to `data_after`, and gives `result`.
///
/// Nothing happens where sharing is off, or is not for this element.
pub open spec fn attempted<S: StyleSystem>(
    shared: SharedStyleContext<S>,
    bloom: StyleBloom,
    before: Search,
    data_before: ElementData,
    after: Search,
    data_after: ElementData,
    result: StyleSharingResult,
) -> bool {
    if shared.options.disable_style_sharing_cache || !cacheable(before.target.element) {
        &&& after == before
        &&& data_after == data_before
        &&& result is CannotShare
    } else {
        exists|answers: Seq<Answers>| #[trigger]
            searched(
                shared.system,
                bloom,
                before,
                data_before,
                answers,
                after,
                data_after,
                result,
            )
    }
}

/// Whether a search from `start` has come to `now`, with the cached elements from
/// `index` on still to come, whatever is answered for those.
pub open spec fn leads_to<S: StyleSystem>(
    system: S,
    bloom: StyleBloom,
    start: Search,
    now: Search,
    index: int,
    answers: Seq<Answers>,
) -> bool {
    &&& answers.len() == index
    &&& forall|rest: Seq<Answers>|
        {
            &&& start.end(0, #[trigger] (answers + rest)) == now.end(index, answers + rest)
            &&& now.answered(system, bloom, index, answers + rest) ==> start.answered(
                system,
                bloom,
                0,
                answers + rest,
            )
        }
}

/// A search that goes on after a miss comes to the next cached element.
pub(crate) proof fn lemma_search_goes_on<S: StyleSystem>(
    system: S,
    bloom: StyleBloom,
    start: Search,
    now: Search,
    index: int,
    answers: Seq<Answers>,
    answer: Answers,
)
    requires
        leads_to(system, bloom, start, now, index, answers),
        0 <= index < now.candidates.len(),
        answered(system, bloom, now.target, now.candidates[index], answer),
        now.test(index, answer).result matches Err(miss) && goes_on(miss),
    ensures
        leads_to(
            system,
            bloom,
            start,
            now.after(index, answer),
            index + 1,
            answers.push(answer),
        ),
{
    let longer = answers.push(answer);
    assert forall|rest: Seq<Answers>|
        {
            &&& start.end(0, #[trigger] (longer + rest)) == now.after(index, answer).end(
                index + 1,
                longer + rest,
            )
            &&& now.after(index, answer).answered(system, bloom, index + 1, longer + rest)
                ==> start.answered(system, bloom, 0, longer + rest)
        } by {
        assert(longer + rest == answers + (seq![answer] + rest));
    }
}

/// A search ends where it does not go on.
pub(crate) proof fn lemma_search_ends<S: StyleSystem>(
    system: S,
    bloom: StyleBloom,
    start: Search,
    now: Search,
    index: int,
    answers: Seq<Answers>,
    answer: Answers,
)
    requires
        leads_to(system, bloom, start, now, index, answers),
        0 <= index < now.candidates.len(),
        answered(system, bloom, now.target, now.candidates[index], answer),
        !(now.test(index, answer).result matches Err(miss) && goes_on(miss)),
    ensures
        start.answered(system, bloom, 0, answers.push(answer)),
        start.end(0, answers.push(answer)) == match now.test(index, answer).result {
            Ok(style) => (now.after(index, answer), SearchEnd::Shared { index, style }),
            Err(miss) => (
                now.after(index, answer),
                SearchEnd::Missed { clear: miss is Parent },
            ),
        },
{
    let longer = answers.push(answer);
    assert(longer == answers + seq![answer]);
}

/// A search through all the cached elements ends without one to share with.
pub(crate) proof fn lemma_search_is_over<S: StyleSystem>(
    system: S,
    bloom: StyleBloom,
    start: Search,
    now: Search,
    answers: Seq<Answers>,
)
    requires
        leads_to(system, bloom, start, now, now.candidates.len() as int, answers),
    ensures
        start.answered(system, bloom, 0, answers),
        start.end(0, answers) == (now, SearchEnd::Missed { clear: false }),
{
    assert(answers == answers + Seq::<Answers>::empty());
}

} // verus!
