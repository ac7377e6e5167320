//! Data of an element that take some work to come by, and are kept.

use crate::atom::Atom;
use crate::bits::bits_of;
use crate::bloom::StyleBloom;
use crate::class_order::{ordered_by_hash, sort_by_hash};
use crate::dom::{Element, VisitedHandlingMode};
use crate::inline_list::{atom_items, block_items, AtomList, BlockList, INLINE_ITEMS};
use crate::stylist::{ApplicableDeclarationBlock, FlaggedElement, RevalidationMatch, StyleSystem};
use bit_vec::BitVec;
use selectors::bloom::BloomFilter;
use vstd::prelude::*;

verus! {

/// The classes of an element in the order in which they are compared.
///
/// As long as they are few their hashes give the order, so that "foo bar" and
/// "bar foo" are the same. Many classes stay as they are.
pub open spec fn class_order(classes: Seq<Atom>) -> Seq<Atom> {
    if classes.len() <= INLINE_ITEMS {
        ordered_by_hash(classes)
    } else {
        classes
    }
}

/// The filter that serves to match `element`: the one of `bloom` where it is known
/// to be, or is, set up for the children of the element's parent.
pub open spec fn filter_to_use(
    bloom: &StyleBloom,
    element: Element,
    bloom_known_valid: bool,
) -> Option<&BloomFilter> {
    if bloom_known_valid || bloom.current_parent == element.parent_node() {
        Some(&*bloom.filter)
    } else {
        None
    }
}

/// Whether `system`, asked to match `element` against the revalidation selectors
/// with the help of `filter`, may answer `found`.
pub open spec fn match_found<S: StyleSystem>(
    system: S,
    element: Element,
    filter: Option<&BloomFilter>,
    found: RevalidationMatch,
) -> bool {
    call_ensures(S::match_revalidation_selectors, (&system, &element, filter), found)
}

/// Whether `system`, asked to match `element` against the revalidation selectors,
/// may answer `found`. It gets the filter of `bloom` exactly where that is set up
/// for the children of the element's parent.
#[verifier::inline]
pub open spec fn matched<S: StyleSystem>(
    system: S,
    bloom: StyleBloom,
    element: Element,
    found: RevalidationMatch,
) -> bool {
    match_found(system, element, filter_to_use(&bloom, element, false), found)
}

/// Whether asking for the match results of `element` gives `results`, takes what is
/// known of it from `before` to `after`, and the flags that are to be set from
/// `flags_before` to `flags_after`. Results that are known are not worked out again.
pub open spec fn revalidated<S: StyleSystem>(
    system: S,
    bloom: StyleBloom,
    element: Element,
    bloom_known_valid: bool,
    before: ValidationFacts,
    flags_before: Seq<FlaggedElement>,
    results: Seq<bool>,
    after: ValidationFacts,
    flags_after: Seq<FlaggedElement>,
) -> bool {
    match before.revalidation {
        Some(known) => {
            &&& results == known
            &&& after == before
            &&& flags_after == flags_before
        },
        None => exists|found: RevalidationMatch| #[trigger]
            match_found(
                system,
                element,
                filter_to_use(&bloom, element, bloom_known_valid),
                found,
            ) && {
                &&& results == bits_of(found.results)
                &&& after == before.with_results(found)
                &&& flags_after == flags_before + found.flags@
            },
    }
}

/// What [`ValidationData`] holds.
#[verifier::ext_equal]
pub struct ValidationFacts {
    /// The classes, in the order of comparison.
    pub class_list: Option<Seq<Atom>>,
    /// The presentational hints.
    pub pres_hints: Option<Seq<ApplicableDeclarationBlock>>,
    /// The results of matching against the revalidation selectors.
    pub revalidation: Option<Seq<bool>>,
}

impl ValidationFacts {
    /// Nothing is known yet.
    pub open spec fn unknown() -> Self {
        ValidationFacts { class_list: None, pres_hints: None, revalidation: None }
    }

    /// The classes of `element`: those that are known, else those it has.
    pub open spec fn classes(self, element: Element) -> Seq<Atom> {
        match self.class_list {
            Some(classes) => classes,
            None => class_order(element.classes@),
        }
    }

    /// The presentational hints of `element`: those that are known, else those it
    /// has when all links are unvisited.
    pub open spec fn hints(self, element: Element) -> Seq<ApplicableDeclarationBlock> {
        match self.pres_hints {
            Some(hints) => hints,
            None => element.hints(VisitedHandlingMode::AllLinksUnvisited),
        }
    }

    /// The match results of an element: those that are known, else `found`.
    pub open spec fn results(self, found: RevalidationMatch) -> Seq<bool> {
        match self.revalidation {
            Some(results) => results,
            None => bits_of(found.results),
        }
    }

    /// With the classes of `element` known.
    pub open spec fn with_classes(self, element: Element) -> Self {
        ValidationFacts { class_list: Some(self.classes(element)), ..self }
    }

    /// With the presentational hints of `element` known.
    pub open spec fn with_hints(self, element: Element) -> Self {
        ValidationFacts { pres_hints: Some(self.hints(element)), ..self }
    }

    /// With the match results known: `found`, where there were none.
    pub open spec fn with_results(self, found: RevalidationMatch) -> Self {
        ValidationFacts { revalidation: Some(self.results(found)), ..self }
    }

    /// With the presentational hints known to be none.
    pub open spec fn without_hints(self) -> Self {
        ValidationFacts { pres_hints: Some(Seq::empty()), ..self }
    }
}

/// Some data we want to avoid recomputing all the time while trying to share
/// style.
#[derive(Debug)]
pub struct ValidationData {
    class_list: Option<AtomList>,
    pres_hints: Option<BlockList>,
    revalidation_match_results: Option<BitVec>,
}

impl View for ValidationData {
    type V = ValidationFacts;

    closed spec fn view(&self) -> ValidationFacts {
        ValidationFacts {
            class_list: match self.class_list {
                Some(list) => Some(atom_items(list)),
                None => None,
            },
            pres_hints: match self.pres_hints {
                Some(list) => Some(block_items(list)),
                None => None,
            },
            revalidation: match self.revalidation_match_results {
                Some(bits) => Some(bits_of(bits)),
                None => None,
            },
        }
    }
}

impl Default for ValidationData {
    /// Nothing is known yet.
    fn default() -> (data: Self)
        ensures
            data@ == ValidationFacts::unknown(),
    {
        ValidationData { class_list: None, pres_hints: None, revalidation_match_results: None }
    }
}

impl ValidationData {
    /// Move the cached data to a new instance, and return it.
    pub fn take(&mut self) -> (taken: Self)
        ensures
            taken == *old(self),
            final(self)@ == ValidationFacts::unknown(),
    {
        let mut taken = ValidationData::default();
        std::mem::swap(self, &mut taken);
        taken
    }

    /// Get or compute the list of presentational attributes associated with
    /// this element.
    pub fn pres_hints(&mut self, element: &Element) -> (hints: &[ApplicableDeclarationBlock])
        ensures
            hints@ == old(self)@.hints(*element),
            final(self)@ == old(self)@.with_hints(*element),
    {
        if self.pres_hints.is_none() {
            let mut pres_hints = BlockList::new();
            element.synthesize_presentational_hints_for_legacy_attributes(
                VisitedHandlingMode::AllLinksUnvisited,
                &mut pres_hints,
            );
            self.pres_hints = Some(pres_hints);
        }
        self.pres_hints.as_ref().unwrap().as_slice()
    }

    /// Get or compute the class-list associated with this element.
    pub fn class_list(&mut self, element: &Element) -> (classes: &[Atom])
        ensures
            classes@ == old(self)@.classes(*element),
            final(self)@ == old(self)@.with_classes(*element),
    {
        if self.class_list.is_none() {
            let mut class_list = AtomList::new();
            let mut i: usize = 0;
            while i < element.classes.len()
                invariant
                    i <= element.classes.len(),
                    atom_items(class_list) == element.classes@.take(i as int),
                decreases element.classes.len() - i,
            {
                class_list.push(element.classes[i]);
                i += 1;
            }
            assert(element.classes@.take(i as int) == element.classes@);
            // Assuming there are a reasonable number of classes (we use the
            // inline capacity as "reasonable number"), sort them to so that
            // we don't mistakenly reject sharing candidates when one element
            // has "foo bar" and the other has "bar foo".
            if !class_list.spilled() {
                sort_by_hash(class_list.as_mut_slice());
            }
            self.class_list = Some(class_list);
        }
        self.class_list.as_ref().unwrap().as_slice()
    }

    /// Computes the revalidation results if needed, and returns it. The flags that
    /// matching finds should be set are appended to `flags_set`.
    pub fn revalidation_match_results<S: StyleSystem>(
        &mut self,
        element: &Element,
        system: &S,
        bloom: &StyleBloom,
        bloom_known_valid: bool,
        flags_set: &mut Vec<FlaggedElement>,
    ) -> (results: &BitVec)
        requires
            bloom_known_valid && old(self)@.revalidation is None ==> bloom.current_parent
                == element.parent_node(),
        ensures
            revalidated(
                *system,
                *bloom,
                *element,
                bloom_known_valid,
                old(self)@,
                old(flags_set)@,
                bits_of(*results),
                final(self)@,
                final(flags_set)@,
            ),
    {
        if self.revalidation_match_results.is_none() {
            // The bloom filter may already be set up for our element.
            // If it is, use it.  If not, we must be in a candidate
            // (i.e. something in the cache), and the element is one
            // of our cousins, not a sibling.  In that case, we'll
            // just do revalidation selector matching without a bloom
            // filter, to avoid thrashing the filter.
            let bloom_to_use: Option<&BloomFilter> = if bloom_known_valid {
                Some(&*bloom.filter)
            } else if bloom.is_set_up_for(element) {
                Some(&*bloom.filter)
            } else {
                None
            };
            let found = system.match_revalidation_selectors(element, bloom_to_use);
            assert(match_found(*system, *element, bloom_to_use, found));
            let mut flags = found.flags;
            flags_set.append(&mut flags);
            self.revalidation_match_results = Some(found.results);
        }
        self.revalidation_match_results.as_ref().unwrap()
    }

    /// Takes note that the element has no presentational hints.
    pub(crate) fn set_no_pres_hints(&mut self)
        ensures
            final(self)@ == old(self)@.without_hints(),
    {
        self.pres_hints = Some(BlockList::new());
    }
}

} // verus!
