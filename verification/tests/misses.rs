use bit_vec::BitVec;
use selectors::bloom::BloomFilter;
use std::sync::Arc;
use style_sharing::atom::Atom;
use style_sharing::bloom::StyleBloom;
use style_sharing::context::{SelectorFlagsMap, SharedStyleContext, StyleSystemOptions};
use style_sharing::data::{ComputedStyle, ElementData, ElementStyles, RestyleData};
use style_sharing::dom::{Element, ElementState, OpaqueNode, ParentElement};
use style_sharing::properties::{BoxStyle, ComputedValues};
use style_sharing::stylist::{
    ApplicableDeclarationBlock, ChildCascadeRequirement, RevalidationMatch, StyleSystem,
};
use style_sharing::{
    CacheMiss, StyleSharingCandidate, StyleSharingCandidateCache, StyleSharingTarget,
    ValidationData,
};

/// Matches an element as its number says, and has rules for every id.
struct ByNumber(fn(u64) -> BitVec);

/// One bit, which says whether the number is even.
fn parity(number: u64) -> BitVec {
    BitVec::from_elem(1, number % 2 == 0)
}

impl StyleSystem for ByNumber {
    fn may_have_rules_for_id(&self, _id: &Atom) -> bool {
        true
    }

    fn match_revalidation_selectors(
        &self,
        element: &Element,
        _filter: Option<&BloomFilter>,
    ) -> RevalidationMatch {
        RevalidationMatch { results: (self.0)(element.node.number), flags: vec![] }
    }

    fn accumulate_damage(
        &self,
        _element: &Element,
        _restyle: Option<RestyleData>,
        _old_values: Option<ComputedValues>,
        _new_values: &ComputedValues,
    ) -> (RestyleData, ChildCascadeRequirement) {
        (RestyleData { hint: 0, damage: 0 }, ChildCascadeRequirement::CanSkipCascade)
    }
}

fn atom(id: u64) -> Atom {
    Atom { id, hash: id as u32 }
}

fn style(identity: u64) -> ComputedStyle {
    let box_style = BoxStyle { transitions: false, animations: false };
    ComputedStyle { rules: 1, values: Some(ComputedValues { identity, box_style }) }
}

fn element(number: u64) -> Element {
    Element {
        node: OpaqueNode { number },
        parent: Some(ParentElement { node: OpaqueNode { number: 1 }, computed_values: 100 }),
        native_anonymous: false,
        local_name: atom(1),
        namespace: atom(2),
        link: false,
        user_and_author_rules: true,
        state: ElementState { visited: false, other: 0 },
        id: None,
        style_attribute: Some(3),
        classes: vec![],
        unvisited_hints: vec![],
        visited_hints: vec![],
        data: Some(ElementData {
            styles: Some(ElementStyles::new(style(number))),
            restyle: None,
        }),
    }
}

fn candidate(element: Element) -> StyleSharingCandidate {
    StyleSharingCandidate::new(Arc::new(element), ValidationData::default())
}

/// Holds the element that `change` makes of number 4 against number 2.
fn test(change: fn(&mut Element)) -> Result<ComputedStyle, CacheMiss> {
    let mut changed = element(4);
    change(&mut changed);
    hold_against(changed, element(2), parity)
}

/// Holds `target` against `cached`, their match results being those of `results`.
fn hold_against(
    target: Element,
    cached: Element,
    results: fn(u64) -> BitVec,
) -> Result<ComputedStyle, CacheMiss> {
    let parent = target.parent.map(|parent| parent.node);
    let mut target = StyleSharingTarget::new(Arc::new(target));
    StyleSharingCandidateCache::test_candidate(
        &mut target,
        &mut candidate(cached),
        &SharedStyleContext {
            options: StyleSystemOptions { disable_style_sharing_cache: false },
            system: ByNumber(results),
        },
        &StyleBloom { current_parent: parent, filter: Box::new(BloomFilter::new()) },
        &mut SelectorFlagsMap { applied: vec![] },
    )
}

#[test]
fn nothing_different_is_a_hit() {
    assert_eq!(test(|_| {}), Ok(style(2)));
}

#[test]
fn parents_that_do_not_match() {
    assert_eq!(test(|e| e.parent = None), Err(CacheMiss::Parent));
    let stranger = |e: &mut Element| {
        e.parent = Some(ParentElement { node: OpaqueNode { number: 9 }, computed_values: 9 });
    };
    assert_eq!(test(stranger), Err(CacheMiss::Parent));
}

#[test]
fn native_anonymous_content() {
    assert_eq!(test(|e| e.native_anonymous = true), Err(CacheMiss::NativeAnonymousContent));
}

#[test]
fn native_anonymous_candidate() {
    let mut anonymous = element(2);
    anonymous.native_anonymous = true;
    assert_eq!(
        hold_against(element(4), anonymous, parity),
        Err(CacheMiss::NativeAnonymousContent)
    );
    let mut anonymous = element(2);
    anonymous.native_anonymous = true;
    anonymous.local_name = atom(9);
    assert_eq!(
        hold_against(element(4), anonymous, parity),
        Err(CacheMiss::NativeAnonymousContent)
    );
}

#[test]
fn a_style_without_values_is_handed_out_as_it_is() {
    let bare = ComputedStyle { rules: 6, values: None };
    let mut cached = element(2);
    cached.data = Some(ElementData { styles: Some(ElementStyles::new(bare)), restyle: None });
    assert_eq!(hold_against(element(4), cached, parity), Ok(bare));
}

#[test]
fn names_and_kinds_that_do_not_match() {
    assert_eq!(test(|e| e.local_name = atom(9)), Err(CacheMiss::LocalName));
    assert_eq!(test(|e| e.namespace = atom(9)), Err(CacheMiss::Namespace));
    assert_eq!(test(|e| e.link = true), Err(CacheMiss::Link));
    assert_eq!(test(|e| e.user_and_author_rules = false), Err(CacheMiss::UserAndAuthorRules));
}

#[test]
fn states_that_do_not_match() {
    assert_eq!(test(|e| e.state.other = 4), Err(CacheMiss::State));
    assert_eq!(test(|e| e.state.visited = true), Ok(style(2)));
}

#[test]
fn attributes_that_do_not_match() {
    assert_eq!(test(|e| e.id = Some(atom(9))), Err(CacheMiss::IdAttr));
    assert_eq!(test(|e| e.style_attribute = None), Err(CacheMiss::StyleAttr));
    assert_eq!(test(|e| e.style_attribute = Some(4)), Err(CacheMiss::StyleAttr));
    assert_eq!(test(|e| e.classes = vec![atom(9)]), Err(CacheMiss::Class));
}

#[test]
fn hints_that_do_not_match() {
    let hinted = |e: &mut Element| {
        e.unvisited_hints.push(ApplicableDeclarationBlock {
            source: 1,
            level: 2,
            specificity: 0,
            source_order: 0,
        });
    };
    assert_eq!(test(hinted), Err(CacheMiss::PresHints));
}

#[test]
fn match_results_that_do_not_match() {
    assert_eq!(test(|e| e.node.number = 5), Err(CacheMiss::Revalidation));
    // One more bit, and a difference in the last of many bits.
    assert_eq!(
        hold_against(element(4), element(2), |number| BitVec::from_elem(number as usize, true)),
        Err(CacheMiss::Revalidation)
    );
    let in_the_last_bit = |number: u64| {
        let mut bits = BitVec::from_elem(70, false);
        bits.set(69, number == 4);
        bits
    };
    assert_eq!(
        hold_against(element(4), element(2), in_the_last_bit),
        Err(CacheMiss::Revalidation)
    );
}

#[test]
fn match_results_are_compared_bit_by_bit() {
    // The two hold the same two bits, in storage of different size.
    let stored_differently = |number: u64| {
        if number == 4 {
            let mut bits = BitVec::from_elem(33, true).split_off(31);
            bits.set_all();
            bits
        } else {
            BitVec::from_elem(2, true)
        }
    };
    assert_eq!(hold_against(element(4), element(2), stored_differently), Ok(style(2)));
    assert_eq!(
        hold_against(element(4), element(2), |_| BitVec::from_elem(70, true)),
        Ok(style(2))
    );
    assert_eq!(hold_against(element(4), element(2), |_| BitVec::new()), Ok(style(2)));
}

#[test]
fn the_first_difference_counts() {
    let different = |e: &mut Element| {
        e.classes = vec![atom(9)];
        e.namespace = atom(9);
        e.link = true;
    };
    assert_eq!(test(different), Err(CacheMiss::Namespace));
}

#[test]
fn candidates_are_the_same_when_their_elements_are() {
    let mut other = element(2);
    other.link = true;
    assert!(candidate(element(2)) == candidate(other));
    assert!(candidate(element(2)) != candidate(element(4)));
}

#[test]
fn a_candidate_gives_access_to_its_element() {
    assert_eq!(candidate(element(2)).node, OpaqueNode { number: 2 });
}
