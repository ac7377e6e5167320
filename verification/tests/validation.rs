use bit_vec::BitVec;
use selectors::bloom::BloomFilter;
use selectors::matching::ElementSelectorFlags;
use selectors::matching::HAS_EDGE_CHILD_SELECTOR;
use std::cell::Cell;
use style_sharing::atom::Atom;
use style_sharing::bloom::StyleBloom;
use style_sharing::class_order::sort_by_hash;
use style_sharing::context::SelectorFlagsMap;
use style_sharing::data::RestyleData;
use style_sharing::dom::{Element, ElementState, OpaqueNode, ParentElement};
use style_sharing::properties::ComputedValues;
use style_sharing::stylist::{
    ApplicableDeclarationBlock, ChildCascadeRequirement, FlaggedElement, RevalidationMatch,
    StyleSystem,
};
use style_sharing::{StyleSharingTarget, ValidationData};

fn atom(id: u64, hash: u32) -> Atom {
    Atom { id, hash }
}

fn node(number: u64) -> OpaqueNode {
    OpaqueNode { number }
}

fn block(source: u64) -> ApplicableDeclarationBlock {
    ApplicableDeclarationBlock { source, level: 2, specificity: 0, source_order: 0 }
}

fn element(number: u64, classes: Vec<Atom>) -> Element {
    Element {
        node: node(number),
        parent: Some(ParentElement { node: node(1), computed_values: 100 }),
        native_anonymous: false,
        local_name: atom(1, 1),
        namespace: atom(2, 2),
        link: false,
        user_and_author_rules: true,
        state: ElementState { visited: false, other: 0 },
        id: None,
        style_attribute: None,
        classes,
        unvisited_hints: vec![block(5), block(6)],
        visited_hints: vec![block(7)],
        data: None,
    }
}

fn bits(values: &[bool]) -> BitVec {
    let mut bits = BitVec::new();
    for value in values {
        bits.push(*value);
    }
    bits
}

struct Matcher {
    matches: Cell<u32>,
    with_filter: Cell<bool>,
    results: Vec<bool>,
    flags: Vec<(u64, ElementSelectorFlags)>,
}

impl Matcher {
    fn new(results: &[bool]) -> Self {
        Matcher {
            matches: Cell::new(0),
            with_filter: Cell::new(false),
            results: results.to_vec(),
            flags: vec![(9, HAS_EDGE_CHILD_SELECTOR), (1, HAS_EDGE_CHILD_SELECTOR)],
        }
    }
}

impl StyleSystem for Matcher {
    fn may_have_rules_for_id(&self, _id: &Atom) -> bool {
        false
    }

    fn match_revalidation_selectors(
        &self,
        _element: &Element,
        filter: Option<&BloomFilter>,
    ) -> RevalidationMatch {
        self.matches.set(self.matches.get() + 1);
        self.with_filter.set(filter.is_some());
        RevalidationMatch {
            results: bits(&self.results),
            flags: self
                .flags
                .iter()
                .map(|(number, flags)| FlaggedElement { element: node(*number), flags: *flags })
                .collect(),
        }
    }

    fn accumulate_damage(
        &self,
        _element: &Element,
        _restyle: Option<RestyleData>,
        _old_values: Option<ComputedValues>,
        _new_values: &ComputedValues,
    ) -> (RestyleData, ChildCascadeRequirement) {
        (RestyleData { hint: 0, damage: 0 }, ChildCascadeRequirement::CanSkipCascade)
    }
}

fn bloom(parent: Option<u64>) -> StyleBloom {
    StyleBloom { current_parent: parent.map(node), filter: Box::new(BloomFilter::new()) }
}

#[test]
fn few_classes_are_ordered_by_hash() {
    let e = element(2, vec![atom(3, 30), atom(1, 10), atom(2, 20)]);
    let mut data = ValidationData::default();
    assert_eq!(data.class_list(&e), &[atom(1, 10), atom(2, 20), atom(3, 30)]);
}

#[test]
fn order_of_few_classes_is_immaterial() {
    let foo_bar = element(2, vec![atom(1, 77), atom(2, 33)]);
    let bar_foo = element(3, vec![atom(2, 33), atom(1, 77)]);
    let mut left = ValidationData::default();
    let mut right = ValidationData::default();
    assert_eq!(left.class_list(&foo_bar), right.class_list(&bar_foo));
}

#[test]
fn order_of_classes_with_one_hash_counts() {
    let foo_bar = element(2, vec![atom(1, 7), atom(2, 7)]);
    let bar_foo = element(3, vec![atom(2, 7), atom(1, 7)]);
    let mut left = ValidationData::default();
    let mut right = ValidationData::default();
    assert_ne!(left.class_list(&foo_bar), right.class_list(&bar_foo));
}

#[test]
fn five_classes_are_ordered_and_six_are_not() {
    let five: Vec<Atom> = vec![atom(5, 5), atom(4, 4), atom(3, 3), atom(2, 2), atom(1, 1)];
    let mut data = ValidationData::default();
    let ordered: Vec<Atom> = five.iter().rev().cloned().collect();
    assert_eq!(data.class_list(&element(2, five.clone())), ordered.as_slice());

    let mut six = five;
    six.push(atom(0, 0));
    let mut data = ValidationData::default();
    assert_eq!(data.class_list(&element(2, six.clone())), six.as_slice());
}

#[test]
fn sorting_keeps_the_order_of_equal_hashes() {
    let mut atoms = vec![atom(1, 9), atom(2, 3), atom(3, 9), atom(4, 3), atom(5, 1)];
    sort_by_hash(&mut atoms);
    assert_eq!(atoms, vec![atom(5, 1), atom(2, 3), atom(4, 3), atom(1, 9), atom(3, 9)]);
    let mut none: Vec<Atom> = Vec::new();
    sort_by_hash(&mut none);
    assert!(none.is_empty());
}

#[test]
fn hints_are_those_of_unvisited_links() {
    let mut data = ValidationData::default();
    assert_eq!(data.pres_hints(&element(2, vec![])), &[block(5), block(6)]);
}

#[test]
fn known_facts_are_not_worked_out_again() {
    let first = element(2, vec![atom(1, 1)]);
    let mut second = element(3, vec![atom(2, 2)]);
    second.unvisited_hints = vec![];
    let mut data = ValidationData::default();
    data.class_list(&first);
    data.pres_hints(&first);
    assert_eq!(data.class_list(&second), &[atom(1, 1)]);
    assert_eq!(data.pres_hints(&second), &[block(5), block(6)]);
}

#[test]
fn take_leaves_nothing_behind() {
    let first = element(2, vec![atom(1, 1)]);
    let second = element(3, vec![atom(2, 2)]);
    let mut data = ValidationData::default();
    data.class_list(&first);
    let mut taken = data.take();
    assert_eq!(taken.class_list(&second), &[atom(1, 1)]);
    assert_eq!(data.class_list(&second), &[atom(2, 2)]);
}

#[test]
fn match_results_are_kept_with_their_flags() {
    let e = element(2, vec![]);
    let matcher = Matcher::new(&[true, false, true]);
    let mut data = ValidationData::default();
    let mut flags = Vec::new();
    let results = data.revalidation_match_results(&e, &matcher, &bloom(Some(1)), true, &mut flags);
    assert_eq!(results, &bits(&[true, false, true]));
    assert_eq!(flags.len(), 2);
    assert_eq!(flags[0].element, node(9));
    assert_eq!(flags[1].element, node(1));
    assert!(matcher.with_filter.get());

    data.revalidation_match_results(&e, &matcher, &bloom(Some(1)), true, &mut flags);
    assert_eq!(flags.len(), 2);
    assert_eq!(matcher.matches.get(), 1);
}

#[test]
fn filter_serves_only_the_children_it_is_set_up_for() {
    let e = element(2, vec![]);
    let mut flags = Vec::new();
    for (current, expected) in [(Some(1), true), (Some(3), false), (None, false)] {
        let matcher = Matcher::new(&[]);
        let mut data = ValidationData::default();
        data.revalidation_match_results(&e, &matcher, &bloom(current), false, &mut flags);
        assert_eq!(matcher.with_filter.get(), expected);
    }
    let mut root = element(2, vec![]);
    root.parent = None;
    let matcher = Matcher::new(&[]);
    let mut data = ValidationData::default();
    data.revalidation_match_results(&root, &matcher, &bloom(None), false, &mut flags);
    assert!(matcher.with_filter.get());
}

#[test]
fn known_filter_makes_no_difference() {
    let e = element(2, vec![]);
    let mut outcomes = Vec::new();
    for known in [true, false] {
        let matcher = Matcher::new(&[true, false]);
        let mut data = ValidationData::default();
        let mut flags = Vec::new();
        let results =
            data.revalidation_match_results(&e, &matcher, &bloom(Some(1)), known, &mut flags);
        assert!(matcher.with_filter.get());
        let set: Vec<OpaqueNode> = flags.iter().map(|flagged| flagged.element).collect();
        outcomes.push((results.clone(), set));
    }
    assert_eq!(outcomes[0], outcomes[1]);
    assert_eq!(outcomes[0], (bits(&[true, false]), vec![node(9), node(1)]));
}

#[test]
fn matching_a_target_takes_note_of_flags() {
    let matcher = Matcher::new(&[true]);
    let mut target = StyleSharingTarget::new(std::sync::Arc::new(element(2, vec![])));
    let mut map = SelectorFlagsMap { applied: Vec::new() };
    target.revalidation_match_results(&matcher, &bloom(Some(1)), &mut map);
    target.revalidation_match_results(&matcher, &bloom(Some(1)), &mut map);
    assert_eq!(map.applied.len(), 2);
    assert_eq!(map.applied[0].styled, node(2));
    assert_eq!(map.applied[0].flagged.element, node(9));
    assert_eq!(map.applied[1].flagged.element, node(1));
    assert_eq!(map.applied[1].flagged.flags, HAS_EDGE_CHILD_SELECTOR);
}
