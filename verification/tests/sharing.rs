use bit_vec::BitVec;
use selectors::bloom::BloomFilter;
use selectors::matching::HAS_EMPTY_SELECTOR;
use std::cell::{Cell, RefCell};
use std::sync::Arc;
use style_sharing::atom::Atom;
use style_sharing::bloom::StyleBloom;
use style_sharing::context::{
    CurrentElementInfo, SelectorFlagsMap, SharedStyleContext, StyleContext, StyleSystemOptions,
    ThreadLocalStyleContext,
};
use style_sharing::data::{ComputedStyle, ElementData, ElementStyles, RestyleData};
use style_sharing::dom::{Element, ElementState, OpaqueNode, ParentElement};
use style_sharing::properties::{BoxStyle, ComputedValues};
use style_sharing::relations::{
    StyleRelations, AFFECTED_BY_PRESENTATIONAL_HINTS, AFFECTED_BY_PSEUDO_ELEMENTS,
};
use style_sharing::stylist::{
    ApplicableDeclarationBlock, ChildCascadeRequirement, FlaggedElement, RevalidationMatch,
    StyleSystem,
};
use style_sharing::{
    StyleSharingBehavior, StyleSharingCandidateCache, StyleSharingResult, StyleSharingTarget,
    ValidationData, STYLE_SHARING_CANDIDATE_CACHE_SIZE,
};

fn atom(id: u64) -> Atom {
    Atom { id, hash: id as u32 }
}

fn node(number: u64) -> OpaqueNode {
    OpaqueNode { number }
}

fn block(source: u64) -> ApplicableDeclarationBlock {
    ApplicableDeclarationBlock { source, level: 2, specificity: 0, source_order: 0 }
}

fn values(identity: u64) -> ComputedValues {
    ComputedValues { identity, box_style: BoxStyle { transitions: false, animations: false } }
}

fn style(identity: u64) -> ComputedStyle {
    ComputedStyle { rules: identity, values: Some(values(identity)) }
}

/// A styled child of node 1; the identity of its style is ten times its number.
fn element(number: u64) -> Element {
    Element {
        node: node(number),
        parent: Some(ParentElement { node: node(1), computed_values: 100 }),
        native_anonymous: false,
        local_name: atom(1),
        namespace: atom(2),
        link: false,
        user_and_author_rules: true,
        state: ElementState { visited: false, other: 0 },
        id: None,
        style_attribute: None,
        classes: vec![atom(30), atom(20)],
        unvisited_hints: vec![],
        visited_hints: vec![],
        data: Some(ElementData {
            styles: Some(ElementStyles::new(style(number * 10))),
            restyle: None,
        }),
    }
}

fn fresh() -> ElementData {
    ElementData { styles: None, restyle: None }
}

/// Answers as the tests want it to, and keeps a record of what it was asked.
struct System {
    ids_with_rules: Vec<u64>,
    mismatching: Vec<u64>,
    matched: RefCell<Vec<(u64, bool)>>,
    asked_ids: RefCell<Vec<u64>>,
    damage: Cell<Option<(u64, Option<RestyleData>, Option<u64>, u64)>>,
}

impl System {
    fn new() -> Self {
        System {
            ids_with_rules: vec![],
            mismatching: vec![],
            matched: RefCell::new(vec![]),
            asked_ids: RefCell::new(vec![]),
            damage: Cell::new(None),
        }
    }
}

impl StyleSystem for System {
    fn may_have_rules_for_id(&self, id: &Atom) -> bool {
        self.asked_ids.borrow_mut().push(id.id);
        self.ids_with_rules.contains(&id.id)
    }

    fn match_revalidation_selectors(
        &self,
        element: &Element,
        filter: Option<&BloomFilter>,
    ) -> RevalidationMatch {
        let number = element.node.number;
        self.matched.borrow_mut().push((number, filter.is_some()));
        let mut results = BitVec::from_elem(3, true);
        results.set(1, self.mismatching.contains(&number));
        RevalidationMatch {
            results,
            flags: vec![FlaggedElement { element: node(number + 1000), flags: HAS_EMPTY_SELECTOR }],
        }
    }

    fn accumulate_damage(
        &self,
        element: &Element,
        restyle: Option<RestyleData>,
        old_values: Option<ComputedValues>,
        new_values: &ComputedValues,
    ) -> (RestyleData, ChildCascadeRequirement) {
        self.damage.set(Some((
            element.node.number,
            restyle,
            old_values.map(|values| values.identity),
            new_values.identity,
        )));
        let hint = restyle.map_or(0, |restyle| restyle.hint);
        (RestyleData { hint, damage: 77 }, ChildCascadeRequirement::MustCascadeChildren)
    }
}

fn bloom(parent: u64) -> StyleBloom {
    StyleBloom { current_parent: Some(node(parent)), filter: Box::new(BloomFilter::new()) }
}

fn insert(cache: &mut StyleSharingCandidateCache, element: Element) {
    insert_affected(cache, element, 0)
}

fn insert_affected(cache: &mut StyleSharingCandidateCache, element: Element, bits: usize) {
    let values = values(1);
    cache.insert_if_possible(
        &Arc::new(element),
        &values,
        StyleRelations { bits },
        ValidationData::default(),
    );
}

struct Attempt {
    cache: StyleSharingCandidateCache,
    shared: SharedStyleContext<System>,
    flags: SelectorFlagsMap,
    data: ElementData,
}

impl Attempt {
    fn new() -> Self {
        Attempt {
            cache: StyleSharingCandidateCache::new(),
            shared: SharedStyleContext {
                options: StyleSystemOptions { disable_style_sharing_cache: false },
                system: System::new(),
            },
            flags: SelectorFlagsMap { applied: vec![] },
            data: fresh(),
        }
    }

    /// Lets `element` look for a style. Unless it is being restyled it has none yet.
    fn share(&mut self, element: Element) -> StyleSharingResult {
        if self.data.restyle.is_none() {
            self.data = fresh();
        }
        let parent = element.parent.map_or(0, |parent| parent.node.number);
        let filter = if element.parent.is_some() {
            bloom(parent)
        } else {
            StyleBloom { current_parent: None, filter: Box::new(BloomFilter::new()) }
        };
        let mut target = StyleSharingTarget::new(Arc::new(element));
        self.cache.share_style_if_possible(
            &self.shared,
            &mut self.flags,
            &filter,
            &mut target,
            &mut self.data,
        )
    }

    fn matched(&self) -> Vec<(u64, bool)> {
        self.shared.system.matched.borrow().clone()
    }
}

fn shared_at(index: usize) -> StyleSharingResult {
    StyleSharingResult::StyleWasShared(index, ChildCascadeRequirement::MustCascadeChildren)
}

#[test]
fn a_new_cache_is_empty() {
    assert_eq!(StyleSharingCandidateCache::new().num_entries(), 0);
    assert!(StyleSharingBehavior::Allow != StyleSharingBehavior::Disallow);
}

#[test]
fn an_inserted_element_is_found() {
    let mut attempt = Attempt::new();
    insert(&mut attempt.cache, element(2));
    assert_eq!(attempt.share(element(3)), shared_at(0));
    assert_eq!(
        attempt.data,
        ElementData { styles: Some(ElementStyles::new(style(20))), restyle: None }
    );
    assert_eq!(attempt.shared.system.damage.get(), Some((3, None, None, 20)));
    assert_eq!(attempt.matched(), vec![(3, true), (2, true)]);
    assert_eq!(attempt.cache.num_entries(), 1);
}

#[test]
fn an_empty_cache_has_nothing_to_share() {
    let mut attempt = Attempt::new();
    assert_eq!(attempt.share(element(3)), StyleSharingResult::CannotShare);
    assert_eq!(attempt.data, fresh());
}

#[test]
fn damage_is_accumulated_from_the_old_values() {
    let mut attempt = Attempt::new();
    insert(&mut attempt.cache, element(2));
    let restyle = RestyleData { hint: 4, damage: 1 };
    let mut styles = ElementStyles::new(style(55));
    styles.pseudos.push(style(56));
    attempt.data = ElementData { styles: Some(styles), restyle: Some(restyle) };
    assert_eq!(attempt.share(element(3)), shared_at(0));
    assert_eq!(attempt.shared.system.damage.get(), Some((3, Some(restyle), Some(55), 20)));
    assert_eq!(
        attempt.data,
        ElementData {
            styles: Some(ElementStyles::new(style(20))),
            restyle: Some(RestyleData { hint: 4, damage: 77 }),
        }
    );
}

#[test]
fn flags_are_set_for_the_target_only() {
    let mut attempt = Attempt::new();
    insert(&mut attempt.cache, element(2));
    attempt.share(element(3));
    assert_eq!(attempt.flags.applied.len(), 1);
    assert_eq!(attempt.flags.applied[0].styled, node(3));
    assert_eq!(attempt.flags.applied[0].flagged.element, node(1003));
}

#[test]
fn the_most_recent_candidate_comes_first() {
    let mut attempt = Attempt::new();
    insert(&mut attempt.cache, element(2));
    insert(&mut attempt.cache, element(4));
    assert_eq!(attempt.share(element(3)), shared_at(0));
    assert_eq!(attempt.data.styles, Some(ElementStyles::new(style(40))));
    attempt.cache.touch(1);
    assert_eq!(attempt.share(element(5)), shared_at(0));
    assert_eq!(attempt.data.styles, Some(ElementStyles::new(style(20))));
}

#[test]
fn no_more_candidates_than_there_is_room_for() {
    let mut attempt = Attempt::new();
    let mut oldest = element(2);
    oldest.local_name = atom(77);
    insert(&mut attempt.cache, oldest);
    for number in 0..STYLE_SHARING_CANDIDATE_CACHE_SIZE as u64 {
        insert(&mut attempt.cache, element(10 + number));
    }
    assert_eq!(attempt.cache.num_entries(), STYLE_SHARING_CANDIDATE_CACHE_SIZE);
    let mut like_the_oldest = element(3);
    like_the_oldest.local_name = atom(77);
    assert_eq!(attempt.share(like_the_oldest), StyleSharingResult::CannotShare);
    attempt.cache.clear();
    assert_eq!(attempt.cache.num_entries(), 0);
}

#[test]
fn a_touched_candidate_outlives_the_next_insertion() {
    let mut attempt = Attempt::new();
    let mut oldest = element(2);
    oldest.local_name = atom(77);
    insert(&mut attempt.cache, oldest);
    for number in 1..STYLE_SHARING_CANDIDATE_CACHE_SIZE as u64 {
        insert(&mut attempt.cache, element(10 + number));
    }
    attempt.cache.touch(STYLE_SHARING_CANDIDATE_CACHE_SIZE - 1);
    insert(&mut attempt.cache, element(30));
    let mut like_the_oldest = element(3);
    like_the_oldest.local_name = atom(77);
    assert_eq!(attempt.share(like_the_oldest), shared_at(1));
}

#[test]
fn a_hit_that_was_touched_comes_first() {
    let mut attempt = Attempt::new();
    insert(&mut attempt.cache, element(2));
    for number in 10..13 {
        let mut other = element(number);
        other.link = true;
        insert(&mut attempt.cache, other);
    }
    assert_eq!(attempt.share(element(3)), shared_at(3));
    let first = attempt.data.styles.take();
    attempt.cache.touch(3);
    assert_eq!(attempt.share(element(3)), shared_at(0));
    assert_eq!(attempt.data.styles, first);
    assert_eq!(first, Some(ElementStyles::new(style(20))));
}

#[test]
fn an_element_inserted_twice_is_there_twice() {
    let mut attempt = Attempt::new();
    let mut other = element(4);
    other.local_name = atom(77);
    insert(&mut attempt.cache, other);
    insert(&mut attempt.cache, element(2));
    insert(&mut attempt.cache, element(2));
    assert_eq!(attempt.cache.num_entries(), 3);
    let mut like_the_other = element(3);
    like_the_other.local_name = atom(77);
    assert_eq!(attempt.share(like_the_other), shared_at(2));
}

#[test]
fn there_are_never_more_candidates_than_there_is_room_for() {
    let mut attempt = Attempt::new();
    for number in 0..30 {
        insert(&mut attempt.cache, element(10 + number));
        assert!(attempt.cache.num_entries() <= STYLE_SHARING_CANDIDATE_CACHE_SIZE);
        attempt.cache.touch(attempt.cache.num_entries() - 1);
        attempt.share(element(50 + number));
        assert!(attempt.cache.num_entries() <= STYLE_SHARING_CANDIDATE_CACHE_SIZE);
    }
    assert_eq!(attempt.cache.num_entries(), STYLE_SHARING_CANDIDATE_CACHE_SIZE);
}

#[test]
fn what_should_never_be_cached_is_not() {
    let mut cache = StyleSharingCandidateCache::new();
    let mut root = element(2);
    root.parent = None;
    insert(&mut cache, root);
    let mut anonymous = element(2);
    anonymous.native_anonymous = true;
    insert(&mut cache, anonymous);
    insert_affected(&mut cache, element(2), AFFECTED_BY_PSEUDO_ELEMENTS);
    let mut moving = values(1);
    moving.box_style.transitions = true;
    let mut animated = values(1);
    animated.box_style.animations = true;
    for style in [moving, animated] {
        cache.insert_if_possible(
            &Arc::new(element(2)),
            &style,
            StyleRelations { bits: 0 },
            ValidationData::default(),
        );
    }
    assert_eq!(cache.num_entries(), 0);
    insert_affected(&mut cache, element(2), AFFECTED_BY_PRESENTATIONAL_HINTS | 3);
    assert_eq!(cache.num_entries(), 1);
}

#[test]
fn hints_are_ruled_out_by_what_matching_found() {
    let mut hinted = element(2);
    hinted.unvisited_hints = vec![block(1)];
    let mut like_it = element(3);
    like_it.unvisited_hints = vec![block(1)];
    let mut attempt = Attempt::new();
    insert(&mut attempt.cache, hinted);
    assert_eq!(attempt.share(like_it), StyleSharingResult::CannotShare);
    assert_eq!(attempt.share(element(3)), shared_at(0));

    let mut hinted = element(2);
    hinted.unvisited_hints = vec![block(1)];
    let mut like_it = element(3);
    like_it.unvisited_hints = vec![block(1)];
    let mut attempt = Attempt::new();
    insert_affected(&mut attempt.cache, hinted, AFFECTED_BY_PRESENTATIONAL_HINTS);
    assert_eq!(attempt.share(like_it), shared_at(0));
}

#[test]
fn refused_targets_leave_everything_as_it_is() {
    let mut attempt = Attempt::new();
    insert(&mut attempt.cache, element(2));
    let mut root = element(3);
    root.parent = None;
    assert_eq!(attempt.share(root), StyleSharingResult::CannotShare);
    let mut anonymous = element(3);
    anonymous.native_anonymous = true;
    assert_eq!(attempt.share(anonymous), StyleSharingResult::CannotShare);
    attempt.shared.options.disable_style_sharing_cache = true;
    assert_eq!(attempt.share(element(3)), StyleSharingResult::CannotShare);
    assert_eq!(attempt.cache.num_entries(), 1);
    assert_eq!(attempt.data, fresh());
    assert!(attempt.matched().is_empty());
    attempt.shared.options.disable_style_sharing_cache = false;
    assert_eq!(attempt.share(element(3)), shared_at(0));
}

#[test]
fn cheap_misses_do_not_end_the_search() {
    let mut others: Vec<Element> = (10..17).map(element).collect();
    others[0].local_name = atom(9);
    others[1].namespace = atom(9);
    others[2].link = true;
    others[3].user_and_author_rules = false;
    others[4].state.other = 1;
    others[5].style_attribute = Some(1);
    others[6].classes = vec![atom(30)];
    let mut attempt = Attempt::new();
    insert(&mut attempt.cache, element(2));
    for other in others {
        insert(&mut attempt.cache, other);
    }
    assert_eq!(attempt.share(element(3)), shared_at(7));
    assert_eq!(attempt.data.styles, Some(ElementStyles::new(style(20))));
    assert_eq!(attempt.matched(), vec![(3, true), (2, true)]);
    assert_eq!(attempt.cache.num_entries(), 8);
}

#[test]
fn visitedness_and_class_order_do_not_matter() {
    let mut attempt = Attempt::new();
    insert(&mut attempt.cache, element(2));
    let mut target = element(3);
    target.state.visited = true;
    target.classes = vec![atom(20), atom(30)];
    assert_eq!(attempt.share(target), shared_at(0));
}

#[test]
fn different_ids_matter_only_with_rules() {
    let mut attempt = Attempt::new();
    attempt.shared.system.ids_with_rules = vec![8];
    let mut candidate = element(2);
    candidate.id = Some(atom(5));
    insert(&mut attempt.cache, candidate);
    let mut target = element(3);
    target.id = Some(atom(6));
    assert_eq!(attempt.share(target), shared_at(0));
    assert_eq!(*attempt.shared.system.asked_ids.borrow(), vec![6, 5]);
    assert_eq!(attempt.share(element(3)), shared_at(0));
    let mut target = element(3);
    target.id = Some(atom(8));
    assert_eq!(attempt.share(target), StyleSharingResult::CannotShare);
    assert_eq!(attempt.cache.num_entries(), 1);

    let mut attempt = Attempt::new();
    attempt.shared.system.ids_with_rules = vec![5];
    let mut candidate = element(2);
    candidate.id = Some(atom(5));
    insert(&mut attempt.cache, candidate);
    assert_eq!(attempt.share(element(3)), StyleSharingResult::CannotShare);
    let mut target = element(3);
    target.id = Some(atom(5));
    attempt.shared.system.asked_ids.borrow_mut().clear();
    assert_eq!(attempt.share(target), shared_at(0));
    assert!(attempt.shared.system.asked_ids.borrow().is_empty());
}

#[test]
fn another_parent_clears_the_cache() {
    let mut attempt = Attempt::new();
    insert(&mut attempt.cache, element(2));
    insert(&mut attempt.cache, element(4));
    let mut target = element(3);
    target.parent = Some(ParentElement { node: node(50), computed_values: 500 });
    assert_eq!(attempt.share(target), StyleSharingResult::CannotShare);
    assert_eq!(attempt.cache.num_entries(), 0);
    assert_eq!(attempt.data, fresh());
}

#[test]
fn cousins_share_when_their_parents_share() {
    let mut attempt = Attempt::new();
    insert(&mut attempt.cache, element(2));
    let mut target = element(3);
    target.parent = Some(ParentElement { node: node(50), computed_values: 100 });
    assert_eq!(attempt.share(target), shared_at(0));
    // The filter is set up for the parent of the target, not for that of the
    // candidate.
    assert_eq!(attempt.matched(), vec![(3, true), (2, false)]);
}

#[test]
fn different_hints_end_the_search() {
    let mut attempt = Attempt::new();
    insert(&mut attempt.cache, element(2));
    let mut hinted = element(4);
    hinted.unvisited_hints = vec![block(1)];
    insert_affected(&mut attempt.cache, hinted, AFFECTED_BY_PRESENTATIONAL_HINTS);
    assert_eq!(attempt.share(element(3)), StyleSharingResult::CannotShare);
    assert_eq!(attempt.cache.num_entries(), 2);
    assert!(attempt.matched().is_empty());
}

#[test]
fn different_match_results_end_the_search() {
    let mut attempt = Attempt::new();
    attempt.shared.system.mismatching = vec![4];
    insert(&mut attempt.cache, element(2));
    insert(&mut attempt.cache, element(4));
    assert_eq!(attempt.share(element(3)), StyleSharingResult::CannotShare);
    assert_eq!(attempt.cache.num_entries(), 2);
    assert_eq!(attempt.matched(), vec![(3, true), (4, true)]);
    assert_eq!(attempt.flags.applied.len(), 1);
}

#[test]
fn a_candidate_is_matched_once() {
    let mut attempt = Attempt::new();
    insert(&mut attempt.cache, element(2));
    attempt.share(element(3));
    attempt.share(element(4));
    assert_eq!(attempt.matched(), vec![(3, true), (2, true), (4, true)]);
    assert_eq!(attempt.flags.applied.len(), 2);
}

fn context(cache: StyleSharingCandidateCache) -> StyleContext<System> {
    StyleContext {
        shared: SharedStyleContext {
            options: StyleSystemOptions { disable_style_sharing_cache: false },
            system: System::new(),
        },
        thread_local: ThreadLocalStyleContext {
            style_sharing_candidate_cache: cache,
            bloom_filter: bloom(1),
            selector_flags: SelectorFlagsMap { applied: vec![] },
            current_element_info: Some(CurrentElementInfo {
                validation_data: ValidationData::default(),
            }),
        },
    }
}

#[test]
fn what_was_found_out_is_left_with_the_element() {
    let mut cache = StyleSharingCandidateCache::new();
    insert(&mut cache, element(2));
    let mut context = context(cache);
    let mut data = fresh();
    let target = StyleSharingTarget::new(Arc::new(element(3)));
    assert_eq!(target.share_style_if_possible(&mut context, &mut data), shared_at(0));
    assert_eq!(data.styles, Some(ElementStyles::new(style(20))));

    let info = context.thread_local.current_element_info.as_mut().unwrap();
    let mut kept = info.validation_data.take();
    let other = element(9);
    let mut flags = Vec::new();
    let results = kept.revalidation_match_results(
        &other,
        &context.shared.system,
        &bloom(1),
        true,
        &mut flags,
    );
    assert_eq!(results.get(0), Some(true));
    assert_eq!(results.get(1), Some(false));
    assert!(flags.is_empty());
    assert_eq!(context.shared.system.matched.borrow().len(), 2);
    assert_eq!(context.thread_local.selector_flags.applied.len(), 1);
}

#[test]
fn what_was_found_out_on_a_miss_is_kept_for_insertion() {
    let mut cache = StyleSharingCandidateCache::new();
    let mut other = element(2);
    other.classes = vec![atom(5)];
    insert(&mut cache, other);
    let mut context = context(cache);
    let mut data = fresh();
    let styled = Arc::new(element(3));
    let target = StyleSharingTarget::new(styled.clone());
    assert_eq!(
        target.share_style_if_possible(&mut context, &mut data),
        StyleSharingResult::CannotShare
    );
    assert_eq!(data, fresh());
    let info = context.thread_local.current_element_info.as_mut().unwrap();
    let mut kept = info.validation_data.take();
    assert_eq!(kept.class_list(&element(4)), &[atom(20), atom(30)]);
    let cache = &mut context.thread_local.style_sharing_candidate_cache;
    cache.insert_if_possible(&styled, &values(30), StyleRelations { bits: 0 }, kept);
    assert_eq!(cache.num_entries(), 2);
    let target = StyleSharingTarget::new(Arc::new(element(4)));
    assert_eq!(target.share_style_if_possible(&mut context, &mut data), shared_at(0));
    assert_eq!(data.styles, Some(ElementStyles::new(style(30))));
}

#[test]
fn a_target_gives_access_to_its_element() {
    let target = StyleSharingTarget::new(Arc::new(element(3)));
    assert_eq!(target.node, node(3));
    assert!(!target.link);
}
