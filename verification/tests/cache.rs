use selectors::matching::{
    StyleRelations as Relations, AFFECTED_BY_PRESENTATIONAL_HINTS, AFFECTED_BY_PSEUDO_ELEMENTS,
};
use style_sharing::cache::LRUCache;
use style_sharing::relations;
use style_sharing::relations::StyleRelations;

fn contents(cache: &mut LRUCache<u32, 3>) -> Vec<u32> {
    let mut all = Vec::new();
    for index in 0..cache.num_entries() {
        all.push(*cache.entry_mut(index));
    }
    all
}

#[test]
fn the_last_entry_makes_way() {
    let mut cache: LRUCache<u32, 3> = LRUCache::new();
    for entry in [1, 2, 3, 4] {
        cache.insert(entry);
    }
    assert_eq!(contents(&mut cache), vec![4, 3, 2]);
}

#[test]
fn a_used_entry_comes_first_and_outlives_the_next_insertion() {
    let mut cache: LRUCache<u32, 3> = LRUCache::new();
    for entry in [1, 2, 3] {
        cache.insert(entry);
    }
    cache.touch(2);
    assert_eq!(contents(&mut cache), vec![1, 3, 2]);
    cache.touch(0);
    assert_eq!(contents(&mut cache), vec![1, 3, 2]);
    cache.insert(4);
    assert_eq!(contents(&mut cache), vec![4, 1, 3]);
}

#[test]
fn entries_change_in_place() {
    let mut cache: LRUCache<u32, 3> = LRUCache::new();
    cache.insert(1);
    cache.insert(2);
    *cache.entry_mut(1) = 7;
    assert_eq!(contents(&mut cache), vec![2, 7]);
}

#[test]
fn evicting_all_leaves_nothing() {
    let mut cache: LRUCache<u32, 3> = LRUCache::new();
    cache.insert(1);
    cache.evict_all();
    assert_eq!(cache.num_entries(), 0);
    cache.touch(0);
    assert_eq!(cache.num_entries(), 0);
}

#[test]
fn relations_are_those_of_selector_matching() {
    assert_eq!(relations::ALL_RELATIONS, Relations::all().bits());
    assert_eq!(
        relations::AFFECTED_BY_PRESENTATIONAL_HINTS,
        AFFECTED_BY_PRESENTATIONAL_HINTS.bits()
    );
    assert_eq!(relations::AFFECTED_BY_PSEUDO_ELEMENTS, AFFECTED_BY_PSEUDO_ELEMENTS.bits());
}

#[test]
fn relations_intersect_in_a_common_relation() {
    let both = StyleRelations { bits: 12 };
    assert!(both.intersects(relations::AFFECTED_BY_PRESENTATIONAL_HINTS));
    assert!(both.intersects(relations::AFFECTED_BY_PSEUDO_ELEMENTS));
    assert!(!both.intersects(3));
    assert!(!StyleRelations { bits: 0 }.intersects(relations::ALL_RELATIONS));
    assert!(!StyleRelations { bits: 16 }.intersects(16));
}
