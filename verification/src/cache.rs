//! A cache that forgets what has not been used for the longest time.

use vstd::prelude::*;

verus! {

/// The entries after `entry` has been inserted in a cache of `size` entries.
pub open spec fn inserted<T>(entries: Seq<T>, entry: T, size: nat) -> Seq<T> {
    let kept = if entries.len() >= size {
        entries.take(size - 1)
    } else {
        entries
    };
    seq![entry] + kept
}

/// The entries after the entry at `index` has been used.
pub open spec fn touched<T>(entries: Seq<T>, index: int) -> Seq<T> {
    if 0 < index < entries.len() {
        seq![entries[index]] + entries.remove(index)
    } else {
        entries
    }
}

/// A cache of at most `SIZE` entries, the most recently used one first.
pub struct LRUCache<T, const SIZE: usize> {
    entries: Vec<T>,
}

impl<T, const SIZE: usize> View for LRUCache<T, SIZE> {
    type V = Seq<T>;

    closed spec fn view(&self) -> Seq<T> {
        self.entries@
    }
}

impl<T, const SIZE: usize> LRUCache<T, SIZE> {
    /// No more entries than there is room for.
    pub open spec fn wf(self) -> bool {
        self@.len() <= SIZE
    }

    /// An empty cache.
    pub fn new() -> (cache: Self)
        ensures
            cache.wf(),
            cache@ == Seq::<T>::empty(),
    {
        LRUCache { entries: Vec::new() }
    }

    /// The number of entries.
    pub fn num_entries(&self) -> (count: usize)
        ensures
            count == self@.len(),
    {
        self.entries.len()
    }

    /// The entry at `index`, to be changed in place.
    pub fn entry_mut(&mut self, index: usize) -> (entry: &mut T)
        requires
            index < old(self)@.len(),
        ensures
            *entry == old(self)@[index as int],
            final(self)@ == old(self)@.update(index as int, *final(entry)),
    {
        &mut self.entries[index]
    }

    /// Makes the entry at `index` the first one.
    pub fn touch(&mut self, index: usize)
        requires
            index == 0 || index < old(self)@.len(),
        ensures
            final(self)@ == touched(old(self)@, index as int),
    {
        if index != 0 {
            let entry = self.entries.remove(index);
            self.entries.insert(0, entry);
        }
    }

    /// Inserts `entry` as the first one. Where there is no room left the last
    /// entry makes way.
    pub fn insert(&mut self, entry: T)
        requires
            old(self).wf(),
            SIZE > 0,
        ensures
            final(self).wf(),
            final(self)@ == inserted(old(self)@, entry, SIZE as nat),
    {
        if self.entries.len() == SIZE {
            let _ = self.entries.pop();
        }
        self.entries.insert(0, entry);
    }

    /// Removes every entry.
    pub fn evict_all(&mut self)
        ensures
            final(self).wf(),
            final(self)@ == Seq::<T>::empty(),
    {
        self.entries.clear();
    }
}

/// Insertion puts the new entry first and moves the others back by one. Only an
/// entry for which there is no room left is forgotten: the one that has not been
/// used for the longest time.
pub proof fn law_insertion_forgets_the_least_recently_used<T>(entries: Seq<T>, entry: T, size: nat)
    requires
        0 < size,
        entries.len() <= size,
    ensures
        inserted(entries, entry, size)[0] == entry,
        inserted(entries, entry, size).len() == if entries.len() < size {
            entries.len() + 1
        } else {
            size
        },
        forall|i: int|
            #![trigger entries[i]]
            0 <= i < entries.len() && i + 1 < size ==> inserted(entries, entry, size)[i + 1]
                == entries[i],
{
}

/// Use puts an entry first, and keeps every entry.
pub proof fn law_use_reorders_only<T>(entries: Seq<T>, index: int)
    requires
        0 <= index < entries.len(),
    ensures
        touched(entries, index)[0] == entries[index],
        touched(entries, index).len() == entries.len(),
        touched(entries, index).to_multiset() == entries.to_multiset(),
        forall|i: int|
            #![trigger entries[i]]
            0 <= i < entries.len() && i != index ==> touched(entries, index)[if i < index {
                i + 1
            } else {
                i
            }] == entries[i],
{
    broadcast use vstd::seq_lib::group_to_multiset_ensures;

    if index > 0 {
        let rest = entries.remove(index);
        assert(touched(entries, index) == rest.insert(0, entries[index]));
    }
}

/// An entry that has just been used outlives the next insertion, if there is room
/// for two.
pub proof fn law_used_entry_outlives_an_insertion<T>(
    entries: Seq<T>,
    index: int,
    entry: T,
    size: nat,
)
    requires
        2 <= size,
        0 <= index < entries.len() <= size,
    ensures
        inserted(touched(entries, index), entry, size)[1] == entries[index],
{
}

} // verus!
