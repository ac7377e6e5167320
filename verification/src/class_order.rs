//! The order in which classes are compared.

use crate::atom::Atom;
use vstd::prelude::*;

verus! {

/// `ordered` with `atom` put behind every atom whose hash is not greater.
pub open spec fn placed(ordered: Seq<Atom>, atom: Atom) -> Seq<Atom>
    decreases ordered.len(),
{
    if ordered.len() > 0 && ordered.last().hash > atom.hash {
        placed(ordered.drop_last(), atom).push(ordered.last())
    } else {
        ordered.push(atom)
    }
}

/// `atoms` by ascending hash; atoms of the same hash keep their order.
pub open spec fn ordered_by_hash(atoms: Seq<Atom>) -> Seq<Atom>
    decreases atoms.len(),
{
    if atoms.len() == 0 {
        Seq::empty()
    } else {
        placed(ordered_by_hash(atoms.drop_last()), atoms.last())
    }
}

/// Ordering keeps the number of atoms.
proof fn lemma_placed_len(ordered: Seq<Atom>, atom: Atom)
    ensures
        placed(ordered, atom).len() == ordered.len() + 1,
    decreases ordered.len(),
{
    if ordered.len() > 0 && ordered.last().hash > atom.hash {
        lemma_placed_len(ordered.drop_last(), atom);
    }
}

proof fn lemma_ordered_len(atoms: Seq<Atom>)
    ensures
        ordered_by_hash(atoms).len() == atoms.len(),
    decreases atoms.len(),
{
    if atoms.len() > 0 {
        lemma_ordered_len(atoms.drop_last());
        lemma_placed_len(ordered_by_hash(atoms.drop_last()), atoms.last());
    }
}

/// Moves the atom at `end` to its place among the ordered atoms before it.
fn place_last(atoms: &mut [Atom], end: usize)
    requires
        end < old(atoms)@.len(),
    ensures
        final(atoms)@ == placed(old(atoms)@.take(end as int), old(atoms)@[end as int]) + old(
            atoms,
        )@.skip(end + 1),
{
    let ghost before = atoms@;
    let ghost ordered = before.take(end as int);
    let ghost atom = before[end as int];
    let mut at: usize = end;
    assert(ordered.skip(at as int) == Seq::<Atom>::empty());
    assert(ordered.take(at as int) == ordered);
    assert(before == ordered.take(at as int).push(atom) + ordered.skip(at as int) + before.skip(
        end + 1,
    ));
    while at > 0 && atoms[at - 1].get_hash() > atoms[at].get_hash()
        invariant
            at <= end < before.len(),
            ordered == before.take(end as int),
            atoms@ == ordered.take(at as int).push(atom) + ordered.skip(at as int) + before.skip(
                end + 1,
            ),
            placed(ordered, atom) == placed(ordered.take(at as int), atom) + ordered.skip(
                at as int,
            ),
        ensures
            at == 0 || ordered[at - 1].hash <= atom.hash,
        decreases at,
    {
        let ghost prefix = ordered.take(at as int);
        let moved = atoms[at - 1];
        atoms[at - 1] = atoms[at];
        atoms[at] = moved;
        at = at - 1;
        assert(prefix.drop_last() == ordered.take(at as int));
        assert(placed(prefix, atom) == placed(ordered.take(at as int), atom).push(moved));
        assert(placed(ordered.take(at as int), atom).push(moved) + ordered.skip(at + 1) == placed(
            ordered.take(at as int),
            atom,
        ) + ordered.skip(at as int));
    }
    let ghost prefix = ordered.take(at as int);
    assert(at > 0 ==> prefix.last() == ordered[at - 1]);
    assert(placed(prefix, atom) == prefix.push(atom));
}

/// Puts `atoms` in ascending order of their hashes; atoms of the same hash keep
/// their order.
pub fn sort_by_hash(atoms: &mut [Atom])
    ensures
        final(atoms)@ == ordered_by_hash(old(atoms)@),
{
    let ghost before = atoms@;
    let mut end: usize = 0;
    assert(before.take(0) == Seq::<Atom>::empty());
    while end < atoms.len()
        invariant
            end <= atoms@.len(),
            atoms@.len() == before.len(),
            atoms@ == ordered_by_hash(before.take(end as int)) + before.skip(end as int),
        decreases atoms.len() - end,
    {
        let ghost current = atoms@;
        let ghost seen = before.take(end as int);
        proof {
            lemma_ordered_len(seen);
            lemma_placed_len(ordered_by_hash(seen), before[end as int]);
        }
        assert(current.take(end as int) == ordered_by_hash(seen));
        assert(current[end as int] == before[end as int]);
        assert(current.skip(end + 1) == before.skip(end + 1));
        place_last(atoms, end);
        end = end + 1;
        assert(before.take(end as int).drop_last() == seen);
    }
    assert(before.take(end as int) == before);
    proof {
        lemma_ordered_len(before);
    }
}

/// Whether the hashes ascend.
pub open spec fn ascending(atoms: Seq<Atom>) -> bool {
    forall|i: int, j: int| 0 <= i <= j < atoms.len() ==> atoms[i].hash <= atoms[j].hash
}

/// The atoms of one hash, in order.
pub open spec fn of_hash(atoms: Seq<Atom>, hash: u32) -> Seq<Atom> {
    atoms.filter(|atom: Atom| atom.hash == hash)
}

proof fn lemma_of_hash_push(atoms: Seq<Atom>, atom: Atom, hash: u32)
    ensures
        of_hash(atoms.push(atom), hash) == if atom.hash == hash {
            of_hash(atoms, hash).push(atom)
        } else {
            of_hash(atoms, hash)
        },
{
    reveal(Seq::filter);
    assert(atoms.push(atom).drop_last() == atoms);
}

proof fn lemma_placed(ordered: Seq<Atom>, atom: Atom)
    requires
        ascending(ordered),
    ensures
        ascending(placed(ordered, atom)),
        forall|hash: u32| #[trigger]
            of_hash(placed(ordered, atom), hash) == of_hash(ordered.push(atom), hash),
        placed(ordered, atom).to_multiset() == ordered.push(atom).to_multiset(),
    decreases ordered.len(),
{
    broadcast use vstd::seq_lib::group_to_multiset_ensures;

    if ordered.len() > 0 && ordered.last().hash > atom.hash {
        let shorter = ordered.drop_last();
        let last = ordered.last();
        let inner = placed(shorter, atom);
        lemma_placed(shorter, atom);
        assert(ordered == shorter.push(last));
        assert forall|hash: u32| #[trigger]
            of_hash(placed(ordered, atom), hash) == of_hash(ordered.push(atom), hash) by {
            lemma_of_hash_push(inner, last, hash);
            lemma_of_hash_push(shorter, atom, hash);
            lemma_of_hash_push(shorter, last, hash);
            lemma_of_hash_push(ordered, atom, hash);
        }
        assert(placed(ordered, atom).to_multiset() == ordered.push(atom).to_multiset());
        assert(ascending(placed(ordered, atom))) by {
            assert forall|i: int| 0 <= i < inner.len() implies (#[trigger] inner[i]).hash
                <= last.hash by {
                assert(inner.to_multiset().contains(inner[i]));
                assert(shorter.push(atom).to_multiset().contains(inner[i]));
                assert(shorter.push(atom).contains(inner[i]));
                let at = choose|at: int|
                    0 <= at < shorter.push(atom).len() && shorter.push(atom)[at] == inner[i];
                if at < shorter.len() {
                    assert(ordered[at] == inner[i]);
                }
            }
        }
    }
}

/// Ordering by hash is a stable sort: the hashes ascend, no atom is lost or added,
/// and the atoms of one hash keep their order.
pub proof fn law_ordering_is_a_stable_sort(atoms: Seq<Atom>)
    ensures
        ascending(ordered_by_hash(atoms)),
        ordered_by_hash(atoms).to_multiset() == atoms.to_multiset(),
        forall|hash: u32| #[trigger]
            of_hash(ordered_by_hash(atoms), hash) == of_hash(atoms, hash),
    decreases atoms.len(),
{
    broadcast use vstd::seq_lib::group_to_multiset_ensures;

    if atoms.len() > 0 {
        let shorter = atoms.drop_last();
        law_ordering_is_a_stable_sort(shorter);
        lemma_placed(ordered_by_hash(shorter), atoms.last());
        assert(atoms == shorter.push(atoms.last()));
        assert forall|hash: u32| #[trigger]
            of_hash(ordered_by_hash(atoms), hash) == of_hash(atoms, hash) by {
            assert(of_hash(ordered_by_hash(shorter), hash) == of_hash(shorter, hash));
            lemma_of_hash_push(ordered_by_hash(shorter), atoms.last(), hash);
            lemma_of_hash_push(shorter, atoms.last(), hash);
        }
    }
}

/// There is but one way to order atoms of different hashes.
proof fn lemma_one_order(left: Seq<Atom>, right: Seq<Atom>)
    requires
        ascending(left),
        ascending(right),
        left.to_multiset() == right.to_multiset(),
        forall|i: int, j: int|
            0 <= i < left.len() && 0 <= j < left.len() && (#[trigger] left[i]).hash == (
            #[trigger] left[j]).hash ==> left[i] == left[j],
    ensures
        left == right,
    decreases left.len(),
{
    broadcast use vstd::seq_lib::group_to_multiset_ensures;

    assert(left.to_multiset().len() == left.len());
    assert(right.to_multiset().len() == right.len());
    if left.len() > 0 {
        let l = left.last();
        let r = right.last();
        assert(left.to_multiset().contains(l));
        assert(right.to_multiset().contains(r));
        assert(right.contains(l));
        assert(left.contains(r));
        let at = choose|at: int| 0 <= at < right.len() && right[at] == l;
        let from = choose|from: int| 0 <= from < left.len() && left[from] == r;
        assert(l.hash <= r.hash);
        assert(r.hash <= l.hash);
        assert(left[from] == left[left.len() - 1]);
        assert(l == r);
        assert(left == left.drop_last().push(l));
        assert(right == right.drop_last().push(r));
        assert(left.drop_last().to_multiset() == left.to_multiset().remove(l));
        assert(right.drop_last().to_multiset() == right.to_multiset().remove(r));
        lemma_one_order(left.drop_last(), right.drop_last());
    }
}

/// Lists of the same atoms are the same once they are ordered, whatever order they
/// came in, as long as different atoms have different hashes.
pub proof fn law_order_of_atoms_is_immaterial(left: Seq<Atom>, right: Seq<Atom>)
    requires
        left.to_multiset() == right.to_multiset(),
        forall|a: Atom, b: Atom|
            left.contains(a) && left.contains(b) && a.hash == b.hash ==> a == b,
    ensures
        ordered_by_hash(left) == ordered_by_hash(right),
{
    broadcast use vstd::seq_lib::group_to_multiset_ensures;

    law_ordering_is_a_stable_sort(left);
    law_ordering_is_a_stable_sort(right);
    let ordered = ordered_by_hash(left);
    assert forall|i: int, j: int|
        0 <= i < ordered.len() && 0 <= j < ordered.len() && (#[trigger] ordered[i]).hash == (
        #[trigger] ordered[j]).hash implies ordered[i] == ordered[j] by {
        assert(ordered.to_multiset().contains(ordered[i]));
        assert(ordered.to_multiset().contains(ordered[j]));
        assert(left.contains(ordered[i]));
        assert(left.contains(ordered[j]));
    }
    lemma_one_order(ordered, ordered_by_hash(right));
}

} // verus!
