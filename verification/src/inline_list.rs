//! Short lists that live in place as long as they have few items.

use crate::atom::Atom;
use crate::stylist::ApplicableDeclarationBlock;
use smallvec::SmallVec;
use vstd::prelude::*;

verus! {

/// How many items a list holds in place.
pub const INLINE_ITEMS: usize = 5;

/// A list of atoms: a `smallvec::SmallVec` that starts out empty and to which
/// atoms are pushed.
#[verifier::external_body]
#[derive(Debug)]
pub struct AtomList {
    items: SmallVec<[Atom; INLINE_ITEMS]>,
}

/// The atoms of a list, in order.
pub uninterp spec fn atom_items(list: AtomList) -> Seq<Atom>;

impl AtomList {
    /// `smallvec::SmallVec::new`: a list without items.
    #[verifier::external_body]
    pub(crate) fn new() -> (list: Self)
        ensures
            atom_items(list) == Seq::<Atom>::empty(),
    {
        AtomList { items: SmallVec::new() }
    }

    /// `smallvec::SmallVec::push`: the item is appended.
    #[verifier::external_body]
    pub(crate) fn push(&mut self, item: Atom)
        ensures
            atom_items(*final(self)) == atom_items(*old(self)).push(item),
    {
        self.items.push(item);
    }

    /// `smallvec::SmallVec::spilled`: whether the items have left their place in
    /// the list for the heap. They do so when one more is pushed than there is
    /// place for, and a list that never shrinks has then more items than that.
    #[verifier::external_body]
    pub(crate) fn spilled(&self) -> (spilled: bool)
        ensures
            spilled == (atom_items(*self).len() > INLINE_ITEMS),
    {
        self.items.spilled()
    }

    /// `smallvec::SmallVec::as_slice`: all the items, in order.
    #[verifier::external_body]
    pub(crate) fn as_slice(&self) -> (items: &[Atom])
        ensures
            items@ == atom_items(*self),
    {
        self.items.as_slice()
    }

    /// `smallvec::SmallVec::as_mut_slice`: all the items, in order, to be changed
    /// in place.
    #[verifier::external_body]
    pub(crate) fn as_mut_slice(&mut self) -> (items: &mut [Atom])
        ensures
            items@ == atom_items(*old(self)),
            final(items)@ == atom_items(*final(self)),
    {
        self.items.as_mut_slice()
    }
}

/// A list of declaration blocks: a `smallvec::SmallVec` that starts out empty and
/// to which blocks are pushed.
#[verifier::external_body]
#[derive(Debug)]
pub struct BlockList {
    items: SmallVec<[ApplicableDeclarationBlock; INLINE_ITEMS]>,
}

/// The blocks of a list, in order.
pub uninterp spec fn block_items(list: BlockList) -> Seq<ApplicableDeclarationBlock>;

impl BlockList {
    /// `smallvec::SmallVec::new`: a list without items.
    #[verifier::external_body]
    pub(crate) fn new() -> (list: Self)
        ensures
            block_items(list) == Seq::<ApplicableDeclarationBlock>::empty(),
    {
        BlockList { items: SmallVec::new() }
    }

    /// `smallvec::SmallVec::push`: the item is appended.
    #[verifier::external_body]
    pub(crate) fn push(&mut self, item: ApplicableDeclarationBlock)
        ensures
            block_items(*final(self)) == block_items(*old(self)).push(item),
    {
        self.items.push(item);
    }

    /// `smallvec::SmallVec::as_slice`: all the items, in order.
    #[verifier::external_body]
    pub(crate) fn as_slice(&self) -> (items: &[ApplicableDeclarationBlock])
        ensures
            items@ == block_items(*self),
    {
        self.items.as_slice()
    }
}

} // verus!
