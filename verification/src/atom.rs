//! Interned strings.

use vstd::prelude::*;

verus! {

/// An interned string. Two atoms are equal when they stand for the same string.
#[derive(Clone, Copy, Debug, PartialEq, Eq, Structural)]
pub struct Atom {
    /// The number that the string table gave to the string.
    pub id: u64,
    /// The hash of the string.
    pub hash: u32,
}

impl Atom {
    /// The hash of the string that the atom stands for.
    pub fn get_hash(&self) -> (hash: u32)
        ensures
            hash == self.hash,
    {
        self.hash
    }
}

} // verus!
