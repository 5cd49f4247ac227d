//! Entity keys.

use vstd::prelude::*;

verus! {

/// An opaque identifier of a logical object: a slot index together with the
/// generation of that slot. Two keys are equal iff both fields match.
#[derive(Clone, Copy, Debug, PartialEq, Eq, Structural)]
pub struct Key {
    pub index: usize,
    pub gen: u64,
}

impl Key {
    /// Builds the key of the entity living at `index` in generation `gen`.
    pub fn new(index: usize, gen: u64) -> (key: Key)
        ensures
            key.index == index,
            key.gen == gen,
    {
        Key { index, gen }
    }

    /// The slot index this key addresses.
    pub fn index(&self) -> (index: usize)
        ensures
            index == self.index,
    {
        self.index
    }

    /// The generation this key was issued in.
    pub fn gen(&self) -> (gen: u64)
        ensures
            gen == self.gen,
    {
        self.gen
    }
}

} // verus!
