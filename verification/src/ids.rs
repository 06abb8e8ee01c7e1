//! Identifiers of players and items, and the counter that hands them out.

use vstd::prelude::*;

verus! {

/// An opaque handle for a player or an item.
#[derive(Debug, Clone, Copy, Hash, PartialEq, Eq, Structural)]
pub struct Id(pub usize);

impl Id {
    /// The number behind the handle.
    pub open spec fn spec_raw(&self) -> usize {
        self.0
    }

    #[verifier::when_used_as_spec(spec_raw)]
    pub fn raw(&self) -> (r: usize)
        ensures
            r == self.0,
    {
        self.0
    }
}

/// Hands out identifiers in increasing order, never the same one twice.
#[derive(Debug)]
pub struct IdGen {
    next_id: usize,
}

impl IdGen {
    /// The number of the identifier that the next call of `gen` returns.
    pub closed spec fn next(&self) -> usize {
        self.next_id
    }

    pub fn new() -> (r: Self)
        ensures
            r.next() == 0,
    {
        Self { next_id: 0 }
    }

    /// A counter that goes on from a given number.
    pub fn starting_at(next_id: usize) -> (r: Self)
        ensures
            r.next() == next_id,
    {
        Self { next_id }
    }

    /// How many more identifiers can be handed out.
    pub fn remaining(&self) -> (r: usize)
        ensures
            r == usize::MAX - self.next(),
    {
        usize::MAX - self.next_id
    }

    pub fn gen(&mut self) -> (id: Id)
        requires
            old(self).next() < usize::MAX,
        ensures
            id == Id(old(self).next()),
            final(self).next() == old(self).next() + 1,
    {
        let id = Id(self.next_id);
        self.next_id += 1;
        id
    }
}

impl Clone for IdGen {
    fn clone(&self) -> (r: Self)
        ensures
            r == *self,
    {
        Self { next_id: self.next_id }
    }
}

} // verus!
