//! Unique identifiers for pipeline stages.

use vstd::prelude::*;

verus! {

/// A unique identifier.
#[derive(Debug, Clone, Copy, PartialEq, Eq, Hash, Structural)]
pub struct Id(usize);

impl View for Id {
    type V = usize;

    closed spec fn view(&self) -> usize {
        self.0
    }
}

impl Id {
    /// The number that stands for this identifier in maps keyed by stage.
    pub fn number(&self) -> (r: usize)
        ensures
            r == self@,
    {
        self.0
    }
}

/// Generator of unique identifiers.
#[derive(Debug)]
pub struct IdGenerator {
    next_id: usize,
}

/// The view of a generator is the number of identifiers that it has handed out.
impl View for IdGenerator {
    type V = usize;

    closed spec fn view(&self) -> usize {
        self.next_id
    }
}

impl IdGenerator {
    /// Creates a generator whose first identifier is 0.
    pub fn new() -> (r: Self)
        ensures
            r@ == 0,
    {
        Self { next_id: 0 }
    }

    /// Whether no identifier is left.
    pub fn is_exhausted(&self) -> (r: bool)
        ensures
            r == (self@ == usize::MAX),
    {
        self.next_id == usize::MAX
    }

    /// Generates an identifier that this generator has not handed out before.
    pub fn gen_id(&mut self) -> (id: Id)
        requires
            old(self)@ < usize::MAX,
        ensures
            id@ == old(self)@,
            final(self)@ == old(self)@ + 1,
    {
        let id: usize = self.next_id;
        self.next_id = self.next_id + 1;
        Id(id)
    }
}

impl Default for IdGenerator {
    fn default() -> (r: Self)
        ensures
            r@ == 0,
    {
        Self::new()
    }
}

} // verus!
