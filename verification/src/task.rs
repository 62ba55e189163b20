//! The identity of a task: a dense, monotonically increasing integer that is
//! small enough to round-trip through a pointer-width word.

use vstd::prelude::*;

use crate::token::Token;

verus! {

/// Identifies a task owned by the scheduler. Ids are handed out from a
/// per-scheduler counter and are never reused within a runtime lifetime.
///
/// The id doubles as the payload of the task's waker: it is converted to a
/// pointer-width word with [`Id::to_ptr`] so that it can travel through the
/// opaque data slot of a waker without heap allocation, and recovered with
/// [`Id::from_ptr`] when the waker fires.
#[derive(Clone, Copy, PartialEq, Eq, Structural, Hash, Debug)]
pub struct Id(pub usize);

impl Id {
    /// Returns the copy of the current `Id` and increments the internal
    /// counter value.
    pub fn increment(&mut self) -> (r: Id)
        requires
            old(self).0 < usize::MAX,
        ensures
            r == *old(self),
            final(self).0 == old(self).0 + 1,
    {
        let ret = Id(self.0);
        self.0 = self.0 + 1;
        ret
    }

    /// Flattens the id into the pointer-width word that rides in a waker's
    /// opaque data slot.
    pub fn to_ptr(self) -> (r: usize)
        ensures
            r == self.0,
    {
        self.0
    }

    /// Recovers the id from the pointer-width word of a waker's opaque data
    /// slot.
    pub fn from_ptr(value: usize) -> (r: Id)
        ensures
            r == Id(value),
    {
        Id(value)
    }
}

impl Default for Id {
    /// The first id a fresh scheduler hands out.
    fn default() -> (r: Id)
        ensures
            r == Id(0),
    {
        Id(0)
    }
}

impl From<Token> for Id {
    /// Reads a selector token back as the task id it was derived from.
    fn from(token: Token) -> (r: Id)
        ensures
            r == Id(token.0),
    {
        Id::from_ptr(token.to_ptr())
    }
}

impl vstd::std_specs::convert::FromSpecImpl<Token> for Id {
    open spec fn obeys_from_spec() -> bool {
        true
    }

    open spec fn from_spec(token: Token) -> Id {
        Id(token.0)
    }
}

} // verus!
