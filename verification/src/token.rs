//! The user-defined data attached to a selector registration, echoed back by
//! the kernel with every readiness event.

use vstd::prelude::*;
use vstd::std_specs::convert::FromSpec;

use crate::task::Id as TaskId;

verus! {

/// Identifies a registration at the selector. The kernel stores the token in
/// the opaque user-data slot of each installed event and returns it
/// unchanged, so the reactor can route an event back to a waiting task
/// without a side table. A token is carried as a pointer-width word, written
/// with [`Token::to_ptr`] and read back with [`Token::from_ptr`].
#[derive(Default, Clone, Copy, PartialEq, Eq, Structural, Hash, Debug)]
pub struct Token(pub usize);

impl Token {
    /// Returns the copy of the current `Token` and increments the internal
    /// counter value.
    pub fn increment(&mut self) -> (r: Token)
        requires
            old(self).0 < usize::MAX,
        ensures
            r == *old(self),
            final(self).0 == old(self).0 + 1,
    {
        let ret = Token(self.0);
        self.0 = self.0 + 1;
        ret
    }

    /// Flattens the token into the pointer-width word that rides in the
    /// kernel's opaque user-data slot.
    pub fn to_ptr(self) -> (r: usize)
        ensures
            r == self.0,
    {
        self.0
    }

    /// Recovers the token from the pointer-width word of the kernel's opaque
    /// user-data slot.
    pub fn from_ptr(value: usize) -> (r: Token)
        ensures
            r == Token(value),
    {
        Token(value)
    }
}

impl From<TaskId> for Token {
    /// Derives the registration token that stands for a task's pending wait.
    fn from(id: TaskId) -> (r: Token)
        ensures
            r == Token(id.0),
    {
        Token::from_ptr(id.to_ptr())
    }
}

impl vstd::std_specs::convert::FromSpecImpl<TaskId> for Token {
    open spec fn obeys_from_spec() -> bool {
        true
    }

    open spec fn from_spec(id: TaskId) -> Token {
        Token(id.0)
    }
}

/// Token, task id and pointer-width payload convert into one another as the
/// identity, in both directions: a task id turned into a token and back is
/// the same id, a token turned into a task id and back is the same token,
/// and flattening either to its payload word and recovering it changes
/// nothing.
pub proof fn lemma_token_id_payload_round_trip(id: TaskId, token: Token, payload: usize)
    ensures
        <TaskId as FromSpec<Token>>::from_spec(<Token as FromSpec<TaskId>>::from_spec(id)) == id,
        <Token as FromSpec<TaskId>>::from_spec(<TaskId as FromSpec<Token>>::from_spec(token))
            == token,
        Token(token.0) == token,
        TaskId(id.0) == id,
        Token(payload).0 == payload,
        TaskId(payload).0 == payload,
{
}

} // verus!
