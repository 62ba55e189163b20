//! A combinator wrapping a computation that may already have finished.

use vstd::prelude::*;

use crate::utils::misc::assert_future;

verus! {

/// A suspendable unit computation that may have run to completion.
///
/// The wrapper starts as `Future` holding the computation. Once the inner
/// computation reports completion, the wrapper moves to `Done` and stays
/// there: every later step completes at once without touching the inner
/// computation again. `Gone` marks a wrapper whose completed value was
/// taken away; stepping it is a caller error, so [`MaybeDone::advance`]
/// refuses that state.
pub enum MaybeDone<F> {
    /// The inner computation has not completed yet.
    Future(F),
    /// The inner computation completed and its unit result is held here.
    Done,
    /// The completed result has been taken away.
    Gone,
}

impl<F> MaybeDone<F> {
    /// One poll step of the wrapper. `inner_ready` reports what one step of
    /// the inner computation returned when the wrapper still holds it; when
    /// the wrapper is already `Done` the inner computation no longer exists
    /// and the argument is not read. Returns the next state and whether the
    /// wrapper as a whole completed this step.
    pub fn advance(self, inner_ready: bool) -> (r: (MaybeDone<F>, bool))
        requires
            !(self is Gone),
        ensures
            self is Future && !inner_ready ==> r == (self, false),
            self is Future && inner_ready ==> r == (MaybeDone::<F>::Done, true),
            self is Done ==> r == (MaybeDone::<F>::Done, true),
    {
        match self {
            MaybeDone::Future(f) => {
                if inner_ready {
                    (MaybeDone::Done, true)
                } else {
                    (MaybeDone::Future(f), false)
                }
            },
            MaybeDone::Done => (MaybeDone::Done, true),
            MaybeDone::Gone => vstd::pervasive::unreached(),
        }
    }
}

/// Wraps a computation into a [`MaybeDone`] in its not-yet-done state.
pub fn maybe_done<F>(future: F) -> (r: MaybeDone<F>)
    ensures
        r == MaybeDone::Future(future),
{
    assert_future(MaybeDone::Future(future))
}

} // verus!
