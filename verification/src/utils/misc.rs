//! Small helpers shared by the combinators.

use vstd::prelude::*;

verus! {

/// Hands the computation back unchanged; the call marks the place where a
/// combinator finishes building its result, so the type produced there
/// stays explicit at the construction site.
pub fn assert_future<F>(future: F) -> (r: F)
    ensures
        r == future,
{
    future
}

} // verus!
