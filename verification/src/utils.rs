//! Utility combinators over suspendable computations.

pub mod maybe_done;
pub mod misc;
