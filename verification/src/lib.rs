//! A minimal, single-threaded asynchronous I/O runtime core for network
//! services on BSD-derived operating systems.
//!
//! The crate holds the runtime's bookkeeping: the cooperative scheduler that
//! owns all live tasks, the reactor table that maps readiness tokens back to
//! the tasks awaiting them, the interest bitset, the identifier round-trips
//! used to carry task ids through the kernel's opaque user-data slot, and
//! the planning and receipt-checking logic for the `kqueue`-family selector.
//! The protocol the runtime driver must follow when it threads these calls
//! together, and the laws that protocol upholds, are stated and proved in
//! [`model`]. The thin shell that performs the actual system calls and polls
//! the pinned task state machines lives with the embedding program.

pub mod interest;
pub mod model;
pub mod reactor;
pub mod scheduler;
pub mod selector;
pub mod task;
pub mod token;
pub mod utils;
