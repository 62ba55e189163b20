//! The reactor's pending-wait table: which task is woken when the kernel
//! reports readiness under a given token.
//!
//! The selector itself — the kernel event queue and its system calls — lives
//! with the runtime driver; this table holds the routing state and the
//! routing decision. In this runtime a waker is nothing but the pointer-width
//! payload of a task id (its vtable marks the task ready and carries no other
//! state), so a pending wait is recorded here directly as the id the waker
//! stands for.

use vstd::prelude::*;

use std::collections::HashMap;

use crate::scheduler::Scheduler;
use crate::task::Id as TaskId;
use crate::token::Token;

verus! {

broadcast use vstd::std_specs::hash::group_hash_axioms;

/// What one readiness event does to the ready queue: when a waiter is
/// parked under the event's token, holds an id the scheduler has handed
/// out, and is not already queued, its id is appended; otherwise the queue
/// is left alone.
pub open spec fn wake_step(
    waits: Map<usize, TaskId>,
    next: usize,
    ready: Seq<TaskId>,
    t: Token,
) -> Seq<TaskId> {
    if waits.dom().contains(t.0) && waits[t.0].0 < next && !ready.contains(waits[t.0]) {
        ready.push(waits[t.0])
    } else {
        ready
    }
}

/// The ready queue after a batch of readiness events is routed in order.
pub open spec fn route(
    waits: Map<usize, TaskId>,
    next: usize,
    ready: Seq<TaskId>,
    events: Seq<Token>,
) -> Seq<TaskId>
    decreases events.len(),
{
    if events.len() == 0 {
        ready
    } else {
        wake_step(waits, next, route(waits, next, ready, events.drop_last()), events.last())
    }
}

/// Maps the token of each parked registration to the task waiting on it.
///
/// An entry is made when an async operation returns pending, replaced when
/// the same token is parked again (last writer wins: a single task owns an
/// operation on a file descriptor at a time), and removed when the
/// operation deregisters its descriptor.
pub struct Reactor {
    /// Holds the correspondence between blocked file descriptors' tokens
    /// and the tasks their wakers stand for, which the runtime uses to wake
    /// up tasks.
    blocked_fds: HashMap<usize, TaskId>,
}

impl Reactor {
    /// The pending waits: token payload to waiting task id.
    pub closed spec fn waits(self) -> Map<usize, TaskId> {
        self.blocked_fds@
    }

    /// A reactor with no pending waits.
    pub fn new() -> (r: Reactor)
        ensures
            r.waits() == Map::<usize, TaskId>::empty(),
    {
        Reactor { blocked_fds: HashMap::new() }
    }

    /// Parks the waker of the task `id` under `token`: when an event
    /// carrying this token fires, that task is woken. Parking a second time
    /// replaces the prior waiter.
    pub fn do_block(&mut self, token: Token, id: TaskId)
        ensures
            final(self).waits() == old(self).waits().insert(token.0, id),
    {
        self.blocked_fds.insert(token.0, id);
    }

    /// Drops the pending wait parked under `token`, if any. Called when the
    /// async operation owning the registration is dropped or completes.
    pub fn do_deregister(&mut self, token: Token)
        ensures
            final(self).waits() == old(self).waits().remove(token.0),
    {
        self.blocked_fds.remove(&token.0);
    }

    /// Looks up the task waiting under `token`, without removing it.
    pub fn get_waker(&self, token: Token) -> (r: Option<TaskId>)
        ensures
            match r {
                Some(id) => self.waits().contains_key(token.0) && id == self.waits()[token.0],
                None => !self.waits().contains_key(token.0),
            },
    {
        match self.blocked_fds.get(&token.0) {
            Some(id) => Some(*id),
            None => None,
        }
    }

    /// Routes one batch of readiness events: for each event in kernel
    /// order, wakes the task parked under the event's token. Tokens with no
    /// parked waiter are dropped silently — the task that armed them may
    /// have been dropped between event arming and arrival — and so is a
    /// waiter whose id the scheduler never handed out, which cannot name a
    /// task.
    pub fn dispatch<T>(&self, events: &Vec<Token>, sched: &mut Scheduler<T>)
        requires
            old(sched).wf(),
        ensures
            final(sched).wf(),
            final(sched).ready() == route(
                self.waits(),
                old(sched).next_spec(),
                old(sched).ready(),
                events@,
            ),
            final(sched).tasks() == old(sched).tasks(),
            final(sched).next_spec() == old(sched).next_spec(),
    {
        let n = events.len();
        let mut i: usize = 0;
        #[verifier::loop_isolation(false)]
        while i < n
            invariant
                0 <= i <= n,
                sched.wf(),
                sched.tasks() == old(sched).tasks(),
                sched.next_spec() == old(sched).next_spec(),
                sched.ready() == route(
                    self.waits(),
                    old(sched).next_spec(),
                    old(sched).ready(),
                    events@.take(i as int),
                ),
            decreases n - i,
        {
            proof {
                assert(events@.take(i + 1).drop_last() == events@.take(i as int));
                assert(events@.take(i + 1).last() == events@[i as int]);
            }
            let token = events[i];
            match self.get_waker(token) {
                Some(id) => {
                    if sched.is_allocated(&id) {
                        sched.do_notify(id);
                    }
                },
                None => {},
            }
            i = i + 1;
        }
        proof {
            assert(events@.take(n as int) == events@);
        }
    }
}

impl Default for Reactor {
    /// The same reactor as [`Reactor::new`] returns.
    fn default() -> (r: Reactor)
        ensures
            r.waits() == Map::<usize, TaskId>::empty(),
    {
        Reactor::new()
    }
}

} // verus!
