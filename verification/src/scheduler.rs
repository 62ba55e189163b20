//! The cooperative scheduler: the per-runtime owner of all live tasks, their
//! ready queue, and the counter that hands out task identities.

use vstd::prelude::*;

use std::collections::HashMap;

use crate::task::Id as TaskId;

verus! {

broadcast use vstd::std_specs::hash::group_hash_axioms;

/// The current phase of the runtime, as read off the scheduler's two sets.
#[derive(Clone, Copy, PartialEq, Eq, Structural, Debug)]
pub enum Status {
    /// The scheduler still holds tasks that are ready to be polled.
    RunningTasks,
    /// Live tasks remain, but none is ready: the runtime must wait for
    /// readiness events before any task can progress.
    WaitingForEvents,
    /// No live task remains; the runtime is done.
    Done,
}

/// Every id in `ids` was drawn from a counter that now stands at `bound`.
pub open spec fn ids_below(ids: Seq<TaskId>, bound: usize) -> bool {
    forall|i: int| 0 <= i < ids.len() ==> (#[trigger] ids[i]).0 < bound
}

/// No id occurs twice in `ids`.
pub open spec fn distinct_ids(ids: Seq<TaskId>) -> bool {
    forall|i: int, j: int| 0 <= i < j < ids.len() ==> ids[i] != ids[j]
}

/// Every key of `m` was drawn from a counter that now stands at `bound`.
pub open spec fn keys_below<T>(m: Map<usize, T>, bound: usize) -> bool {
    forall|k: usize| #[trigger] m.dom().contains(k) ==> k < bound
}

/// Owns every not-yet-completed task, keyed by task id, together with the
/// queue of ids that are ready to be polled on the next drain.
///
/// The scheduler is generic in the task representation `T`: the runtime
/// driver stores its pinned task state machines here and advances them
/// outside this type, checking a task out with [`Scheduler::get_task`] and,
/// when the step left it unfinished, checking it back in with
/// [`Scheduler::do_pend`]. A completed task is simply not reinserted, so its
/// id is gone from the scheduler the moment its final poll begins.
pub struct Scheduler<T> {
    /// Holds the next id value, assigned to the task spawned next.
    next_id: TaskId,
    /// Holds the tasks to be polled, ready or suspended, keyed by the
    /// pointer-width payload of their id.
    pending_tasks: HashMap<usize, T>,
    /// Holds the identifiers of tasks ready to be polled.
    scheduled_ids: Vec<TaskId>,
}

impl<T> Scheduler<T> {
    /// The tasks the scheduler currently owns, keyed by id payload.
    pub closed spec fn tasks(self) -> Map<usize, T> {
        self.pending_tasks@
    }

    /// The ready queue, oldest entry first.
    pub closed spec fn ready(self) -> Seq<TaskId> {
        self.scheduled_ids@
    }

    /// The payload of the id that the next spawn will receive.
    pub closed spec fn next_spec(self) -> usize {
        self.next_id.0
    }

    /// Whether `id` already sits in the ready queue.
    pub open spec fn ready_contains(self, id: TaskId) -> bool {
        self.ready().contains(id)
    }

    /// The scheduler's invariant: every id it has ever handed out is below
    /// the counter, and the ready queue never queues an id twice.
    pub open spec fn wf(self) -> bool {
        &&& keys_below(self.tasks(), self.next_spec())
        &&& ids_below(self.ready(), self.next_spec())
        &&& distinct_ids(self.ready())
    }

    /// The status determined by the two sets: done once no task is owned,
    /// waiting when tasks remain but none is queued, running otherwise.
    pub open spec fn spec_status(self) -> Status {
        if self.tasks().is_empty() {
            Status::Done
        } else if self.ready().len() == 0 {
            Status::WaitingForEvents
        } else {
            Status::RunningTasks
        }
    }

    /// A scheduler that owns nothing and starts counting ids at zero.
    pub fn new() -> (r: Scheduler<T>)
        ensures
            r.wf(),
            r.tasks() == Map::<usize, T>::empty(),
            r.ready() == Seq::<TaskId>::empty(),
            r.next_spec() == 0,
    {
        Scheduler { next_id: TaskId(0), pending_tasks: HashMap::new(), scheduled_ids: Vec::new() }
    }

    /// Returns the current `Status` of the runtime.
    pub fn get_status(&self) -> (r: Status)
        ensures
            r == self.spec_status(),
    {
        if self.pending_tasks.is_empty() {
            Status::Done
        } else if self.scheduled_ids.len() == 0 {
            Status::WaitingForEvents
        } else {
            Status::RunningTasks
        }
    }

    /// Hands the caller the whole ready queue for one drain, leaving the
    /// scheduler's queue empty. Wakes that arrive while the drained ids are
    /// being polled accumulate into the emptied queue for the next drain.
    pub fn get_scheduled_ids(&mut self) -> (r: Vec<TaskId>)
        requires
            old(self).wf(),
        ensures
            final(self).wf(),
            r@ == old(self).ready(),
            final(self).ready() == Seq::<TaskId>::empty(),
            final(self).tasks() == old(self).tasks(),
            final(self).next_spec() == old(self).next_spec(),
    {
        let mut drained: Vec<TaskId> = Vec::new();
        std::mem::swap(&mut drained, &mut self.scheduled_ids);
        drained
    }

    /// Detaches the task with the given `id` so the caller can poll it, or
    /// returns `None` when the id is spurious or already complete. While
    /// detached, the task is owned by the caller alone: a re-entrant wake of
    /// the same id can only queue it, never reach the value being stepped.
    pub fn get_task(&mut self, id: &TaskId) -> (r: Option<T>)
        requires
            old(self).wf(),
        ensures
            final(self).wf(),
            old(self).tasks().contains_key(id.0) ==> r == Some(old(self).tasks()[id.0]),
            !old(self).tasks().contains_key(id.0) ==> r is None,
            final(self).tasks() == old(self).tasks().remove(id.0),
            final(self).ready() == old(self).ready(),
            final(self).next_spec() == old(self).next_spec(),
    {
        let r = self.pending_tasks.remove(&id.0);
        proof {
            lemma_keys_below_remove(old(self).tasks(), id.0, self.next_spec());
        }
        r
    }

    /// Spawns `task`: assigns it the next fresh id, takes ownership of it,
    /// and queues the new id at the tail of the ready queue.
    pub fn do_schedule(&mut self, task: T)
        requires
            old(self).wf(),
            old(self).next_spec() < usize::MAX,
        ensures
            final(self).wf(),
            final(self).tasks() == old(self).tasks().insert(old(self).next_spec(), task),
            final(self).ready() == old(self).ready().push(TaskId(old(self).next_spec())),
            final(self).next_spec() == old(self).next_spec() + 1,
    {
        let id = self.next_id.increment();
        self.pending_tasks.insert(id.0, task);
        self.scheduled_ids.push(id);
        proof {
            lemma_keys_below_insert(old(self).tasks(), id.0, task, self.next_spec());
            lemma_ids_below_push(old(self).ready(), id, self.next_spec());
            lemma_distinct_push_fresh(old(self).ready(), id, old(self).next_spec());
        }
    }

    /// Checks a still-pending task back in under the id it was detached
    /// with.
    pub fn do_pend(&mut self, id: TaskId, task: T)
        requires
            old(self).wf(),
            id.0 < old(self).next_spec(),
        ensures
            final(self).wf(),
            final(self).tasks() == old(self).tasks().insert(id.0, task),
            final(self).ready() == old(self).ready(),
            final(self).next_spec() == old(self).next_spec(),
    {
        self.pending_tasks.insert(id.0, task);
        proof {
            lemma_keys_below_insert(old(self).tasks(), id.0, task, self.next_spec());
        }
    }

    /// Notifies the runtime that the task with the given `id` is ready to
    /// poll. Queueing is idempotent: an id that already waits in the ready
    /// queue is not queued a second time, so any burst of wakes before the
    /// next drain yields exactly one poll in that drain.
    pub fn do_notify(&mut self, id: TaskId)
        requires
            old(self).wf(),
            id.0 < old(self).next_spec(),
        ensures
            final(self).wf(),
            final(self).tasks() == old(self).tasks(),
            final(self).next_spec() == old(self).next_spec(),
            old(self).ready_contains(id) ==> final(self).ready() == old(self).ready(),
            !old(self).ready_contains(id) ==> final(self).ready() == old(self).ready().push(id),
            final(self).ready_contains(id),
    {
        let n = self.scheduled_ids.len();
        let mut i: usize = 0;
        #[verifier::loop_isolation(false)]
        while i < n
            invariant
                *self == *old(self),
                n == self.scheduled_ids.len(),
                0 <= i <= n,
                forall|j: int| 0 <= j < i ==> self.scheduled_ids@[j] != id,
            decreases n - i,
        {
            if self.scheduled_ids[i].0 == id.0 {
                proof {
                    assert(self.ready()[i as int] == id);
                    assert(self.ready_contains(id));
                }
                return ;
            }
            i = i + 1;
        }
        proof {
            assert(forall|j: int| 0 <= j < self.ready().len() ==> self.ready()[j] != id);
            assert(!self.ready_contains(id));
            lemma_ids_below_push(self.ready(), id, self.next_spec());
            lemma_distinct_push_absent(self.ready(), id);
        }
        self.scheduled_ids.push(id);
        proof {
            assert(self.ready()[self.ready().len() - 1] == id);
        }
    }

    /// Whether `id` was ever handed out by this scheduler. Only such ids may
    /// be woken or checked back in.
    pub fn is_allocated(&self, id: &TaskId) -> (r: bool)
        ensures
            r == (id.0 < self.next_spec()),
    {
        id.0 < self.next_id.0
    }
}

impl<T> Default for Scheduler<T> {
    /// The same scheduler as [`Scheduler::new`] returns.
    fn default() -> (r: Scheduler<T>)
        ensures
            r.wf(),
            r.tasks() == Map::<usize, T>::empty(),
            r.ready() == Seq::<TaskId>::empty(),
            r.next_spec() == 0,
    {
        Scheduler::new()
    }
}

/// Removing a key keeps every remaining key below the bound.
proof fn lemma_keys_below_remove<T>(m: Map<usize, T>, k: usize, bound: usize)
    requires
        keys_below(m, bound),
    ensures
        keys_below(m.remove(k), bound),
{
    assert forall|x: usize| #[trigger] m.remove(k).dom().contains(x) implies x < bound by {
        assert(m.dom().contains(x));
    }
}

/// Inserting a key below the bound keeps every key below the bound.
proof fn lemma_keys_below_insert<T>(m: Map<usize, T>, k: usize, v: T, bound: usize)
    requires
        keys_below(m, bound),
        k < bound,
    ensures
        keys_below(m.insert(k, v), bound),
{
    assert forall|x: usize| #[trigger] m.insert(k, v).dom().contains(x) implies x < bound by {
        if x != k {
            assert(m.dom().contains(x));
        }
    }
}

/// Appending an id below the bound keeps every queued id below the bound.
proof fn lemma_ids_below_push(ids: Seq<TaskId>, id: TaskId, bound: usize)
    requires
        ids_below(ids, bound),
        id.0 < bound,
    ensures
        ids_below(ids.push(id), bound),
{
    assert forall|i: int| 0 <= i < ids.push(id).len() implies (#[trigger] ids.push(id)[i]).0
        < bound by {
        if i < ids.len() {
            assert(ids.push(id)[i] == ids[i]);
        }
    }
}

/// Appending an id that is not yet queued keeps the queue free of
/// duplicates.
proof fn lemma_distinct_push_absent(ids: Seq<TaskId>, id: TaskId)
    requires
        distinct_ids(ids),
        !ids.contains(id),
    ensures
        distinct_ids(ids.push(id)),
{
    assert forall|i: int, j: int| 0 <= i < j < ids.push(id).len() implies ids.push(id)[i]
        != ids.push(id)[j] by {
        if j < ids.len() {
            assert(ids.push(id)[i] == ids[i] && ids.push(id)[j] == ids[j]);
        } else {
            assert(ids.push(id)[i] == ids[i] && ids.push(id)[j] == id);
        }
    }
}

/// Appending a fresh id, one at or above the bound that every queued id
/// lies below, keeps the queue free of duplicates.
proof fn lemma_distinct_push_fresh(ids: Seq<TaskId>, id: TaskId, bound: usize)
    requires
        ids_below(ids, bound),
        distinct_ids(ids),
        id.0 >= bound,
    ensures
        distinct_ids(ids.push(id)),
{
    assert(!ids.contains(id)) by {
        if ids.contains(id) {
            let i = ids.index_of(id);
            assert(ids[i].0 < bound);
        }
    }
    lemma_distinct_push_absent(ids, id);
}

} // verus!
