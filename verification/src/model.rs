//! The runtime's dispatch protocol as a transition system.
//!
//! The scheduler and the reactor each carry exact contracts, but the laws of
//! the runtime — every spawned task is polled, a completed task is never
//! polled again, every parked waiter belongs to a live task, a burst of
//! wakes yields one poll — speak about how the driver threads those calls
//! together. This module states that protocol as a ghost state machine:
//! each call the driver can make is a [`Step`], [`enabled`] says when the
//! protocol allows it, and [`apply`] gives its effect. The laws are proved
//! as an invariant of every run, and the refinement lemmas at the end tie
//! each step to the contract of the library call it stands for.

use vstd::prelude::*;

use crate::reactor::Reactor;
use crate::reactor::route;
use crate::reactor::wake_step;
use crate::scheduler::Scheduler;
use crate::task::Id as TaskId;
use crate::token::Token;

verus! {

/// The runtime's state, reduced to its bookkeeping: task ids and the places
/// they can sit. Task ids appear as their pointer-width payloads.
pub ghost struct RuntimeModel {
    /// The payload of the id the next spawn receives.
    pub next: usize,
    /// The ids of the tasks the scheduler owns, ready or suspended.
    pub live: Set<usize>,
    /// The ready queue, oldest entry first.
    pub ready: Seq<usize>,
    /// The id detached from the scheduler and being stepped right now, if
    /// any: the dispatch loop polls one task at a time.
    pub polling: Option<usize>,
    /// The reactor's pending waits: token payload to the id of the waiting
    /// task.
    pub waits: Map<usize, usize>,
    /// The ids that have been polled at least once since the runtime
    /// started; recorded for accounting only, nothing reads it back.
    pub polled: Set<usize>,
}

/// One call the runtime driver can make, seen from the bookkeeping side.
pub ghost enum Step {
    /// Spawn a task: it receives the next id and joins the ready queue.
    Spawn,
    /// A waker fires: the task it names joins the ready queue unless
    /// already queued.
    Wake { id: usize },
    /// The dispatch loop takes the whole ready queue as its poll snapshot,
    /// leaving the queue empty.
    Drain,
    /// The loop starts polling `id`: the task, if the scheduler still owns
    /// it, is detached for the duration of the poll. A missing task — its
    /// id was spurious or it already completed — makes this a no-op.
    BeginPoll { id: usize },
    /// The poll of `id` returned pending: the task is checked back in.
    FinishPending { id: usize },
    /// The poll of `id` returned ready: the task is dropped. Its drop has
    /// already deregistered every wait it had parked, so none is left
    /// pointing at it.
    FinishReady { id: usize },
    /// An operation owned by the task being polled parks that task's waker
    /// under `tok`.
    Park { tok: usize, id: usize },
    /// An operation deregisters its token, dropping the parked wait.
    Deregister { tok: usize },
}

/// When the protocol allows a step.
pub open spec fn enabled(s: RuntimeModel, step: Step) -> bool {
    match step {
        Step::Spawn => s.next < usize::MAX,
        Step::Wake { id } => id < s.next,
        Step::Drain => true,
        Step::BeginPoll { id } => s.polling is None && id < s.next,
        Step::FinishPending { id } => s.polling == Some(id),
        Step::FinishReady { id } => s.polling == Some(id) && (forall|tok: usize|
            #[trigger] s.waits.dom().contains(tok) ==> s.waits[tok] != id),
        Step::Park { tok, id } => s.polling == Some(id),
        Step::Deregister { tok } => true,
    }
}

/// The state a step leads to.
pub open spec fn apply(s: RuntimeModel, step: Step) -> RuntimeModel {
    match step {
        Step::Spawn => RuntimeModel {
            next: (s.next + 1) as usize,
            live: s.live.insert(s.next),
            ready: s.ready.push(s.next),
            ..s
        },
        Step::Wake { id } => if s.ready.contains(id) {
            s
        } else {
            RuntimeModel { ready: s.ready.push(id), ..s }
        },
        Step::Drain => RuntimeModel { ready: Seq::empty(), ..s },
        Step::BeginPoll { id } => if s.live.contains(id) {
            RuntimeModel {
                live: s.live.remove(id),
                polling: Some(id),
                polled: s.polled.insert(id),
                ..s
            }
        } else {
            s
        },
        Step::FinishPending { id } => RuntimeModel {
            live: s.live.insert(id),
            polling: None,
            ..s
        },
        Step::FinishReady { id } => RuntimeModel { polling: None, ..s },
        Step::Park { tok, id } => RuntimeModel { waits: s.waits.insert(tok, id), ..s },
        Step::Deregister { tok } => RuntimeModel { waits: s.waits.remove(tok), ..s },
    }
}

/// The runtime before anything is spawned.
pub open spec fn init() -> RuntimeModel {
    RuntimeModel {
        next: 0,
        live: Set::empty(),
        ready: Seq::empty(),
        polling: None,
        waits: Map::empty(),
        polled: Set::empty(),
    }
}

/// Every id the state mentions was handed out by the counter.
pub open spec fn ids_bounded(s: RuntimeModel) -> bool {
    &&& forall|id: usize| #[trigger] s.live.contains(id) ==> id < s.next
    &&& forall|i: int| 0 <= i < s.ready.len() ==> #[trigger] s.ready[i] < s.next
    &&& (s.polling matches Some(id) ==> id < s.next)
    &&& forall|tok: usize| #[trigger] s.waits.dom().contains(tok) ==> s.waits[tok] < s.next
    &&& forall|id: usize| #[trigger] s.polled.contains(id) ==> id < s.next
}

/// The ready queue never queues an id twice.
pub open spec fn ready_distinct(s: RuntimeModel) -> bool {
    forall|i: int, j: int| 0 <= i < j < s.ready.len() ==> s.ready[i] != s.ready[j]
}

/// A task being polled is owned by the dispatch loop alone: it is not in
/// the scheduler, so a re-entrant wake can only queue its id, never alias
/// the value being stepped.
pub open spec fn polling_detached(s: RuntimeModel) -> bool {
    s.polling matches Some(id) ==> !s.live.contains(id)
}

/// Every id ever handed out has been polled, or still awaits its poll in
/// the scheduler, or is under the poll happening now.
pub open spec fn polls_accounted(s: RuntimeModel) -> bool {
    forall|id: usize|
        id < s.next ==> s.polled.contains(id) || s.live.contains(id) || s.polling == Some(id)
}

/// The task under poll has been polled: begin-poll is what records a poll.
pub open spec fn polling_polled(s: RuntimeModel) -> bool {
    s.polling matches Some(id) ==> s.polled.contains(id)
}

/// Every parked wait names a task that still exists: one the scheduler
/// owns, or the one being polled right now (which is where parking
/// happens).
pub open spec fn waits_live(s: RuntimeModel) -> bool {
    forall|tok: usize|
        #[trigger] s.waits.dom().contains(tok) ==> s.live.contains(s.waits[tok]) || s.polling
            == Some(s.waits[tok])
}

/// The protocol invariant: all of the above at once.
pub open spec fn inv(s: RuntimeModel) -> bool {
    &&& ids_bounded(s)
    &&& ready_distinct(s)
    &&& polling_detached(s)
    &&& polling_polled(s)
    &&& polls_accounted(s)
    &&& waits_live(s)
}

/// The initial state satisfies the invariant.
pub proof fn lemma_init_inv()
    ensures
        inv(init()),
{
}

/// Every step the protocol allows preserves the invariant.
pub proof fn lemma_step_preserves_inv(s: RuntimeModel, step: Step)
    requires
        inv(s),
        enabled(s, step),
    ensures
        inv(apply(s, step)),
{
    let t = apply(s, step);
    match step {
        Step::Spawn => {
            assert forall|i: int| 0 <= i < t.ready.len() implies #[trigger] t.ready[i]
                < t.next by {
                if i < s.ready.len() {
                    assert(t.ready[i] == s.ready[i]);
                }
            }
            assert forall|i: int, j: int| 0 <= i < j < t.ready.len() implies t.ready[i]
                != t.ready[j] by {
                if j < s.ready.len() {
                    assert(t.ready[i] == s.ready[i] && t.ready[j] == s.ready[j]);
                } else {
                    assert(t.ready[i] == s.ready[i] && t.ready[j] == s.next);
                }
            }
            assert(polls_accounted(t)) by {
                assert forall|id: usize|
                    id < t.next implies t.polled.contains(id) || t.live.contains(id) || t.polling
                    == Some(id) by {
                    if id < s.next {
                        assert(s.polled.contains(id) || s.live.contains(id) || s.polling == Some(
                            id,
                        ));
                    } else {
                        assert(t.live.contains(id));
                    }
                }
            }
        },
        Step::Wake { id } => {
            if !s.ready.contains(id) {
                assert forall|i: int| 0 <= i < t.ready.len() implies #[trigger] t.ready[i]
                    < t.next by {
                    if i < s.ready.len() {
                        assert(t.ready[i] == s.ready[i]);
                    }
                }
                assert forall|i: int, j: int| 0 <= i < j < t.ready.len() implies t.ready[i]
                    != t.ready[j] by {
                    if j < s.ready.len() {
                        assert(t.ready[i] == s.ready[i] && t.ready[j] == s.ready[j]);
                    } else {
                        assert(t.ready[i] == s.ready[i]);
                        assert(s.ready.contains(s.ready[i]));
                    }
                }
            }
        },
        Step::Drain => {},
        Step::BeginPoll { id } => {},
        Step::FinishPending { id } => {},
        Step::FinishReady { id } => {},
        Step::Park { tok, id } => {},
        Step::Deregister { tok } => {},
    }
}

/// The state after running `steps`, first step first.
pub open spec fn run(s: RuntimeModel, steps: Seq<Step>) -> RuntimeModel
    decreases steps.len(),
{
    if steps.len() == 0 {
        s
    } else {
        apply(run(s, steps.drop_last()), steps.last())
    }
}

/// Whether every step of `steps` is allowed by the protocol at the state
/// it runs from.
pub open spec fn valid_run(s: RuntimeModel, steps: Seq<Step>) -> bool
    decreases steps.len(),
{
    steps.len() == 0 || {
        &&& valid_run(s, steps.drop_last())
        &&& enabled(run(s, steps.drop_last()), steps.last())
    }
}

/// The invariant holds after any valid run from a state satisfying it.
pub proof fn lemma_run_preserves_inv(s: RuntimeModel, steps: Seq<Step>)
    requires
        inv(s),
        valid_run(s, steps),
    ensures
        inv(run(s, steps)),
    decreases steps.len(),
{
    if steps.len() > 0 {
        lemma_run_preserves_inv(s, steps.drop_last());
        lemma_step_preserves_inv(run(s, steps.drop_last()), steps.last());
    }
}

/// Every spawned task is polled at least once before the runtime
/// terminates: after any valid run from the initial state that ends with no
/// live task and no poll in progress — the runtime is done — every id the
/// counter ever handed out has been begin-polled.
pub proof fn lemma_every_spawned_task_polled(steps: Seq<Step>, id: usize)
    requires
        valid_run(init(), steps),
        run(init(), steps).live.is_empty(),
        run(init(), steps).polling is None,
        id < run(init(), steps).next,
    ensures
        run(init(), steps).polled.contains(id),
{
    lemma_init_inv();
    lemma_run_preserves_inv(init(), steps);
    let f = run(init(), steps);
    assert(!f.live.contains(id));
}

/// A task id is dead once the scheduler does not own it and no poll of it
/// is in progress; an id the counter has not reached yet is not dead, it is
/// unborn.
pub open spec fn is_dead(s: RuntimeModel, id: usize) -> bool {
    &&& id < s.next
    &&& !s.live.contains(id)
    &&& s.polling != Some(id)
}

/// A task that returned ready is dead the moment its poll finishes: its id
/// is in the scheduler no longer.
pub proof fn lemma_finish_ready_kills(s: RuntimeModel, id: usize)
    requires
        inv(s),
        enabled(s, Step::FinishReady { id }),
    ensures
        is_dead(apply(s, Step::FinishReady { id }), id),
{
}

/// A completed task is never polled again: no step allowed by the protocol
/// revives a dead id, and beginning a poll of a dead id changes nothing —
/// the scheduler treats the missing task as a no-op poll.
pub proof fn lemma_dead_stays_dead(s: RuntimeModel, id: usize, step: Step)
    requires
        inv(s),
        enabled(s, step),
        is_dead(s, id),
    ensures
        is_dead(apply(s, step), id),
        apply(s, Step::BeginPoll { id }) == s,
{
}

/// A dead id stays dead through any further valid run: once a task has
/// completed, no later sequence of allowed steps brings its id back into
/// the scheduler or under a poll.
pub proof fn lemma_dead_through_run(s: RuntimeModel, steps: Seq<Step>, id: usize)
    requires
        inv(s),
        valid_run(s, steps),
        is_dead(s, id),
    ensures
        is_dead(run(s, steps), id),
    decreases steps.len(),
{
    if steps.len() > 0 {
        lemma_dead_through_run(s, steps.drop_last(), id);
        lemma_run_preserves_inv(s, steps.drop_last());
        lemma_dead_stays_dead(run(s, steps.drop_last()), id, steps.last());
    }
}

/// A wake, followed by any number of further wakes of the same task before
/// the next drain, queues the id exactly once, so the drain polls that
/// task exactly once: after the first wake the id is in the ready queue at
/// exactly one position, and every further wake leaves the state unchanged.
pub proof fn lemma_wake_idempotent(s: RuntimeModel, id: usize)
    requires
        inv(s),
        id < s.next,
    ensures
        ({
            let woken = apply(s, Step::Wake { id });
            &&& exists|i: int| 0 <= i < woken.ready.len() && woken.ready[i] == id
            &&& forall|i: int, j: int|
                (0 <= i < woken.ready.len() && 0 <= j < woken.ready.len() && woken.ready[i] == id
                    && woken.ready[j] == id) ==> i == j
            &&& apply(woken, Step::Wake { id }) == woken
        }),
{
    let woken = apply(s, Step::Wake { id });
    lemma_step_preserves_inv(s, Step::Wake { id });
    if s.ready.contains(id) {
        let i = choose|i: int| 0 <= i < s.ready.len() && s.ready[i] == id;
        assert(woken.ready[i] == id);
    } else {
        assert(woken.ready[woken.ready.len() - 1] == id);
    }
    assert(woken.ready.contains(id)) by {
        let i = choose|i: int| 0 <= i < woken.ready.len() && woken.ready[i] == id;
        assert(woken.ready[i] == id);
    }
}

/// Every entry of the reactor's pending-wait table belongs to a task that
/// is still in the scheduler or under the poll in progress: a wait cannot
/// outlive its task, because completing a task requires its waits to be
/// deregistered first.
pub proof fn lemma_wait_has_live_owner(s: RuntimeModel, tok: usize)
    requires
        inv(s),
        s.waits.dom().contains(tok),
    ensures
        s.live.contains(s.waits[tok]) || s.polling == Some(s.waits[tok]),
{
}

/// The id payloads of a queue of task ids.
pub open spec fn payloads(ids: Seq<TaskId>) -> Seq<usize> {
    ids.map_values(|id: TaskId| id.0)
}

/// The id payloads of a reactor's pending-wait table.
pub open spec fn wait_payloads(m: Map<usize, TaskId>) -> Map<usize, usize> {
    m.map_values(|id: TaskId| id.0)
}

/// How the runtime's pieces — the scheduler, the reactor, the id under poll
/// and the poll history the driver keeps — abstract to one model state.
pub open spec fn abstraction<T>(
    sched: Scheduler<T>,
    reactor: Reactor,
    polling: Option<TaskId>,
    polled: Set<usize>,
) -> RuntimeModel {
    RuntimeModel {
        next: sched.next_spec(),
        live: sched.tasks().dom(),
        ready: payloads(sched.ready()),
        polling: match polling {
            Some(id) => Some(id.0),
            None => None,
        },
        waits: wait_payloads(reactor.waits()),
        polled,
    }
}

/// A queue holds an id exactly when the queue of its payloads holds the
/// id's payload.
pub proof fn lemma_payloads_contains(ids: Seq<TaskId>, id: TaskId)
    ensures
        payloads(ids).contains(id.0) <==> ids.contains(id),
{
    if payloads(ids).contains(id.0) {
        let i = choose|i: int| 0 <= i < payloads(ids).len() && payloads(ids)[i] == id.0;
        assert(ids[i].0 == id.0);
        assert(ids[i] == id);
        assert(ids.contains(id));
    }
    if ids.contains(id) {
        let i = choose|i: int| 0 <= i < ids.len() && ids[i] == id;
        assert(payloads(ids)[i] == id.0);
        assert(payloads(ids).contains(id.0));
    }
}

/// Spawning is the model's Spawn step: a scheduler that fulfilled the
/// contract of `do_schedule` abstracts to the state the step gives.
pub proof fn lemma_do_schedule_refines<T>(
    pre: Scheduler<T>,
    post: Scheduler<T>,
    task: T,
    reactor: Reactor,
    polling: Option<TaskId>,
    polled: Set<usize>,
)
    requires
        pre.next_spec() < usize::MAX,
        post.tasks() == pre.tasks().insert(pre.next_spec(), task),
        post.ready() == pre.ready().push(TaskId(pre.next_spec())),
        post.next_spec() == pre.next_spec() + 1,
    ensures
        abstraction(post, reactor, polling, polled) == apply(
            abstraction(pre, reactor, polling, polled),
            Step::Spawn,
        ),
{
    assert(post.tasks().dom() =~= pre.tasks().dom().insert(pre.next_spec()));
    assert(payloads(post.ready()) =~= payloads(pre.ready()).push(pre.next_spec()));
}

/// Waking is the model's Wake step: a scheduler that fulfilled the
/// contract of `do_notify` abstracts to the state the step gives.
pub proof fn lemma_do_notify_refines<T>(
    pre: Scheduler<T>,
    post: Scheduler<T>,
    id: TaskId,
    reactor: Reactor,
    polling: Option<TaskId>,
    polled: Set<usize>,
)
    requires
        post.tasks() == pre.tasks(),
        post.next_spec() == pre.next_spec(),
        pre.ready_contains(id) ==> post.ready() == pre.ready(),
        !pre.ready_contains(id) ==> post.ready() == pre.ready().push(id),
    ensures
        abstraction(post, reactor, polling, polled) == apply(
            abstraction(pre, reactor, polling, polled),
            Step::Wake { id: id.0 },
        ),
{
    lemma_payloads_contains(pre.ready(), id);
    if !pre.ready_contains(id) {
        assert(payloads(post.ready()) =~= payloads(pre.ready()).push(id.0));
    }
}

/// Starting a poll is the model's BeginPoll step: a scheduler that
/// fulfilled the contract of `get_task` abstracts to the state the step
/// gives — detaching the task when the scheduler owned one, a no-op when
/// the id was spurious or complete.
pub proof fn lemma_get_task_refines<T>(
    pre: Scheduler<T>,
    post: Scheduler<T>,
    id: TaskId,
    reactor: Reactor,
    polled: Set<usize>,
)
    requires
        post.tasks() == pre.tasks().remove(id.0),
        post.ready() == pre.ready(),
        post.next_spec() == pre.next_spec(),
    ensures
        pre.tasks().contains_key(id.0) ==> abstraction(post, reactor, Some(id), polled.insert(id.0))
            == apply(abstraction(pre, reactor, None, polled), Step::BeginPoll { id: id.0 }),
        !pre.tasks().contains_key(id.0) ==> abstraction(post, reactor, None, polled) == apply(
            abstraction(pre, reactor, None, polled),
            Step::BeginPoll { id: id.0 },
        ),
{
    if pre.tasks().contains_key(id.0) {
        assert(post.tasks().dom() =~= pre.tasks().dom().remove(id.0));
    } else {
        assert(post.tasks().dom() =~= pre.tasks().dom());
    }
}

/// Checking a pending task back in is the model's FinishPending step: a
/// scheduler that fulfilled the contract of `do_pend` after a poll of `id`
/// abstracts to the state the step gives.
pub proof fn lemma_do_pend_refines<T>(
    pre: Scheduler<T>,
    post: Scheduler<T>,
    id: TaskId,
    task: T,
    reactor: Reactor,
    polled: Set<usize>,
)
    requires
        post.tasks() == pre.tasks().insert(id.0, task),
        post.ready() == pre.ready(),
        post.next_spec() == pre.next_spec(),
    ensures
        abstraction(post, reactor, None, polled) == apply(
            abstraction(pre, reactor, Some(id), polled),
            Step::FinishPending { id: id.0 },
        ),
{
    assert(post.tasks().dom() =~= pre.tasks().dom().insert(id.0));
}

/// Dropping a completed task is the model's FinishReady step: the
/// scheduler is untouched — the task was already detached — and only the
/// poll in progress ends.
pub proof fn lemma_finish_ready_refines<T>(
    sched: Scheduler<T>,
    id: TaskId,
    reactor: Reactor,
    polled: Set<usize>,
)
    ensures
        abstraction(sched, reactor, None, polled) == apply(
            abstraction(sched, reactor, Some(id), polled),
            Step::FinishReady { id: id.0 },
        ),
{
}

/// Parking a waker is the model's Park step: a reactor that fulfilled the
/// contract of `do_block` abstracts to the state the step gives.
pub proof fn lemma_do_block_refines<T>(
    sched: Scheduler<T>,
    pre: Reactor,
    post: Reactor,
    token: Token,
    id: TaskId,
    polled: Set<usize>,
)
    requires
        post.waits() == pre.waits().insert(token.0, id),
    ensures
        abstraction(sched, post, Some(id), polled) == apply(
            abstraction(sched, pre, Some(id), polled),
            Step::Park { tok: token.0, id: id.0 },
        ),
{
    assert(wait_payloads(post.waits()) =~= wait_payloads(pre.waits()).insert(token.0, id.0));
}

/// Dropping a pending wait is the model's Deregister step: a reactor that
/// fulfilled the contract of `do_deregister` abstracts to the state the
/// step gives.
pub proof fn lemma_do_deregister_refines<T>(
    sched: Scheduler<T>,
    pre: Reactor,
    post: Reactor,
    token: Token,
    polling: Option<TaskId>,
    polled: Set<usize>,
)
    requires
        post.waits() == pre.waits().remove(token.0),
    ensures
        abstraction(sched, post, polling, polled) == apply(
            abstraction(sched, pre, polling, polled),
            Step::Deregister { tok: token.0 },
        ),
{
    assert(wait_payloads(post.waits()) =~= wait_payloads(pre.waits()).remove(token.0));
}

/// Draining the ready queue is the model's Drain step: a scheduler that
/// fulfilled the contract of `get_scheduled_ids` abstracts to the state
/// the step gives.
pub proof fn lemma_drain_refines<T>(
    pre: Scheduler<T>,
    post: Scheduler<T>,
    reactor: Reactor,
    polled: Set<usize>,
)
    requires
        post.tasks() == pre.tasks(),
        post.next_spec() == pre.next_spec(),
        post.ready() == Seq::<TaskId>::empty(),
    ensures
        abstraction(post, reactor, None, polled) == apply(
            abstraction(pre, reactor, None, polled),
            Step::Drain,
        ),
{
    assert(payloads(post.ready()) =~= Seq::<usize>::empty());
}

/// One routed readiness event is one Wake step of the model: when a waiter
/// is parked under the event's token and its id was handed out, the event
/// wakes that task; otherwise the queue is left alone.
pub proof fn lemma_wake_step_refines(
    m: RuntimeModel,
    waits: Map<usize, TaskId>,
    ready: Seq<TaskId>,
    t: Token,
)
    requires
        m.waits == wait_payloads(waits),
        m.ready == payloads(ready),
    ensures
        waits.dom().contains(t.0) && waits[t.0].0 < m.next ==> payloads(
            wake_step(waits, m.next, ready, t),
        ) == apply(m, Step::Wake { id: waits[t.0].0 }).ready,
        !(waits.dom().contains(t.0) && waits[t.0].0 < m.next) ==> wake_step(waits, m.next, ready, t)
            == ready,
{
    assert(m.waits.dom() =~= waits.dom());
    if waits.dom().contains(t.0) {
        lemma_payloads_contains(ready, waits[t.0]);
        if waits[t.0].0 < m.next && !ready.contains(waits[t.0]) {
            assert(payloads(ready.push(waits[t.0])) =~= payloads(ready).push(waits[t.0].0));
        }
    }
}

/// The Wake steps a batch of readiness events turns into: one per event
/// whose token has a parked waiter with an allocated id, in event order.
pub open spec fn wake_steps(waits: Map<usize, TaskId>, next: usize, events: Seq<Token>) -> Seq<
    Step,
>
    decreases events.len(),
{
    if events.len() == 0 {
        Seq::empty()
    } else {
        let front = wake_steps(waits, next, events.drop_last());
        let t = events.last();
        if waits.dom().contains(t.0) && waits[t.0].0 < next {
            front.push(Step::Wake { id: waits[t.0].0 })
        } else {
            front
        }
    }
}

/// A run of Wake steps touches only the ready queue.
proof fn lemma_wake_run_frame(m: RuntimeModel, steps: Seq<Step>)
    requires
        forall|i: int| 0 <= i < steps.len() ==> steps[i] is Wake,
    ensures
        run(m, steps).next == m.next,
        run(m, steps).live == m.live,
        run(m, steps).polling == m.polling,
        run(m, steps).waits == m.waits,
        run(m, steps).polled == m.polled,
    decreases steps.len(),
{
    if steps.len() > 0 {
        lemma_wake_run_frame(m, steps.drop_last());
    }
}

/// Routing a whole batch of events is running the model through the batch's
/// Wake steps: the reactor's `dispatch` refines the model trace, event for
/// event.
pub proof fn lemma_dispatch_refines(
    m: RuntimeModel,
    waits: Map<usize, TaskId>,
    ready: Seq<TaskId>,
    events: Seq<Token>,
)
    requires
        m.waits == wait_payloads(waits),
        m.ready == payloads(ready),
    ensures
        payloads(route(waits, m.next, ready, events)) == run(
            m,
            wake_steps(waits, m.next, events),
        ).ready,
    decreases events.len(),
{
    let steps = wake_steps(waits, m.next, events);
    assert forall|i: int| 0 <= i < steps.len() implies steps[i] is Wake by {
        lemma_wake_steps_all_wake(waits, m.next, events, i);
    }
    if events.len() > 0 {
        let front_events = events.drop_last();
        let t = events.last();
        let front_steps = wake_steps(waits, m.next, front_events);
        let routed = route(waits, m.next, ready, front_events);
        lemma_dispatch_refines(m, waits, ready, front_events);
        let reached = run(m, front_steps);
        assert forall|i: int| 0 <= i < front_steps.len() implies front_steps[i] is Wake by {
            lemma_wake_steps_all_wake(waits, m.next, front_events, i);
        }
        lemma_wake_run_frame(m, front_steps);
        if waits.dom().contains(t.0) && waits[t.0].0 < m.next {
            assert(steps.drop_last() == front_steps);
            assert(steps.last() == Step::Wake { id: waits[t.0].0 });
            assert(run(m, steps) == apply(reached, Step::Wake { id: waits[t.0].0 }));
            lemma_payloads_contains(routed, waits[t.0]);
            if !routed.contains(waits[t.0]) {
                assert(payloads(routed.push(waits[t.0])) =~= payloads(routed).push(waits[t.0].0));
            }
        } else {
            assert(steps == front_steps);
        }
    }
}

/// Every step the batch turns into is a Wake.
proof fn lemma_wake_steps_all_wake(waits: Map<usize, TaskId>, next: usize, events: Seq<Token>, i: int)
    requires
        0 <= i < wake_steps(waits, next, events).len(),
    ensures
        wake_steps(waits, next, events)[i] is Wake,
    decreases events.len(),
{
    if events.len() > 0 {
        let front = wake_steps(waits, next, events.drop_last());
        if i < front.len() {
            lemma_wake_steps_all_wake(waits, next, events.drop_last(), i);
        }
    }
}

} // verus!
