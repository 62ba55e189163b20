use little_tokio::scheduler::{Scheduler, Status};
use little_tokio::task::Id;

#[test]
fn fresh_scheduler_is_done() {
    let sched: Scheduler<u32> = Scheduler::new();
    assert_eq!(sched.get_status(), Status::Done);
}

#[test]
fn spawn_makes_running() {
    let mut sched: Scheduler<u32> = Scheduler::new();
    sched.do_schedule(10);
    assert_eq!(sched.get_status(), Status::RunningTasks);
}

#[test]
fn drained_but_live_means_waiting() {
    let mut sched: Scheduler<u32> = Scheduler::new();
    sched.do_schedule(10);
    let ids = sched.get_scheduled_ids();
    assert_eq!(ids, vec![Id(0)]);
    assert_eq!(sched.get_status(), Status::WaitingForEvents);
}

#[test]
fn every_spawned_task_is_polled_once_per_drain() {
    let mut sched: Scheduler<u32> = Scheduler::new();
    sched.do_schedule(10);
    sched.do_schedule(20);
    sched.do_schedule(30);
    let ids = sched.get_scheduled_ids();
    assert_eq!(ids, vec![Id(0), Id(1), Id(2)]);
    let mut polled: Vec<u32> = Vec::new();
    for id in ids {
        if let Some(task) = sched.get_task(&id) {
            polled.push(task);
            // Every task completes at its first poll: none is checked back in.
        }
    }
    assert_eq!(polled, vec![10, 20, 30]);
    assert_eq!(sched.get_status(), Status::Done);
}

#[test]
fn completed_task_is_gone_after_poll() {
    let mut sched: Scheduler<u32> = Scheduler::new();
    sched.do_schedule(10);
    let ids = sched.get_scheduled_ids();
    assert_eq!(sched.get_task(&ids[0]), Some(10));
    // The task completed: it is not pended back, so its id is no longer in
    // the scheduler and a later poll of the same id is a no-op.
    assert_eq!(sched.get_task(&ids[0]), None);
    assert_eq!(sched.get_status(), Status::Done);
}

#[test]
fn waking_a_completed_id_is_harmless() {
    let mut sched: Scheduler<u32> = Scheduler::new();
    sched.do_schedule(10);
    let ids = sched.get_scheduled_ids();
    assert_eq!(sched.get_task(&ids[0]), Some(10));
    // A waker may fire for an id that already completed.
    sched.do_notify(ids[0]);
    let woken = sched.get_scheduled_ids();
    assert_eq!(woken, vec![Id(0)]);
    assert_eq!(sched.get_task(&ids[0]), None);
}

#[test]
fn repeated_wakes_queue_the_task_once() {
    let mut sched: Scheduler<u32> = Scheduler::new();
    sched.do_schedule(10);
    let ids = sched.get_scheduled_ids();
    let id = ids[0];
    let task = sched.get_task(&id).unwrap();
    // The poll returned pending: the task goes back in, and its waker fires
    // several times before the next drain.
    sched.do_pend(id, task);
    sched.do_notify(id);
    sched.do_notify(id);
    sched.do_notify(id);
    let woken = sched.get_scheduled_ids();
    assert_eq!(woken, vec![id]);
}

#[test]
fn pended_task_is_polled_again() {
    let mut sched: Scheduler<u32> = Scheduler::new();
    sched.do_schedule(10);
    let id = sched.get_scheduled_ids()[0];
    let task = sched.get_task(&id).unwrap();
    sched.do_pend(id, task + 1);
    sched.do_notify(id);
    let id_again = sched.get_scheduled_ids()[0];
    assert_eq!(id_again, id);
    assert_eq!(sched.get_task(&id), Some(11));
}

#[test]
fn ids_are_never_reused() {
    let mut sched: Scheduler<u32> = Scheduler::new();
    sched.do_schedule(10);
    let first = sched.get_scheduled_ids()[0];
    assert_eq!(sched.get_task(&first), Some(10));
    // The first task is gone; a new spawn still gets a fresh id.
    sched.do_schedule(20);
    let second = sched.get_scheduled_ids()[0];
    assert_ne!(first, second);
    assert_eq!(second, Id(1));
}

#[test]
fn wakes_during_a_drain_go_to_the_next_drain() {
    let mut sched: Scheduler<u32> = Scheduler::new();
    sched.do_schedule(10);
    sched.do_schedule(20);
    let snapshot = sched.get_scheduled_ids();
    assert_eq!(snapshot.len(), 2);
    // While polling the snapshot, one task wakes the other: the wake lands
    // in the emptied queue, not in the snapshot being walked.
    let t0 = sched.get_task(&snapshot[0]).unwrap();
    sched.do_pend(snapshot[0], t0);
    sched.do_notify(snapshot[0]);
    let t1 = sched.get_task(&snapshot[1]).unwrap();
    sched.do_pend(snapshot[1], t1);
    assert_eq!(sched.get_scheduled_ids(), vec![snapshot[0]]);
}

#[test]
fn is_allocated_tracks_the_counter() {
    let mut sched: Scheduler<u32> = Scheduler::new();
    assert!(!sched.is_allocated(&Id(0)));
    sched.do_schedule(10);
    assert!(sched.is_allocated(&Id(0)));
    assert!(!sched.is_allocated(&Id(1)));
}

#[test]
fn default_scheduler_is_fresh() {
    let sched: Scheduler<u32> = Default::default();
    assert_eq!(sched.get_status(), Status::Done);
    assert!(!sched.is_allocated(&Id(0)));
}
