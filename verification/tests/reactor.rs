use little_tokio::reactor::Reactor;
use little_tokio::scheduler::{Scheduler, Status};
use little_tokio::task::Id;
use little_tokio::token::Token;

#[test]
fn parked_waiter_is_found_by_token() {
    let mut reactor = Reactor::new();
    reactor.do_block(Token(5), Id(0));
    assert_eq!(reactor.get_waker(Token(5)), Some(Id(0)));
    assert_eq!(reactor.get_waker(Token(6)), None);
}

#[test]
fn parking_again_replaces_the_waiter() {
    let mut reactor = Reactor::new();
    reactor.do_block(Token(5), Id(0));
    reactor.do_block(Token(5), Id(1));
    assert_eq!(reactor.get_waker(Token(5)), Some(Id(1)));
}

#[test]
fn deregister_removes_the_waiter() {
    let mut reactor = Reactor::new();
    reactor.do_block(Token(5), Id(0));
    reactor.do_deregister(Token(5));
    assert_eq!(reactor.get_waker(Token(5)), None);
}

#[test]
fn deregister_of_unknown_token_is_harmless() {
    let mut reactor = Reactor::new();
    reactor.do_deregister(Token(5));
    assert_eq!(reactor.get_waker(Token(5)), None);
}

/// Builds a scheduler owning `n` suspended tasks and hands back their ids:
/// each task was spawned, drained, polled once, returned pending, and was
/// checked back in.
fn suspended_scheduler(n: u32) -> (Scheduler<u32>, Vec<Id>) {
    let mut sched: Scheduler<u32> = Scheduler::new();
    for task in 0..n {
        sched.do_schedule(task);
    }
    let ids = sched.get_scheduled_ids();
    for id in &ids {
        let task = sched.get_task(id).unwrap();
        sched.do_pend(*id, task);
    }
    (sched, ids)
}

#[test]
fn dispatch_wakes_in_event_order() {
    let (mut sched, ids) = suspended_scheduler(2);
    assert_eq!(sched.get_status(), Status::WaitingForEvents);
    let mut reactor = Reactor::new();
    reactor.do_block(Token(7), ids[0]);
    reactor.do_block(Token(9), ids[1]);
    // The kernel reported readiness on token 9 first.
    reactor.dispatch(&vec![Token(9), Token(7)], &mut sched);
    assert_eq!(sched.get_scheduled_ids(), vec![ids[1], ids[0]]);
}

#[test]
fn dispatch_drops_unknown_tokens() {
    let (mut sched, ids) = suspended_scheduler(1);
    let mut reactor = Reactor::new();
    reactor.do_block(Token(7), ids[0]);
    reactor.dispatch(&vec![Token(1), Token(7), Token(2)], &mut sched);
    assert_eq!(sched.get_scheduled_ids(), vec![ids[0]]);
}

#[test]
fn dispatch_of_duplicate_events_wakes_once() {
    let (mut sched, ids) = suspended_scheduler(1);
    let mut reactor = Reactor::new();
    reactor.do_block(Token(7), ids[0]);
    reactor.dispatch(&vec![Token(7), Token(7)], &mut sched);
    assert_eq!(sched.get_scheduled_ids(), vec![ids[0]]);
}

#[test]
fn dispatch_after_deregister_wakes_nothing() {
    let (mut sched, ids) = suspended_scheduler(1);
    let mut reactor = Reactor::new();
    reactor.do_block(Token(7), ids[0]);
    // The pending operation was dropped: its destructor deregisters the
    // token before the event arrives.
    reactor.do_deregister(Token(7));
    reactor.dispatch(&vec![Token(7)], &mut sched);
    assert_eq!(sched.get_scheduled_ids(), Vec::<Id>::new());
    assert_eq!(sched.get_status(), Status::WaitingForEvents);
}

#[test]
fn default_reactor_has_no_waiters() {
    let reactor: Reactor = Default::default();
    assert_eq!(reactor.get_waker(Token(0)), None);
}
