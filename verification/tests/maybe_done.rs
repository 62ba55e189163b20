use little_tokio::utils::maybe_done::{maybe_done, MaybeDone};
use little_tokio::utils::misc::assert_future;

#[test]
fn maybe_done_starts_unfinished() {
    let wrapped = maybe_done(17u32);
    assert!(matches!(wrapped, MaybeDone::Future(17)));
}

#[test]
fn pending_step_changes_nothing() {
    let wrapped = maybe_done(17u32);
    let (state, done) = wrapped.advance(false);
    assert!(matches!(state, MaybeDone::Future(17)));
    assert!(!done);
}

#[test]
fn ready_step_completes_the_wrapper() {
    let wrapped = maybe_done(17u32);
    let (state, done) = wrapped.advance(true);
    assert!(matches!(state, MaybeDone::<u32>::Done));
    assert!(done);
}

#[test]
fn done_stays_done() {
    let (state, _) = maybe_done(17u32).advance(true);
    let (state, done) = state.advance(false);
    assert!(matches!(state, MaybeDone::<u32>::Done));
    assert!(done);
}

#[test]
fn assert_future_hands_back_its_argument() {
    assert_eq!(assert_future(41u64), 41u64);
}
