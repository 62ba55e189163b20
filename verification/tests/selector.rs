use little_tokio::interest::Interest;
use little_tokio::selector::{check_errors, clamp_timeout, plan_deregister, plan_register};
use little_tokio::selector::{Change, Filter, Op, Receipt};
use little_tokio::token::Token;

#[test]
fn register_readable_plans_one_read_install() {
    let plan = plan_register(4, Token(4), Interest::readable());
    assert_eq!(plan, vec![Change { fd: 4, filter: Filter::Read, op: Op::Install, token: 4 }]);
}

#[test]
fn register_writable_plans_one_write_install() {
    let plan = plan_register(4, Token(4), Interest::writable());
    assert_eq!(plan, vec![Change { fd: 4, filter: Filter::Write, op: Op::Install, token: 4 }]);
}

#[test]
fn register_both_plans_write_then_read_with_the_token_on_each() {
    let plan = plan_register(4, Token(9), Interest::readable().add(Interest::writable()));
    assert_eq!(
        plan,
        vec![
            Change { fd: 4, filter: Filter::Write, op: Op::Install, token: 9 },
            Change { fd: 4, filter: Filter::Read, op: Op::Install, token: 9 },
        ]
    );
}

#[test]
fn deregister_plans_both_removals() {
    let plan = plan_deregister(4);
    assert_eq!(
        plan,
        vec![
            Change { fd: 4, filter: Filter::Write, op: Op::Remove, token: 0 },
            Change { fd: 4, filter: Filter::Read, op: Op::Remove, token: 0 },
        ]
    );
}

#[test]
fn no_receipts_is_ok() {
    assert_eq!(check_errors(&vec![], &vec![]), Ok(()));
}

#[test]
fn flagged_receipt_with_zero_data_is_ok() {
    let receipts = vec![Receipt { error_flagged: true, data: 0 }];
    assert_eq!(check_errors(&receipts, &vec![]), Ok(()));
}

#[test]
fn unflagged_receipt_is_ok_whatever_its_data() {
    let receipts = vec![Receipt { error_flagged: false, data: 32 }];
    assert_eq!(check_errors(&receipts, &vec![]), Ok(()));
}

#[test]
fn first_fault_is_returned() {
    let receipts = vec![
        Receipt { error_flagged: true, data: 0 },
        Receipt { error_flagged: true, data: 32 },
        Receipt { error_flagged: true, data: 2 },
    ];
    assert_eq!(check_errors(&receipts, &vec![]), Err(32));
}

#[test]
fn ignored_errors_are_skipped() {
    let receipts = vec![
        Receipt { error_flagged: true, data: 32 },
        Receipt { error_flagged: true, data: 2 },
    ];
    assert_eq!(check_errors(&receipts, &vec![32]), Err(2));
    assert_eq!(check_errors(&receipts, &vec![32, 2]), Ok(()));
}

#[test]
fn timeout_below_the_range_passes_through() {
    assert_eq!(clamp_timeout(3, 500_000_000, i64::MAX), (3, 500_000_000));
}

#[test]
fn timeout_above_the_range_is_clamped() {
    assert_eq!(clamp_timeout(u64::MAX, 1, 1000), (1000, 1));
}
