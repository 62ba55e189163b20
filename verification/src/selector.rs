//! Planning and receipt checking for the `kqueue`-family selector.
//!
//! The selector installs edge-triggered notifications by submitting a list
//! of change records to the kernel and reading back one receipt per change.
//! Composing the change list from an interest set, composing the kernel
//! timeout record, and scanning the receipts for the first real error are
//! pure decisions and live here; the system call that submits the list is
//! made by the runtime driver, which translates these records into the
//! kernel's own structures field for field.

use vstd::prelude::*;

use crate::interest::Interest;
use crate::token::Token;

verus! {

/// The readiness direction of one kernel filter.
#[derive(Clone, Copy, PartialEq, Eq, Structural, Debug)]
pub enum Filter {
    /// Data can be read from the descriptor.
    Read,
    /// Data can be written to the descriptor.
    Write,
}

/// What a change record asks of the kernel.
#[derive(Clone, Copy, PartialEq, Eq, Structural, Debug)]
pub enum Op {
    /// Install an edge-triggered notification, with a receipt and without
    /// firing immediately.
    Install,
    /// Remove the notification, with a receipt.
    Remove,
}

/// One entry of a changelist submitted to the kernel: one direction on one
/// descriptor, carrying the caller's token in the opaque user-data slot.
#[derive(Clone, Copy, PartialEq, Eq, Structural, Debug)]
pub struct Change {
    /// The raw file descriptor the change concerns.
    pub fd: i32,
    /// The readiness direction of the change.
    pub filter: Filter,
    /// Whether the notification is installed or removed.
    pub op: Op,
    /// The pointer-width payload stored in the kernel's user-data slot and
    /// echoed back with each event; zero for removals.
    pub token: usize,
}

/// The changelist that registers `interest` on `fd` under `token`: one
/// install record per requested direction, the write direction first, each
/// carrying the token.
pub open spec fn register_plan(fd: i32, token: usize, interest: Interest) -> Seq<Change> {
    let writes = if interest.spec_is_writable() {
        seq![Change { fd, filter: Filter::Write, op: Op::Install, token }]
    } else {
        Seq::<Change>::empty()
    };
    let reads = if interest.spec_is_readable() {
        seq![Change { fd, filter: Filter::Read, op: Op::Install, token }]
    } else {
        Seq::<Change>::empty()
    };
    writes + reads
}

/// The changelist that deregisters `fd`: both directional entries are
/// removed, whether or not they were installed.
pub open spec fn deregister_plan(fd: i32) -> Seq<Change> {
    seq![
        Change { fd, filter: Filter::Write, op: Op::Remove, token: 0 },
        Change { fd, filter: Filter::Read, op: Op::Remove, token: 0 },
    ]
}

/// Composes the changelist registering `interest` on `fd` under `token`.
/// When both directions are requested, two records are produced, and both
/// carry the caller's token.
pub fn plan_register(fd: i32, token: Token, interest: Interest) -> (r: Vec<Change>)
    requires
        interest.wf(),
    ensures
        r@ == register_plan(fd, token.0, interest),
        1 <= r@.len() <= 2,
{
    let mut changes: Vec<Change> = Vec::new();
    if interest.is_writable() {
        changes.push(Change { fd, filter: Filter::Write, op: Op::Install, token: token.to_ptr() });
    }
    if interest.is_readable() {
        changes.push(Change { fd, filter: Filter::Read, op: Op::Install, token: token.to_ptr() });
    }
    proof {
        assert(changes@ =~= register_plan(fd, token.0, interest));
    }
    changes
}

/// Composes the changelist deregistering `fd`: removal of both directional
/// entries. Removing a filter that was never installed is reported by the
/// kernel per entry, and the caller ignores that report, so deletion is
/// idempotent.
pub fn plan_deregister(fd: i32) -> (r: Vec<Change>)
    ensures
        r@ == deregister_plan(fd),
{
    let mut changes: Vec<Change> = Vec::new();
    changes.push(Change { fd, filter: Filter::Write, op: Op::Remove, token: 0 });
    changes.push(Change { fd, filter: Filter::Read, op: Op::Remove, token: 0 });
    proof {
        assert(changes@ =~= deregister_plan(fd));
    }
    changes
}

/// What the kernel wrote back over one submitted change: whether the
/// per-entry error flag is set, and the error value it carries.
#[derive(Clone, Copy, PartialEq, Eq, Structural, Debug)]
pub struct Receipt {
    /// Whether the kernel flagged this entry as erroneous.
    pub error_flagged: bool,
    /// The raw error value; zero means the change was applied cleanly even
    /// when the flag is set.
    pub data: i64,
}

/// A receipt reports a real fault when its error flag is set, its value is
/// not zero, and the value is not one the caller chose to ignore.
pub open spec fn is_fault(rc: Receipt, ignored: Seq<i64>) -> bool {
    rc.error_flagged && rc.data != 0 && !ignored.contains(rc.data)
}

/// Checks all receipts of one submission for possible errors and returns
/// the first real fault found, skipping the error values in `ignored`
/// (a removal of a filter that was never installed, or a peer that
/// disconnected while the change was in flight).
pub fn check_errors(receipts: &Vec<Receipt>, ignored: &Vec<i64>) -> (r: Result<(), i64>)
    ensures
        r is Ok <==> forall|i: int|
            0 <= i < receipts@.len() ==> !is_fault(#[trigger] receipts@[i], ignored@),
        r matches Err(e) ==> exists|i: int|
            {
                &&& 0 <= i < receipts@.len()
                &&& is_fault(#[trigger] receipts@[i], ignored@)
                &&& receipts@[i].data == e
                &&& forall|j: int| 0 <= j < i ==> !is_fault(#[trigger] receipts@[j], ignored@)
            },
{
    let n = receipts.len();
    let mut i: usize = 0;
    #[verifier::loop_isolation(false)]
    while i < n
        invariant
            0 <= i <= n,
            forall|j: int| 0 <= j < i ==> !is_fault(#[trigger] receipts@[j], ignored@),
        decreases n - i,
    {
        let rc = receipts[i];
        if rc.error_flagged && rc.data != 0 && !contains_value(ignored, rc.data) {
            proof {
                assert(is_fault(receipts@[i as int], ignored@));
            }
            return Err(rc.data);
        }
        i = i + 1;
    }
    Ok(())
}

/// Whether `values` holds `x`.
fn contains_value(values: &Vec<i64>, x: i64) -> (r: bool)
    ensures
        r == values@.contains(x),
{
    let n = values.len();
    let mut i: usize = 0;
    #[verifier::loop_isolation(false)]
    while i < n
        invariant
            0 <= i <= n,
            forall|j: int| 0 <= j < i ==> values@[j] != x,
        decreases n - i,
    {
        if values[i] == x {
            return true;
        }
        i = i + 1;
    }
    false
}

/// Composes the kernel timeout record from a wait given as whole seconds
/// and sub-second nanoseconds, clamping the seconds to the range of the
/// kernel's signed time field, whose maximum is `max_secs`.
pub fn clamp_timeout(secs: u64, nanos: u32, max_secs: i64) -> (r: (i64, i64))
    requires
        max_secs >= 0,
        nanos < 1_000_000_000,
    ensures
        r.0 == if secs <= max_secs as u64 { secs as i64 } else { max_secs },
        0 <= r.0 <= max_secs,
        r.1 == nanos as i64,
{
    let tv_sec: i64 = if secs <= max_secs as u64 {
        secs as i64
    } else {
        max_secs
    };
    (tv_sec, nanos as i64)
}

} // verus!
