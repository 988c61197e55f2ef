//! Process identifiers.
//!
//! A `ProcessId` is a strictly positive 16-bit value; `0` is the sentinel for
//! "no process / free CPU slot" and `1` is reserved for the kernel process.
//! Fresh identifiers come from a monotonic counter, so identifiers handed out
//! over time are strictly increasing and never `0`.

use vstd::prelude::*;

verus! {

/// Identifier of a process; never `0` once issued by [`ProcessId::new`].
#[derive(Clone, Copy, PartialEq, Eq, Structural, Debug, Hash, PartialOrd, Ord)]
pub struct ProcessId(pub u16);

/// The identifier reserved for the kernel process.
pub const KERNEL_PID: u16 = 1;

/// Source of fresh process identifiers: a counter that starts at `1`
/// and only grows.
#[derive(Clone, Copy, PartialEq, Eq, Structural, Debug)]
pub struct PidCounter {
    /// The next identifier to hand out.
    pub next: u16,
}

impl PidCounter {
    /// A counter may never reach `0` and must still have an identifier left;
    /// exhausting the 16-bit space is a fatal condition the caller must
    /// rule out before asking for a fresh identifier.
    pub open spec fn wf(self) -> bool {
        1 <= self.next
    }

    /// Fresh counter, ready to issue PID `1` (the kernel process).
    pub fn new() -> (r: PidCounter)
        ensures
            r.wf(),
            r.next == 1,
    {
        PidCounter { next: 1 }
    }
}

impl ProcessId {
    /// Issue a fresh identifier and advance the counter.
    ///
    /// The identifier returned equals the counter's old value, so successive
    /// calls return strictly increasing, never-zero identifiers.
    pub fn new(counter: &mut PidCounter) -> (r: ProcessId)
        requires
            old(counter).wf(),
            old(counter).next < u16::MAX,
        ensures
            final(counter).wf(),
            r.0 == old(counter).next,
            final(counter).next == old(counter).next + 1,
            r.0 >= 1,
    {
        let pid = counter.next;
        counter.next = counter.next + 1;
        ProcessId(pid)
    }
}

impl From<ProcessId> for u16 {
    fn from(pid: ProcessId) -> (r: u16)
        ensures
            r == pid.0,
    {
        pid.0
    }
}

impl vstd::std_specs::convert::FromSpecImpl<ProcessId> for u16 {
    open spec fn obeys_from_spec() -> bool {
        true
    }

    open spec fn from_spec(pid: ProcessId) -> u16 {
        pid.0
    }
}

/// Identifiers are issued in strictly increasing order and are never `0`:
/// if one call to [`ProcessId::new`] leaves the counter in the state a later
/// call starts from, the later identifier is strictly larger, and both are
/// positive.
pub proof fn lemma_pid_strictly_increasing(c0: PidCounter, c1: PidCounter, c2: PidCounter, a: ProcessId, b: ProcessId)
    requires
        c0.wf(),
        // first call: issued `a`, advanced c0 to c1
        a.0 == c0.next,
        c1.next == c0.next + 1,
        // the counter only grows between the two calls
        c1.next <= c2.next,
        // second call: issued `b` from c2
        b.0 == c2.next,
    ensures
        0 < a.0 < b.0,
{
}

} // verus!
