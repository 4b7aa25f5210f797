//! Cross-actor ordering of application activation.

use vstd::prelude::*;

verus! {

/// Prevents stale activation requests from taking effect after more recent
/// ones.
///
/// The token stores the process id of the latest activation request accepted
/// by the coordinator.  An actor about to activate its application runs the
/// activation effect through [`RaiseToken::with`], which performs it only if
/// the stored id still names that actor's process: if a raise for another
/// application was requested in the meantime, the effect is skipped, yielding
/// last-request-wins even when requests are serviced out of order by
/// independent actors.
///
/// The activation call itself is not observed to complete through this token;
/// only a later application-activated event confirms it.  That residual race
/// is a documented limitation of the design, not something this type solves.
#[derive(Clone, Copy, Debug, PartialEq, Eq, Structural)]
pub struct RaiseToken {
    pub last_pid: i32,
}

/// Whether a raise gated on `pid` runs against token state `t`.
pub open spec fn raise_runs(t: RaiseToken, pid: i32) -> bool {
    t.last_pid == pid
}

/// The token state after the coordinator records a raise request for `pid`.
pub open spec fn after_set_pid(t: RaiseToken, pid: i32) -> RaiseToken {
    RaiseToken { last_pid: pid }
}

impl Default for RaiseToken {
    /// A fresh token; no raise has been requested yet.
    fn default() -> (r: RaiseToken)
        ensures
            r == (RaiseToken { last_pid: 0 }),
    {
        RaiseToken { last_pid: 0 }
    }
}

impl RaiseToken {
    /// Records that the most recent activation request is for `pid`.  The
    /// coordinator calls this when it decides to raise a process; any actor
    /// that gates its activation afterwards observes the new id.
    pub fn set_pid(&mut self, pid: i32)
        ensures
            *final(self) == after_set_pid(*old(self), pid),
    {
        self.last_pid = pid;
    }

    /// Checks whether the most recent activation request was for `pid` and
    /// calls the supplied closure if it was, returning its result; otherwise
    /// the closure never runs and the call returns nothing.
    pub fn with<R, F: FnOnce() -> R>(&self, pid: i32, f: F) -> (r: Option<R>)
        requires
            call_requires(f, ()),
        ensures
            r matches Some(v) ==> raise_runs(*self, pid) && call_ensures(f, (), v),
            r is None <==> !raise_runs(*self, pid),
    {
        if pid == self.last_pid {
            Some(f())
        } else {
            None
        }
    }
}

/// Last-writer-wins: once the coordinator has recorded a raise for a
/// different process, a raise gated on `pid` no longer runs, however the
/// recording and the gating interleave across actors.
pub proof fn lemma_raise_superseded(t: RaiseToken, pid: i32, newer: i32)
    requires
        newer != pid,
    ensures
        !raise_runs(after_set_pid(t, newer), pid),
{
}

} // verus!
