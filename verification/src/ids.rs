//! Stable identifiers handed out by one actor.

use vstd::prelude::*;

verus! {

/// An identifier representing a window.
///
/// The identifier is only valid for the lifetime of the process that owns the
/// window and for the lifetime of this daemon run; it is never persisted.
/// The index is the OS window-server identifier when one is available, or a
/// per-actor fallback counter otherwise; either way it is never zero and never
/// reused while the window is tracked.
#[derive(Clone, Copy, Debug, PartialEq, Eq, Structural)]
pub struct WindowId {
    pub pid: i32,
    pub idx: u32,
}

impl WindowId {
    /// Builds an identifier from its parts.  A genuine index is never zero.
    pub fn new(pid: i32, idx: u32) -> (r: WindowId)
        requires
            idx != 0,
        ensures
            r == (WindowId { pid, idx }),
    {
        WindowId { pid, idx }
    }
}

/// Correlation token attached to outbound mutation requests and echoed back on
/// the resulting frame-changed event, so the coordinator can tell its own
/// request's effect apart from an unrelated external change to the same
/// window.  Zero means "no pending transaction".
#[derive(Clone, Copy, Debug, PartialEq, Eq, Structural)]
pub struct TransactionId(pub u64);

impl Default for TransactionId {
    fn default() -> (r: TransactionId)
        ensures
            r == TransactionId(0),
    {
        TransactionId(0)
    }
}

} // verus!
