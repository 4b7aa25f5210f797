//! What can go wrong while servicing a request.

use vstd::prelude::*;

verus! {

/// Errors reported back on the actor's request path.
///
/// `NotFound` means the addressed window is no longer tracked or no longer
/// exists (the coordinator used a stale id).  `PlatformCallFailed` means an OS
/// call on the window or on the application failed, most commonly because the
/// target process exited.  `SubscriptionFailed` means the OS refused a
/// notification registration.  Notification-path failures are swallowed; only
/// requests report errors to their caller.
#[derive(Clone, Copy, Debug, PartialEq, Eq, Structural)]
pub enum Error {
    NotFound,
    PlatformCallFailed,
    SubscriptionFailed,
}

} // verus!
