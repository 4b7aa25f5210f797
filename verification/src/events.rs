//! Messages in and out of an actor.

use vstd::prelude::*;

use crate::geometry::{Point, Rect};
use crate::ids::{TransactionId, WindowId};

verus! {

/// Basic information about a running application.
#[derive(Clone, Debug, PartialEq, Eq)]
pub struct AppInfo {
    pub bundle_id: Option<String>,
}

/// Information about a window at the moment it was discovered.
#[derive(Clone, Copy, Debug, PartialEq, Eq, Structural)]
pub struct WindowInfo {
    pub frame: Rect,
}

/// A snapshot of an application delivered with its launch event.
#[derive(Clone, Debug, PartialEq, Eq)]
pub struct AppState {
    pub info: AppInfo,
    pub main_window: Option<WindowId>,
    pub is_frontmost: bool,
}

/// Whether a frame change was caused by a coordinator request (as opposed to
/// an externally observed change).
#[derive(Clone, Copy, Debug, PartialEq, Eq, Structural)]
pub struct Requested(pub bool);

/// A request from the coordinator to one actor.
///
/// A raise request is gated through the shared
/// [`crate::raise_token::RaiseToken`], which the actor receives alongside the
/// request.
#[derive(Clone, Copy, Debug, PartialEq, Eq, Structural)]
pub enum Request {
    GetVisibleWindows,
    SetWindowFrame(WindowId, Rect, TransactionId),
    SetWindowPos(WindowId, Point, TransactionId),
    /// Temporarily suspends position and size update events for this window.
    BeginWindowAnimation(WindowId),
    /// Resumes position and size events for the window.  One frame event is
    /// sent immediately upon receiving the request.
    EndWindowAnimation(WindowId),
    Raise(WindowId),
}

/// An event from one actor back to the coordinator.
#[derive(Clone, Debug, PartialEq, Eq)]
pub enum Event {
    ApplicationLaunched(i32, AppState),
    WindowsDiscovered { pid: i32, new: Vec<(WindowId, WindowInfo)>, known_visible: Vec<WindowId> },
    WindowCreated(WindowId, WindowInfo),
    WindowDestroyed(WindowId),
    WindowFrameChanged(WindowId, Rect, TransactionId, Requested),
    ApplicationActivated(i32, Option<WindowId>),
    ApplicationDeactivated(i32),
    ApplicationMainWindowChanged(i32, Option<WindowId>),
}

/// An OS notification kind, as delivered to the actor's notification
/// callback.  The set is closed here; kinds the OS may add later arrive as
/// `Unknown` and are deliberately ignored rather than treated as errors.
#[derive(Clone, Copy, Debug, PartialEq, Eq, Structural)]
pub enum Notification {
    ApplicationActivated,
    ApplicationDeactivated,
    MainWindowChanged,
    WindowCreated,
    WindowDestroyed,
    WindowMoved,
    WindowResized,
    WindowMiniaturized,
    WindowDeminiaturized,
    TitleChanged,
    Unknown,
}

} // verus!
