//! An in-memory model of the OS accessibility layer.
//!
//! The actor logic is written and verified against this model: a scriptable
//! window list with per-window role, frame, window-server identifier and
//! notification-subscription state, plus the application-level attributes the
//! actor reads.  Tests and drivers populate it to simulate the OS; every
//! operation the actor performs on the real platform has its counterpart
//! here, with an exact contract.

use vstd::prelude::*;

use crate::errors::Error;
use crate::geometry::{Point, Rect, Size};

verus! {

/// One window as the window server sees it.
#[derive(Clone, Copy, Debug, PartialEq, Eq, Structural)]
pub struct PlatformWindow {
    /// Identity of the native window object.
    pub handle: u64,
    /// Whether the element's role marks it as a genuine top-level window.
    pub is_standard: bool,
    pub frame: Rect,
    /// The window-server identifier; zero when unavailable.
    pub server_id: u32,
    /// Whether notification registration on this window succeeds.
    pub subscribable: bool,
    /// Whether the actor holds the per-window notification subscriptions.
    pub subscribed: bool,
    /// Whether moved/resized notifications are currently delivered; suspended
    /// during client-driven animations.
    pub frame_events_subscribed: bool,
}

/// The mathematical model of a [`Platform`].
pub struct PlatformV {
    pub wins: Seq<PlatformWindow>,
    pub list_fails: bool,
    pub app_subscribable: bool,
    pub main_window: Option<u64>,
    pub frontmost: bool,
}

/// The application's visible state at the OS, as one actor sees it.
pub struct Platform {
    pub windows: Vec<PlatformWindow>,
    /// When set, reading the window list fails (the application has likely
    /// exited or is not a normal application).
    pub list_fails: bool,
    /// Whether application-level notification registration succeeds.
    pub app_subscribable: bool,
    /// The handle of the application's main window, if any.
    pub main_window: Option<u64>,
    /// Whether the application is frontmost.
    pub frontmost: bool,
}

impl View for Platform {
    type V = PlatformV;

    open spec fn view(&self) -> PlatformV {
        PlatformV {
            wins: self.windows@,
            list_fails: self.list_fails,
            app_subscribable: self.app_subscribable,
            main_window: self.main_window,
            frontmost: self.frontmost,
        }
    }
}

impl PlatformV {
    /// The window list, as handles, in OS order.
    pub open spec fn handles(self) -> Seq<u64> {
        self.wins.map_values(|w: PlatformWindow| w.handle)
    }

    /// Handles identify windows: no two list entries share one.
    pub open spec fn wf(self) -> bool {
        forall|i: int, j: int|
            0 <= i < j < self.wins.len() ==> self.wins[i].handle != self.wins[j].handle
    }

    /// Whether a window with this handle is on screen.
    pub open spec fn has(self, h: u64) -> bool {
        exists|i: int| 0 <= i < self.wins.len() && self.wins[i].handle == h
    }

    /// The list index of the window with this handle.
    pub open spec fn widx(self, h: u64) -> int {
        choose|i: int| 0 <= i < self.wins.len() && self.wins[i].handle == h
    }

    /// The window with this handle.
    pub open spec fn win(self, h: u64) -> PlatformWindow {
        self.wins[self.widx(h)]
    }

    /// This model with the window at `h` replaced by `w`.
    pub open spec fn with_win(self, h: u64, w: PlatformWindow) -> PlatformV {
        PlatformV {
            wins: self.wins.update(self.widx(h), w),
            list_fails: self.list_fails,
            app_subscribable: self.app_subscribable,
            main_window: self.main_window,
            frontmost: self.frontmost,
        }
    }

    /// This model with the main window set to `m`.
    pub open spec fn with_main(self, m: Option<u64>) -> PlatformV {
        PlatformV {
            wins: self.wins,
            list_fails: self.list_fails,
            app_subscribable: self.app_subscribable,
            main_window: m,
            frontmost: self.frontmost,
        }
    }

    /// This model after a successful activation of the application.
    pub open spec fn activated(self) -> PlatformV {
        PlatformV {
            wins: self.wins,
            list_fails: self.list_fails,
            app_subscribable: self.app_subscribable,
            main_window: self.main_window,
            frontmost: true,
        }
    }
}

/// The index of a present handle is in bounds, carries that handle, and is
/// the only such index.
pub proof fn lemma_widx(pl: PlatformV, h: u64)
    requires
        pl.wf(),
        pl.has(h),
    ensures
        0 <= pl.widx(h) < pl.wins.len(),
        pl.wins[pl.widx(h)].handle == h,
        forall|i: int| 0 <= i < pl.wins.len() && pl.wins[i].handle == h ==> i == pl.widx(h),
{
    let w = pl.widx(h);
    assert(0 <= w < pl.wins.len() && pl.wins[w].handle == h);
    assert forall|i: int| 0 <= i < pl.wins.len() && pl.wins[i].handle == h implies i == w by {
        if i < w {
            assert(pl.wins[i].handle != pl.wins[w].handle);
        } else if w < i {
            assert(pl.wins[w].handle != pl.wins[i].handle);
        }
    }
}

/// Updating a window in place (same handle) keeps the model well formed and
/// keeps every other window as it was.
pub proof fn lemma_with_win(pl: PlatformV, h: u64, w: PlatformWindow)
    requires
        pl.wf(),
        pl.has(h),
        w.handle == h,
    ensures
        pl.with_win(h, w).wf(),
        pl.with_win(h, w).wins.len() == pl.wins.len(),
        pl.with_win(h, w).has(h),
        pl.with_win(h, w).widx(h) == pl.widx(h),
        pl.with_win(h, w).win(h) == w,
        forall|i: int|
            0 <= i < pl.wins.len() && i != pl.widx(h)
                ==> pl.with_win(h, w).wins[i] == pl.wins[i],
{
    lemma_widx(pl, h);
    let p2 = pl.with_win(h, w);
    assert forall|i: int, j: int| 0 <= i < j < p2.wins.len()
        implies p2.wins[i].handle != p2.wins[j].handle by {
        assert(p2.wins[i].handle == pl.wins[i].handle);
        assert(p2.wins[j].handle == pl.wins[j].handle);
    }
    assert(p2.wins[pl.widx(h)].handle == h);
    lemma_widx(p2, h);
}

impl Platform {
    /// An application with no windows and a healthy platform connection.
    pub fn new() -> (r: Platform)
        ensures
            r@.wins.len() == 0,
            !r@.list_fails,
            r@.app_subscribable,
            r@.main_window is None,
            !r@.frontmost,
            r@.wf(),
    {
        Platform {
            windows: Vec::new(),
            list_fails: false,
            app_subscribable: true,
            main_window: None,
            frontmost: false,
        }
    }

    /// The list index of the window with handle `h`, if it is on screen.
    fn find(&self, h: u64) -> (r: Option<usize>)
        ensures
            match r {
                Some(i) => i < self.windows.len() && self@.wins[i as int].handle == h
                    && self@.has(h),
                None => !self@.has(h),
            },
    {
        let mut i: usize = 0;
        while i < self.windows.len()
            invariant
                i <= self.windows.len(),
                forall|j: int| 0 <= j < i ==> self@.wins[j].handle != h,
            decreases self.windows.len() - i,
        {
            if self.windows[i].handle == h {
                return Some(i);
            }
            i = i + 1;
        }
        None
    }

    /// Reads the window list.  Fails exactly when the application has gone
    /// away; the handles come back in OS order.
    pub fn list_windows(&self) -> (r: Result<Vec<u64>, Error>)
        ensures
            self@.list_fails ==> r == Err::<Vec<u64>, Error>(Error::PlatformCallFailed),
            !self@.list_fails ==> (r matches Ok(v) && v@ == self@.handles()),
    {
        if self.list_fails {
            return Err(Error::PlatformCallFailed);
        }
        let mut v: Vec<u64> = Vec::new();
        let mut i: usize = 0;
        while i < self.windows.len()
            invariant
                i <= self.windows.len(),
                v@.len() == i,
                forall|j: int| 0 <= j < i ==> v@[j] == self@.wins[j].handle,
            decreases self.windows.len() - i,
        {
            v.push(self.windows[i].handle);
            i = i + 1;
        }
        proof {
            assert(v@ =~= self@.handles());
        }
        Ok(v)
    }

    /// Whether the element's role marks it as a genuine top-level window.
    /// A handle that is no longer on screen has no readable role.
    pub fn role_is_window(&self, h: u64) -> (r: bool)
        requires
            self@.wf(),
        ensures
            r == (self@.has(h) && self@.win(h).is_standard),
    {
        match self.find(h) {
            Some(i) => {
                proof {
                    lemma_find_agrees(self@, h, i as int);
                }
                self.windows[i].is_standard
            },
            None => false,
        }
    }

    /// Reads the window's current frame.
    pub fn frame(&self, h: u64) -> (r: Result<Rect, Error>)
        requires
            self@.wf(),
        ensures
            self@.has(h) ==> r == Ok::<Rect, Error>(self@.win(h).frame),
            !self@.has(h) ==> r == Err::<Rect, Error>(Error::PlatformCallFailed),
    {
        match self.find(h) {
            Some(i) => {
                proof {
                    lemma_find_agrees(self@, h, i as int);
                }
                Ok(self.windows[i].frame)
            },
            None => Err(Error::PlatformCallFailed),
        }
    }

    /// The window-server identifier of the window, or zero when the window is
    /// gone or the identifier is unavailable.
    pub fn window_server_id(&self, h: u64) -> (r: u32)
        requires
            self@.wf(),
        ensures
            r == (if self@.has(h) { self@.win(h).server_id } else { 0u32 }),
    {
        match self.find(h) {
            Some(i) => {
                proof {
                    lemma_find_agrees(self@, h, i as int);
                }
                self.windows[i].server_id
            },
            None => 0,
        }
    }

    /// Moves the window.  The size is untouched.
    pub fn set_position(&mut self, h: u64, pos: Point) -> (r: Result<(), Error>)
        requires
            old(self)@.wf(),
        ensures
            final(self)@.wf(),
            !old(self)@.has(h) ==> r == Err::<(), Error>(Error::PlatformCallFailed)
                && final(self)@ == old(self)@,
            old(self)@.has(h) ==> r == Ok::<(), Error>(())
                && final(self)@ == old(self)@.with_win(h, (PlatformWindow {
                    frame: (Rect { origin: pos, size: old(self)@.win(h).frame.size }),
                    ..old(self)@.win(h)
                })),
    {
        match self.find(h) {
            Some(i) => {
                proof {
                    lemma_find_agrees(self@, h, i as int);
                    lemma_with_win(self@, h, PlatformWindow {
                        frame: Rect { origin: pos, size: self@.win(h).frame.size },
                        ..self@.win(h)
                    });
                }
                let w = self.windows[i];
                self.windows[i] = PlatformWindow {
                    frame: Rect { origin: pos, size: w.frame.size },
                    ..w
                };
                Ok(())
            },
            None => Err(Error::PlatformCallFailed),
        }
    }

    /// Resizes the window.  The origin is untouched.
    pub fn set_size(&mut self, h: u64, size: Size) -> (r: Result<(), Error>)
        requires
            old(self)@.wf(),
        ensures
            final(self)@.wf(),
            !old(self)@.has(h) ==> r == Err::<(), Error>(Error::PlatformCallFailed)
                && final(self)@ == old(self)@,
            old(self)@.has(h) ==> r == Ok::<(), Error>(())
                && final(self)@ == old(self)@.with_win(h, (PlatformWindow {
                    frame: (Rect { origin: old(self)@.win(h).frame.origin, size }),
                    ..old(self)@.win(h)
                })),
    {
        match self.find(h) {
            Some(i) => {
                proof {
                    lemma_find_agrees(self@, h, i as int);
                    lemma_with_win(self@, h, PlatformWindow {
                        frame: Rect { origin: self@.win(h).frame.origin, size },
                        ..self@.win(h)
                    });
                }
                let w = self.windows[i];
                self.windows[i] = PlatformWindow {
                    frame: Rect { origin: w.frame.origin, size },
                    ..w
                };
                Ok(())
            },
            None => Err(Error::PlatformCallFailed),
        }
    }

    /// Raises the window within its application: it becomes the main window.
    pub fn raise(&mut self, h: u64) -> (r: Result<(), Error>)
        ensures
            !old(self)@.has(h) ==> r == Err::<(), Error>(Error::PlatformCallFailed)
                && final(self)@ == old(self)@,
            old(self)@.has(h) ==> r == Ok::<(), Error>(())
                && final(self)@ == old(self)@.with_main(Some(h)),
    {
        match self.find(h) {
            Some(_) => {
                self.main_window = Some(h);
                Ok(())
            },
            None => Err(Error::PlatformCallFailed),
        }
    }

    /// Brings the application to the foreground.
    pub fn activate(&mut self)
        ensures
            final(self)@ == old(self)@.activated(),
    {
        self.frontmost = true;
    }

    /// Registers the application-level notifications the actor needs.  The
    /// outcome is decided by the platform connection as a whole.
    pub fn subscribe_app_notifications(&self) -> (r: Result<(), Error>)
        ensures
            self@.app_subscribable ==> r == Ok::<(), Error>(()),
            !self@.app_subscribable ==> r == Err::<(), Error>(Error::SubscriptionFailed),
    {
        if self.app_subscribable {
            Ok(())
        } else {
            Err(Error::SubscriptionFailed)
        }
    }

    /// Registers the per-window notifications for one window, including the
    /// moved/resized pair.  Nothing changes when the OS refuses.
    pub fn subscribe_window(&mut self, h: u64) -> (r: Result<(), Error>)
        requires
            old(self)@.wf(),
        ensures
            final(self)@.wf(),
            (old(self)@.has(h) && old(self)@.win(h).subscribable) ==> r == Ok::<(), Error>(())
                && final(self)@ == old(self)@.with_win(h, (PlatformWindow {
                    subscribed: true,
                    frame_events_subscribed: true,
                    ..old(self)@.win(h)
                })),
            !(old(self)@.has(h) && old(self)@.win(h).subscribable)
                ==> r == Err::<(), Error>(Error::SubscriptionFailed)
                && final(self)@ == old(self)@,
    {
        match self.find(h) {
            Some(i) => {
                proof {
                    lemma_find_agrees(self@, h, i as int);
                    lemma_with_win(self@, h, PlatformWindow {
                        subscribed: true,
                        frame_events_subscribed: true,
                        ..self@.win(h)
                    });
                }
                let w = self.windows[i];
                if w.subscribable {
                    self.windows[i] = PlatformWindow {
                        subscribed: true,
                        frame_events_subscribed: true,
                        ..w
                    };
                    Ok(())
                } else {
                    Err(Error::SubscriptionFailed)
                }
            },
            None => Err(Error::SubscriptionFailed),
        }
    }

    /// Stops delivery of moved/resized notifications for one window.
    pub fn suspend_frame_events(&mut self, h: u64) -> (r: Result<(), Error>)
        requires
            old(self)@.wf(),
        ensures
            final(self)@.wf(),
            old(self)@.has(h) ==> r == Ok::<(), Error>(())
                && final(self)@ == old(self)@.with_win(h, (PlatformWindow {
                    frame_events_subscribed: false,
                    ..old(self)@.win(h)
                })),
            !old(self)@.has(h) ==> r == Err::<(), Error>(Error::SubscriptionFailed)
                && final(self)@ == old(self)@,
    {
        match self.find(h) {
            Some(i) => {
                proof {
                    lemma_find_agrees(self@, h, i as int);
                    lemma_with_win(self@, h, PlatformWindow {
                        frame_events_subscribed: false,
                        ..self@.win(h)
                    });
                }
                let w = self.windows[i];
                self.windows[i] = PlatformWindow { frame_events_subscribed: false, ..w };
                Ok(())
            },
            None => Err(Error::SubscriptionFailed),
        }
    }

    /// Resumes delivery of moved/resized notifications for one window.
    pub fn resume_frame_events(&mut self, h: u64) -> (r: Result<(), Error>)
        requires
            old(self)@.wf(),
        ensures
            final(self)@.wf(),
            old(self)@.has(h) ==> r == Ok::<(), Error>(())
                && final(self)@ == old(self)@.with_win(h, (PlatformWindow {
                    frame_events_subscribed: true,
                    ..old(self)@.win(h)
                })),
            !old(self)@.has(h) ==> r == Err::<(), Error>(Error::SubscriptionFailed)
                && final(self)@ == old(self)@,
    {
        match self.find(h) {
            Some(i) => {
                proof {
                    lemma_find_agrees(self@, h, i as int);
                    lemma_with_win(self@, h, PlatformWindow {
                        frame_events_subscribed: true,
                        ..self@.win(h)
                    });
                }
                let w = self.windows[i];
                self.windows[i] = PlatformWindow { frame_events_subscribed: true, ..w };
                Ok(())
            },
            None => Err(Error::SubscriptionFailed),
        }
    }

    /// Whether moved/resized notifications for this window are currently
    /// delivered.
    pub fn frame_events_subscribed(&self, h: u64) -> (r: bool)
        requires
            self@.wf(),
        ensures
            r == (self@.has(h) && self@.win(h).frame_events_subscribed),
    {
        match self.find(h) {
            Some(i) => {
                proof {
                    lemma_find_agrees(self@, h, i as int);
                }
                self.windows[i].frame_events_subscribed
            },
            None => false,
        }
    }

    /// Whether a window with this handle is on screen.
    pub fn has_window(&self, h: u64) -> (r: bool)
        ensures
            r == self@.has(h),
    {
        self.find(h).is_some()
    }

    /// The application's main window, if it has one.
    pub fn main_window(&self) -> (r: Option<u64>)
        ensures
            r == self@.main_window,
    {
        self.main_window
    }

    /// Whether the application is frontmost.
    pub fn is_frontmost(&self) -> (r: bool)
        ensures
            r == self@.frontmost,
    {
        self.frontmost
    }
}

/// Any in-bounds index carrying handle `h` names the same window value that
/// the model's `win` accessor does, even without uniqueness of handles.
proof fn lemma_find_agrees(pl: PlatformV, h: u64, i: int)
    requires
        0 <= i < pl.wins.len(),
        pl.wins[i].handle == h,
        pl.wf(),
    ensures
        pl.widx(h) == i,
        pl.win(h) == pl.wins[i],
        pl.has(h),
{
    assert(pl.has(h));
    lemma_widx(pl, h);
}

} // verus!
