//! The per-application actor: window registry, request handling and
//! notification handling.
//!
//! One `State` is owned by exactly one single-threaded worker; nothing here
//! is shared across actors except the raise token, which is passed in with
//! each raise request.  Every transition is specified against the
//! mathematical model [`StateV`] together with the platform model
//! [`PlatformV`].

use vstd::prelude::*;

use crate::errors::Error;
use crate::events::{AppInfo, AppState, Event, Notification, Request, Requested, WindowInfo};
use crate::geometry::{Point, Rect};
use crate::ids::{TransactionId, WindowId};
use crate::platform::{lemma_widx, lemma_with_win, Platform, PlatformV, PlatformWindow};
use crate::raise_token::{raise_runs, RaiseToken};

verus! {

/// One window tracked by an actor: the native handle it was discovered
/// under and the transaction id of the last coordinator-driven mutation.
#[derive(Clone, Copy, Debug, PartialEq, Eq, Structural)]
pub struct TrackedWindow {
    pub id: WindowId,
    pub handle: u64,
    pub last_seen_txid: TransactionId,
}

/// The mathematical model of an actor's [`State`].
pub struct StateV {
    pub pid: i32,
    pub bundle_id: Option<String>,
    pub wins: Seq<TrackedWindow>,
    pub last_window_idx: u32,
}

/// The private state of one application actor.
pub struct State {
    /// The process id of the owned application.
    pub pid: i32,
    /// The application's bundle identifier, if it has one; carried as
    /// context for the worker's logging.
    pub bundle_id: Option<String>,
    /// The window registry.  Windows per application are few, so lookups
    /// scan linearly.
    pub windows: Vec<TrackedWindow>,
    /// Fallback identifier counter, used when the window server does not
    /// provide an identifier.
    pub last_window_idx: u32,
}

impl View for State {
    type V = StateV;

    open spec fn view(&self) -> StateV {
        StateV {
            pid: self.pid,
            bundle_id: self.bundle_id,
            wins: self.windows@,
            last_window_idx: self.last_window_idx,
        }
    }
}

impl StateV {
    /// Registry invariant: ids and handles are unique, every id belongs to
    /// this actor's process and has a nonzero index.
    pub open spec fn wf(self) -> bool {
        &&& forall|i: int, j: int|
            0 <= i < j < self.wins.len()
                ==> self.wins[i].id != self.wins[j].id
                    && self.wins[i].handle != self.wins[j].handle
        &&& forall|i: int|
            0 <= i < self.wins.len()
                ==> (#[trigger] self.wins[i]).id.pid == self.pid && self.wins[i].id.idx != 0
    }

    /// Whether a window with this id is tracked.
    pub open spec fn has_id(self, wid: WindowId) -> bool {
        exists|i: int| 0 <= i < self.wins.len() && self.wins[i].id == wid
    }

    /// The registry index of the window with this id.
    pub open spec fn iidx(self, wid: WindowId) -> int {
        choose|i: int| 0 <= i < self.wins.len() && self.wins[i].id == wid
    }

    /// The tracked window with this id.
    pub open spec fn entry(self, wid: WindowId) -> TrackedWindow {
        self.wins[self.iidx(wid)]
    }

    /// Whether a window with this native handle is tracked.
    pub open spec fn has_handle(self, h: u64) -> bool {
        exists|i: int| 0 <= i < self.wins.len() && self.wins[i].handle == h
    }

    /// The registry index of the window with this handle.
    pub open spec fn hidx(self, h: u64) -> int {
        choose|i: int| 0 <= i < self.wins.len() && self.wins[i].handle == h
    }

    /// The tracked window with this handle.
    pub open spec fn by_handle(self, h: u64) -> TrackedWindow {
        self.wins[self.hidx(h)]
    }

    /// The id of the tracked window with this handle.
    pub open spec fn id_of_handle(self, h: u64) -> WindowId {
        self.by_handle(h).id
    }

    /// This model with the transaction id of window `wid` replaced.
    pub open spec fn with_txid(self, wid: WindowId, txid: TransactionId) -> StateV {
        StateV {
            pid: self.pid,
            bundle_id: self.bundle_id,
            wins: self.wins.update(
                self.iidx(wid),
                (TrackedWindow { last_seen_txid: txid, ..self.entry(wid) }),
            ),
            last_window_idx: self.last_window_idx,
        }
    }

    /// This model with the window carrying handle `h` dropped.
    pub open spec fn without_handle(self, h: u64) -> StateV {
        StateV {
            pid: self.pid,
            bundle_id: self.bundle_id,
            wins: self.wins.remove(self.hidx(h)),
            last_window_idx: self.last_window_idx,
        }
    }
}

/// The index of a tracked id is in bounds, carries that id, and is the only
/// such index.
pub proof fn lemma_iidx(st: StateV, wid: WindowId)
    requires
        st.wf(),
        st.has_id(wid),
    ensures
        0 <= st.iidx(wid) < st.wins.len(),
        st.wins[st.iidx(wid)].id == wid,
        forall|i: int| 0 <= i < st.wins.len() && st.wins[i].id == wid ==> i == st.iidx(wid),
{
    let k = st.iidx(wid);
    assert(0 <= k < st.wins.len() && st.wins[k].id == wid);
    assert forall|i: int| 0 <= i < st.wins.len() && st.wins[i].id == wid implies i == k by {
        if i < k {
            assert(st.wins[i].id != st.wins[k].id);
        } else if k < i {
            assert(st.wins[k].id != st.wins[i].id);
        }
    }
}

/// The index of a tracked handle is in bounds, carries that handle, and is
/// the only such index.
pub proof fn lemma_hidx(st: StateV, h: u64)
    requires
        st.wf(),
        st.has_handle(h),
    ensures
        0 <= st.hidx(h) < st.wins.len(),
        st.wins[st.hidx(h)].handle == h,
        forall|i: int| 0 <= i < st.wins.len() && st.wins[i].handle == h ==> i == st.hidx(h),
{
    let k = st.hidx(h);
    assert(0 <= k < st.wins.len() && st.wins[k].handle == h);
    assert forall|i: int| 0 <= i < st.wins.len() && st.wins[i].handle == h implies i == k by {
        if i < k {
            assert(st.wins[i].handle != st.wins[k].handle);
        } else if k < i {
            assert(st.wins[k].handle != st.wins[i].handle);
        }
    }
}

/// Whether registering `h` gets as far as subscribing to the window's
/// notifications: the handle is not already tracked, the window is on
/// screen, its role is a genuine window, and the OS accepts the
/// subscription.
pub open spec fn reg_subscribes(st: StateV, pl: PlatformV, h: u64) -> bool {
    &&& !st.has_handle(h)
    &&& pl.has(h)
    &&& pl.win(h).is_standard
    &&& pl.win(h).subscribable
}

/// The id a registration of `h` would assign: the window-server identifier
/// when available, the next fallback index otherwise.
pub open spec fn reg_candidate(st: StateV, pl: PlatformV, h: u64) -> WindowId {
    if pl.win(h).server_id != 0 {
        WindowId { pid: st.pid, idx: pl.win(h).server_id }
    } else {
        WindowId { pid: st.pid, idx: (st.last_window_idx + 1) as u32 }
    }
}

/// The outcome of registering `h`: the assigned id, or nothing when the
/// window cannot be tracked (wrong role, subscription refused, handle or
/// derived id already present, or fallback indices exhausted).
pub open spec fn reg_result(st: StateV, pl: PlatformV, h: u64) -> Option<WindowId> {
    if !reg_subscribes(st, pl, h) {
        None
    } else if pl.win(h).server_id == 0 && st.last_window_idx == u32::MAX {
        None
    } else if st.has_id(reg_candidate(st, pl, h)) {
        None
    } else {
        Some(reg_candidate(st, pl, h))
    }
}

/// The registry after registering `h`.
pub open spec fn reg_state(st: StateV, pl: PlatformV, h: u64) -> StateV {
    match reg_result(st, pl, h) {
        None => st,
        Some(wid) => StateV {
            pid: st.pid,
            bundle_id: st.bundle_id,
            wins: st.wins.push(
                (TrackedWindow { id: wid, handle: h, last_seen_txid: TransactionId(0) }),
            ),
            last_window_idx: if pl.win(h).server_id != 0 {
                st.last_window_idx
            } else {
                (st.last_window_idx + 1) as u32
            },
        },
    }
}

/// The platform after registering `h`: the per-window subscriptions are held
/// exactly when the subscription step ran, whether or not the registration
/// then completed.
pub open spec fn reg_platform(st: StateV, pl: PlatformV, h: u64) -> PlatformV {
    if reg_subscribes(st, pl, h) {
        pl.with_win(
            h,
            (PlatformWindow { subscribed: true, frame_events_subscribed: true, ..pl.win(h) }),
        )
    } else {
        pl
    }
}

/// A registration never loses a tracked window, keeps the invariant, and
/// assigns only fresh ids.
pub proof fn lemma_reg_state_wf(st: StateV, pl: PlatformV, h: u64)
    requires
        st.wf(),
        pl.wf(),
    ensures
        reg_state(st, pl, h).wf(),
        reg_state(st, pl, h).pid == st.pid,
        st.wins.is_prefix_of(reg_state(st, pl, h).wins),
        reg_result(st, pl, h) matches Some(wid) ==> {
            &&& !st.has_id(wid)
            &&& !st.has_handle(h)
            &&& wid.pid == st.pid
            &&& wid.idx != 0
            &&& reg_state(st, pl, h).wins == st.wins.push(
                (TrackedWindow { id: wid, handle: h, last_seen_txid: TransactionId(0) }),
            )
        },
        reg_result(st, pl, h) is None ==> reg_state(st, pl, h) == st,
{
    match reg_result(st, pl, h) {
        None => {
            assert(st.wins.is_prefix_of(st.wins));
        },
        Some(wid) => {
            let st2 = reg_state(st, pl, h);
            let entry = TrackedWindow { id: wid, handle: h, last_seen_txid: TransactionId(0) };
            assert(st2.wins == st.wins.push(entry));
            assert(st.wins.is_prefix_of(st2.wins)) by {
                assert(st2.wins.take(st.wins.len() as int) =~= st.wins);
            }
            if pl.win(h).server_id == 0 {
                assert(st.last_window_idx < u32::MAX);
                assert(wid.idx == st.last_window_idx + 1);
            }
            assert forall|i: int, j: int| 0 <= i < j < st2.wins.len()
                implies st2.wins[i].id != st2.wins[j].id
                    && st2.wins[i].handle != st2.wins[j].handle by {
                if j < st.wins.len() {
                    assert(st.wins[i].id != st.wins[j].id);
                } else {
                    assert(st2.wins[j] == entry);
                    assert(st2.wins[i] == st.wins[i]);
                    if st.wins[i].id == wid {
                        assert(st.has_id(wid));
                    }
                    if st.wins[i].handle == h {
                        assert(st.has_handle(h));
                    }
                }
            }
        },
    }
}

impl State {
    /// A fresh actor state for process `pid`, tracking nothing yet.
    pub fn new(pid: i32, bundle_id: Option<String>) -> (s: State)
        ensures
            s@.pid == pid,
            s@.bundle_id == bundle_id,
            s@.wins.len() == 0,
            s@.last_window_idx == 0,
            s@.wf(),
    {
        State { pid, bundle_id, windows: Vec::new(), last_window_idx: 0 }
    }

    /// The registry index of the window with this id.
    fn find_by_id(&self, wid: WindowId) -> (r: Option<usize>)
        requires
            self@.wf(),
        ensures
            match r {
                Some(i) => self@.has_id(wid) && self@.iidx(wid) == i
                    && i < self.windows.len() && self@.wins[i as int].id == wid,
                None => !self@.has_id(wid),
            },
    {
        let mut i: usize = 0;
        while i < self.windows.len()
            invariant
                self@.wf(),
                i <= self.windows.len(),
                forall|j: int| 0 <= j < i ==> self@.wins[j].id != wid,
            decreases self.windows.len() - i,
        {
            if self.windows[i].id == wid {
                proof {
                    assert(self@.wins[i as int].id == wid);
                    assert(self@.has_id(wid));
                    lemma_iidx(self@, wid);
                }
                return Some(i);
            }
            i = i + 1;
        }
        None
    }

    /// The registry index of the window with this native handle.
    fn find_by_handle(&self, h: u64) -> (r: Option<usize>)
        requires
            self@.wf(),
        ensures
            match r {
                Some(i) => self@.has_handle(h) && self@.hidx(h) == i
                    && i < self.windows.len() && self@.wins[i as int].handle == h,
                None => !self@.has_handle(h),
            },
    {
        let mut i: usize = 0;
        while i < self.windows.len()
            invariant
                self@.wf(),
                i <= self.windows.len(),
                forall|j: int| 0 <= j < i ==> self@.wins[j].handle != h,
            decreases self.windows.len() - i,
        {
            if self.windows[i].handle == h {
                proof {
                    assert(self@.wins[i as int].handle == h);
                    assert(self@.has_handle(h));
                    lemma_hidx(self@, h);
                }
                return Some(i);
            }
            i = i + 1;
        }
        None
    }

    /// Maps a native window handle back to the id it is tracked under.
    /// Fails when no tracked window carries the handle.
    pub fn id(&self, handle: u64) -> (r: Result<WindowId, Error>)
        requires
            self@.wf(),
        ensures
            self@.has_handle(handle)
                ==> r == Ok::<WindowId, Error>(self@.id_of_handle(handle)),
            !self@.has_handle(handle) ==> r == Err::<WindowId, Error>(Error::NotFound),
    {
        match self.find_by_handle(handle) {
            Some(i) => Ok(self.windows[i].id),
            None => Err(Error::NotFound),
        }
    }

    /// Starts tracking the window behind `handle`: checks its role,
    /// registers its notifications, derives an id (window-server identifier
    /// when available, fallback counter otherwise) and records the window.
    ///
    /// Registering a handle that is already tracked, or deriving an id that
    /// is already taken, indicates a caller bug or an OS identifier
    /// collision; such a registration is rejected rather than allowed to
    /// corrupt the registry.  A window whose notifications cannot be
    /// established is likewise not tracked, since its state could silently
    /// drift.
    pub fn register_window(&mut self, platform: &mut Platform, handle: u64) -> (r: Option<
        WindowId,
    >)
        requires
            old(self)@.wf(),
            old(platform)@.wf(),
        ensures
            final(self)@.wf(),
            final(platform)@.wf(),
            r == reg_result(old(self)@, old(platform)@, handle),
            final(self)@ == reg_state(old(self)@, old(platform)@, handle),
            final(platform)@ == reg_platform(old(self)@, old(platform)@, handle),
    {
        proof {
            lemma_reg_state_wf(old(self)@, old(platform)@, handle);
        }
        if self.find_by_handle(handle).is_some() {
            return None;
        }
        if !platform.role_is_window(handle) {
            return None;
        }
        proof {
            lemma_widx(old(platform)@, handle);
        }
        if platform.subscribe_window(handle).is_err() {
            return None;
        }
        proof {
            lemma_with_win(
                old(platform)@,
                handle,
                PlatformWindow {
                    subscribed: true,
                    frame_events_subscribed: true,
                    ..old(platform)@.win(handle)
                },
            );
        }
        let sid = platform.window_server_id(handle);
        let idx: u32 = if sid != 0 {
            sid
        } else {
            if self.last_window_idx == u32::MAX {
                return None;
            }
            self.last_window_idx + 1
        };
        let wid = WindowId { pid: self.pid, idx };
        if self.find_by_id(wid).is_some() {
            return None;
        }
        if sid == 0 {
            self.last_window_idx = self.last_window_idx + 1;
        }
        self.windows.push(TrackedWindow { id: wid, handle, last_seen_txid: TransactionId(0) });
        Some(wid)
    }
}

/// The id the actor would report as the application's main window: the OS
/// main-window handle resolved through the registry, best effort.
pub open spec fn main_window_id(st: StateV, pl: PlatformV) -> Option<WindowId> {
    match pl.main_window {
        Some(h) => if st.has_handle(h) {
            Some(st.id_of_handle(h))
        } else {
            None
        },
        None => None,
    }
}

/// What one delivered notification does to the actor: which event it emits,
/// how the registry changes, and when it is ignored.
pub open spec fn notification_post(
    pre: StateV,
    post: StateV,
    prep: PlatformV,
    postp: PlatformV,
    h: u64,
    n: Notification,
    ev0: Seq<Event>,
    ev1: Seq<Event>,
) -> bool {
    match n {
        // Activation can race ahead of the following main-window-changed
        // notification, so the current main window rides along.
        Notification::ApplicationActivated => post == pre && postp == prep && ev1 == ev0.push(
            Event::ApplicationActivated(pre.pid, main_window_id(pre, prep)),
        ),
        Notification::ApplicationDeactivated => post == pre && postp == prep && ev1 == ev0.push(
            Event::ApplicationDeactivated(pre.pid),
        ),
        // An unknown main window is surfaced as "none"; processing continues.
        Notification::MainWindowChanged => post == pre && postp == prep && ev1 == ev0.push(
            Event::ApplicationMainWindowChanged(
                pre.pid,
                if pre.has_handle(h) {
                    Some(pre.id_of_handle(h))
                } else {
                    None
                },
            ),
        ),
        // Ignored silently unless the handle is a registrable genuine window.
        Notification::WindowCreated => {
            &&& post == reg_state(pre, prep, h)
            &&& postp == reg_platform(pre, prep, h)
            &&& match reg_result(pre, prep, h) {
                Some(wid) => ev1 == ev0.push(
                    Event::WindowCreated(wid, (WindowInfo { frame: prep.win(h).frame })),
                ),
                None => ev1 == ev0,
            }
        },
        // Ignored silently when the window was already removed.
        Notification::WindowDestroyed => if pre.has_handle(h) {
            &&& post == pre.without_handle(h)
            &&& postp == prep
            &&& ev1 == ev0.push(Event::WindowDestroyed(pre.id_of_handle(h)))
        } else {
            post == pre && postp == prep && ev1 == ev0
        },
        // Either kind may imply both a position and a size change, so the
        // full frame is read and sent; the event echoes the transaction id
        // recorded on the window and is marked as not requested.
        Notification::WindowMoved | Notification::WindowResized => if pre.has_handle(h)
            && prep.has(h) {
            &&& post == pre
            &&& postp == prep
            &&& ev1 == ev0.push(
                Event::WindowFrameChanged(
                    pre.id_of_handle(h),
                    prep.win(h).frame,
                    pre.by_handle(h).last_seen_txid,
                    Requested(false),
                ),
            )
        } else {
            post == pre && postp == prep && ev1 == ev0
        },
        // Observed but deliberately unhandled kinds, and kinds the OS may
        // add later: no state change, no event.
        Notification::WindowMiniaturized => post == pre && postp == prep && ev1 == ev0,
        Notification::WindowDeminiaturized => post == pre && postp == prep && ev1 == ev0,
        Notification::TitleChanged => post == pre && postp == prep && ev1 == ev0,
        Notification::Unknown => post == pre && postp == prep && ev1 == ev0,
    }
}

/// Dropping a tracked window keeps the registry invariant; every other
/// window stays tracked.
pub proof fn lemma_without_handle_wf(st: StateV, h: u64)
    requires
        st.wf(),
        st.has_handle(h),
    ensures
        st.without_handle(h).wf(),
        st.without_handle(h).wins.len() == st.wins.len() - 1,
        !st.without_handle(h).has_handle(h),
        forall|i: int|
            0 <= i < st.wins.len() && i != st.hidx(h)
                ==> st.without_handle(h).has_id(st.wins[i].id),
{
    lemma_hidx(st, h);
    let k = st.hidx(h);
    let post = st.without_handle(h);
    assert(post.wins =~= st.wins.subrange(0, k).add(st.wins.subrange(k + 1, st.wins.len() as int)));
    assert forall|j: int| 0 <= j < post.wins.len()
        implies post.wins[j] == (if j < k {
            st.wins[j]
        } else {
            st.wins[j + 1]
        }) by {}
    assert forall|i: int, j: int| 0 <= i < j < post.wins.len()
        implies post.wins[i].id != post.wins[j].id
            && post.wins[i].handle != post.wins[j].handle by {
        let i0 = if i < k { i } else { i + 1 };
        let j0 = if j < k { j } else { j + 1 };
        assert(st.wins[i0].id != st.wins[j0].id && st.wins[i0].handle != st.wins[j0].handle);
    }
    assert forall|j: int| 0 <= j < post.wins.len() implies post.wins[j].handle != h by {
        let j0 = if j < k { j } else { j + 1 };
        if j0 != k {
            assert(st.wins[j0].handle != st.wins[k].handle);
        }
    }
    assert forall|i: int| 0 <= i < st.wins.len() && i != k
        implies post.has_id(st.wins[i].id) by {
        let j = if i < k { i } else { i - 1 };
        assert(post.wins[j] == st.wins[i]);
    }
}

impl State {
    /// Applies one OS notification about this application to the actor's
    /// state, emitting the corresponding event.  Notifications never report
    /// errors to a caller: anything that cannot be handled is logged by the
    /// surrounding worker and otherwise ignored.
    pub fn handle_notification(
        &mut self,
        platform: &mut Platform,
        handle: u64,
        notif: Notification,
        events: &mut Vec<Event>,
    )
        requires
            old(self)@.wf(),
            old(platform)@.wf(),
        ensures
            final(self)@.wf(),
            final(platform)@.wf(),
            notification_post(
                old(self)@,
                final(self)@,
                old(platform)@,
                final(platform)@,
                handle,
                notif,
                old(events)@,
                final(events)@,
            ),
    {
        match notif {
            Notification::ApplicationActivated => {
                let main = match platform.main_window() {
                    Some(h) => match self.id(h) {
                        Ok(wid) => Some(wid),
                        Err(_) => None,
                    },
                    None => None,
                };
                events.push(Event::ApplicationActivated(self.pid, main));
            },
            Notification::ApplicationDeactivated => {
                events.push(Event::ApplicationDeactivated(self.pid));
            },
            Notification::MainWindowChanged => {
                let main = match self.id(handle) {
                    Ok(wid) => Some(wid),
                    Err(_) => None,
                };
                events.push(Event::ApplicationMainWindowChanged(self.pid, main));
            },
            Notification::WindowCreated => {
                let frame = match platform.frame(handle) {
                    Ok(f) => f,
                    Err(_) => {
                        return ;
                    },
                };
                match self.register_window(platform, handle) {
                    Some(wid) => {
                        events.push(Event::WindowCreated(wid, WindowInfo { frame }));
                    },
                    None => {},
                }
            },
            Notification::WindowDestroyed => {
                match self.find_by_handle(handle) {
                    Some(i) => {
                        proof {
                            lemma_without_handle_wf(self@, handle);
                        }
                        let wid = self.windows[i].id;
                        self.windows.remove(i);
                        events.push(Event::WindowDestroyed(wid));
                    },
                    None => {},
                }
            },
            Notification::WindowMoved | Notification::WindowResized => {
                match self.find_by_handle(handle) {
                    Some(i) => {
                        let wid = self.windows[i].id;
                        let txid = self.windows[i].last_seen_txid;
                        match platform.frame(handle) {
                            Ok(frame) => {
                                events.push(
                                    Event::WindowFrameChanged(wid, frame, txid, Requested(false)),
                                );
                            },
                            Err(_) => {},
                        }
                    },
                    None => {},
                }
            },
            Notification::WindowMiniaturized => {},
            Notification::WindowDeminiaturized => {},
            Notification::TitleChanged => {},
            Notification::Unknown => {},
        }
    }
}

/// What one enumeration pass accumulates while walking the OS window list:
/// the evolving registry and platform, the newly registered windows, and the
/// already-tracked ones seen again.
pub struct EnumAcc {
    pub st: StateV,
    pub pl: PlatformV,
    pub new: Seq<(WindowId, WindowInfo)>,
    pub known: Seq<WindowId>,
}

/// The enumeration pass over the first `k` handles of the window list `hs`:
/// an already-tracked handle lands in `known`; an untracked one is
/// registered, landing in `new` when the registration succeeds and being
/// skipped otherwise.
pub open spec fn enum_fold(st0: StateV, pl0: PlatformV, hs: Seq<u64>, k: int) -> EnumAcc
    decreases k,
{
    if k <= 0 {
        EnumAcc {
            st: st0,
            pl: pl0,
            new: Seq::<(WindowId, WindowInfo)>::empty(),
            known: Seq::<WindowId>::empty(),
        }
    } else {
        let acc = enum_fold(st0, pl0, hs, k - 1);
        let h = hs[k - 1];
        if acc.st.has_handle(h) {
            EnumAcc {
                st: acc.st,
                pl: acc.pl,
                new: acc.new,
                known: acc.known.push(acc.st.id_of_handle(h)),
            }
        } else {
            match reg_result(acc.st, acc.pl, h) {
                Some(wid) => EnumAcc {
                    st: reg_state(acc.st, acc.pl, h),
                    pl: reg_platform(acc.st, acc.pl, h),
                    new: acc.new.push((wid, (WindowInfo { frame: acc.pl.win(h).frame }))),
                    known: acc.known,
                },
                None => EnumAcc {
                    st: reg_state(acc.st, acc.pl, h),
                    pl: reg_platform(acc.st, acc.pl, h),
                    new: acc.new,
                    known: acc.known,
                },
            }
        }
    }
}

/// Whether two platform windows are the same apart from the actor-held
/// subscription flags.
pub open spec fn shape_eq(a: PlatformWindow, b: PlatformWindow) -> bool {
    &&& a.handle == b.handle
    &&& a.is_standard == b.is_standard
    &&& a.frame == b.frame
    &&& a.server_id == b.server_id
    &&& a.subscribable == b.subscribable
}

/// Structural facts about an enumeration pass: the invariants survive, the
/// actor's process and the platform's windows (up to subscription flags) are
/// untouched, previously tracked windows keep their entries, and every newly
/// tracked window is fresh and came from the processed part of the list.
pub proof fn lemma_enum_fold_facts(st0: StateV, pl0: PlatformV, hs: Seq<u64>, k: int)
    requires
        st0.wf(),
        pl0.wf(),
        0 <= k <= hs.len(),
    ensures
        ({
            let acc = enum_fold(st0, pl0, hs, k);
            &&& acc.st.wf()
            &&& acc.pl.wf()
            &&& acc.st.pid == st0.pid
            &&& st0.wins.len() <= acc.st.wins.len()
            &&& (forall|i: int| 0 <= i < st0.wins.len() ==> #[trigger] acc.st.wins[i] == st0.wins[i])
            &&& acc.pl.wins.len() == pl0.wins.len()
            &&& (forall|i: int|
                0 <= i < pl0.wins.len() ==> shape_eq(#[trigger] acc.pl.wins[i], pl0.wins[i]))
            &&& acc.pl.list_fails == pl0.list_fails
            &&& acc.pl.app_subscribable == pl0.app_subscribable
            &&& acc.pl.main_window == pl0.main_window
            &&& acc.pl.frontmost == pl0.frontmost
            &&& (forall|h: u64|
                #[trigger] st0.has_handle(h) ==> acc.st.has_handle(h) && acc.st.by_handle(h)
                    == st0.by_handle(h))
            &&& (forall|x: WindowId| #[trigger] st0.has_id(x) ==> acc.st.has_id(x))
            &&& (forall|j: int|
                st0.wins.len() <= j < acc.st.wins.len() ==> !st0.has_id(
                    (#[trigger] acc.st.wins[j]).id,
                ) && !st0.has_handle(acc.st.wins[j].handle) && exists|m: int|
                    0 <= m < k && hs[m] == acc.st.wins[j].handle)
        }),
    decreases k,
{
    if k <= 0 {
    } else {
        lemma_enum_fold_facts(st0, pl0, hs, k - 1);
        let acc = enum_fold(st0, pl0, hs, k - 1);
        let acc2 = enum_fold(st0, pl0, hs, k);
        let h = hs[k - 1];
        if acc.st.has_handle(h) {
            assert(acc2.st == acc.st && acc2.pl == acc.pl);
        } else {
            lemma_reg_state_wf(acc.st, acc.pl, h);
            if reg_subscribes(acc.st, acc.pl, h) {
                lemma_widx(acc.pl, h);
                lemma_with_win(
                    acc.pl,
                    h,
                    PlatformWindow {
                        subscribed: true,
                        frame_events_subscribed: true,
                        ..acc.pl.win(h)
                    },
                );
                assert forall|i: int| 0 <= i < pl0.wins.len()
                    implies shape_eq(#[trigger] acc2.pl.wins[i], pl0.wins[i]) by {
                    if i == acc.pl.widx(h) {
                        assert(acc2.pl.wins[i] == PlatformWindow {
                            subscribed: true,
                            frame_events_subscribed: true,
                            ..acc.pl.win(h)
                        });
                        assert(shape_eq(acc.pl.wins[i], pl0.wins[i]));
                    } else {
                        assert(acc2.pl.wins[i] == acc.pl.wins[i]);
                    }
                }
            } else {
                assert(acc2.pl == acc.pl);
            }
            match reg_result(acc.st, acc.pl, h) {
                Some(wid) => {
                    let entry = TrackedWindow { id: wid, handle: h, last_seen_txid: TransactionId(0) };
                    assert(acc2.st.wins == acc.st.wins.push(entry));
                    assert forall|hh: u64| #[trigger] st0.has_handle(hh)
                        implies acc2.st.has_handle(hh) && acc2.st.by_handle(hh) == st0.by_handle(
                        hh,
                    ) by {
                        assert(acc.st.has_handle(hh) && acc.st.by_handle(hh) == st0.by_handle(hh));
                        lemma_hidx(acc.st, hh);
                        let i = acc.st.hidx(hh);
                        assert(acc2.st.wins[i].handle == hh);
                        assert(acc2.st.has_handle(hh));
                        lemma_hidx(acc2.st, hh);
                        assert(acc2.st.hidx(hh) == i);
                    }
                    assert forall|x: WindowId| #[trigger] st0.has_id(x)
                        implies acc2.st.has_id(x) by {
                        assert(acc.st.has_id(x));
                        lemma_iidx(acc.st, x);
                        let i = acc.st.iidx(x);
                        assert(acc2.st.wins[i].id == x);
                    }
                    assert forall|j: int| st0.wins.len() <= j < acc2.st.wins.len()
                        implies !st0.has_id((#[trigger] acc2.st.wins[j]).id) && !st0.has_handle(
                        acc2.st.wins[j].handle,
                    ) && exists|m: int| 0 <= m < k && hs[m] == acc2.st.wins[j].handle by {
                        if j < acc.st.wins.len() {
                            assert(acc2.st.wins[j] == acc.st.wins[j]);
                            assert(exists|m: int|
                                0 <= m < k - 1 && hs[m] == acc.st.wins[j].handle);
                            let m = choose|m: int| 0 <= m < k - 1 && hs[m] == acc.st.wins[j].handle;
                            assert(0 <= m < k && hs[m] == acc2.st.wins[j].handle);
                        } else {
                            assert(acc2.st.wins[j] == entry);
                            if st0.has_id(wid) {
                                assert(acc.st.has_id(wid));
                            }
                            if st0.has_handle(h) {
                                assert(acc.st.has_handle(h));
                            }
                            assert(hs[k - 1] == entry.handle);
                        }
                    }
                },
                None => {
                    assert(acc2.st == acc.st);
                },
            }
        }
    }
}

/// Growing a registry by one entry keeps every existing lookup intact.
proof fn lemma_push_lookup(st: StateV, st2: StateV, entry: TrackedWindow)
    requires
        st.wf(),
        st2.wf(),
        st2.wins == st.wins.push(entry),
    ensures
        forall|h: u64|
            #[trigger] st.has_handle(h) ==> st2.has_handle(h) && st2.by_handle(h) == st.by_handle(
                h,
            ),
        forall|x: WindowId| #[trigger] st.has_id(x) ==> st2.has_id(x),
        st2.has_handle(entry.handle),
        !st.has_handle(entry.handle) ==> st2.by_handle(entry.handle) == entry,
{
    assert(st2.wins[st.wins.len() as int] == entry);
    assert(st2.has_handle(entry.handle));
    assert forall|h: u64| #[trigger] st.has_handle(h)
        implies st2.has_handle(h) && st2.by_handle(h) == st.by_handle(h) by {
        lemma_hidx(st, h);
        let i = st.hidx(h);
        assert(st2.wins[i].handle == h);
        assert(st2.has_handle(h));
        lemma_hidx(st2, h);
        assert(st2.hidx(h) == i);
    }
    assert forall|x: WindowId| #[trigger] st.has_id(x) implies st2.has_id(x) by {
        lemma_iidx(st, x);
        let i = st.iidx(x);
        assert(st2.wins[i].id == x);
    }
    if !st.has_handle(entry.handle) {
        lemma_hidx(st2, entry.handle);
        assert forall|i: int| 0 <= i < st.wins.len()
            implies st2.wins[i].handle != entry.handle by {
            if st2.wins[i].handle == entry.handle {
                assert(st.wins[i].handle == entry.handle);
                assert(st.has_handle(entry.handle));
            }
        }
        assert(st2.hidx(entry.handle) == st.wins.len() as int);
    }
}

/// Whether some newly discovered window carries the id `x`.
pub open spec fn new_ids_contain(s: Seq<(WindowId, WindowInfo)>, x: WindowId) -> bool {
    exists|j: int| 0 <= j < s.len() && s[j].0 == x
}

/// Law: one enumeration pass partitions the OS window list.  Every handle
/// that was already tracked at call time appears, through its id, in the
/// known-visible list and never among the new windows; every handle the pass
/// started tracking appears among the new windows; within each list no id
/// appears twice, and the two lists share no id.  The only omissions are
/// windows that could not be tracked at all (wrong role, refused
/// subscription, or an identifier collision).
pub proof fn lemma_discovery_partition(st0: StateV, pl0: PlatformV, hs: Seq<u64>, k: int)
    requires
        st0.wf(),
        pl0.wf(),
        0 <= k <= hs.len(),
        forall|m: int, n: int| 0 <= m < n < hs.len() ==> hs[m] != hs[n],
    ensures
        ({
            let acc = enum_fold(st0, pl0, hs, k);
            &&& (forall|m: int|
                0 <= m < k && st0.has_handle(#[trigger] hs[m]) ==> acc.known.contains(
                    st0.id_of_handle(hs[m]),
                ))
            &&& (forall|x: WindowId|
                #[trigger] acc.known.contains(x) ==> st0.has_id(x) && exists|m: int|
                    0 <= m < k && st0.has_handle(hs[m]) && x == st0.id_of_handle(hs[m]))
            &&& (forall|m: int, n: int|
                0 <= m < n < acc.known.len() ==> acc.known[m] != acc.known[n])
            &&& (forall|m: int|
                0 <= m < k && !st0.has_handle(#[trigger] hs[m]) && acc.st.has_handle(hs[m])
                    ==> new_ids_contain(acc.new, acc.st.id_of_handle(hs[m])))
            &&& (forall|j: int|
                0 <= j < acc.new.len() ==> acc.st.has_id((#[trigger] acc.new[j]).0)
                    && !st0.has_id(acc.new[j].0))
            &&& (forall|j1: int, j2: int|
                0 <= j1 < j2 < acc.new.len() ==> acc.new[j1].0 != acc.new[j2].0)
            &&& (forall|x: WindowId|
                #[trigger] acc.known.contains(x) ==> !new_ids_contain(acc.new, x))
        }),
    decreases k,
{
    if k <= 0 {
    } else {
        lemma_discovery_partition(st0, pl0, hs, k - 1);
        lemma_enum_fold_facts(st0, pl0, hs, k - 1);
        lemma_enum_fold_facts(st0, pl0, hs, k);
        let acc = enum_fold(st0, pl0, hs, k - 1);
        let acc2 = enum_fold(st0, pl0, hs, k);
        let h = hs[k - 1];
        if acc.st.has_handle(h) {
            // Seen again: the handle must have been tracked before this pass,
            // since the pass itself only added handles from earlier list
            // positions, which are all distinct from this one.
            lemma_hidx(acc.st, h);
            let j = acc.st.hidx(h);
            if j >= st0.wins.len() {
                let m = choose|m: int| 0 <= m < k - 1 && hs[m] == acc.st.wins[j].handle;
                assert(hs[m] == hs[k - 1]);
                assert(false);
            }
            assert(acc.st.wins[j] == st0.wins[j]);
            assert(st0.has_handle(h));
            lemma_hidx(st0, h);
            assert(st0.hidx(h) == j) by {
                assert(st0.wins[j].handle == h);
            }
            let x0 = st0.id_of_handle(h);
            assert(acc2.known == acc.known.push(acc.st.id_of_handle(h)));
            assert(acc.st.id_of_handle(h) == x0);
            assert(st0.has_id(x0)) by {
                assert(st0.wins[j].id == x0);
            }
            // the pushed id is fresh in known: it names a different tracked
            // handle than every id already there
            assert forall|n: int| 0 <= n < acc.known.len() implies acc.known[n] != x0 by {
                assert(acc.known.contains(acc.known[n]));
                let m = choose|m: int|
                    0 <= m < k - 1 && st0.has_handle(hs[m]) && acc.known[n] == st0.id_of_handle(
                        hs[m],
                    );
                lemma_hidx(st0, hs[m]);
                let i1 = st0.hidx(hs[m]);
                if acc.known[n] == x0 {
                    assert(st0.wins[i1].id == st0.wins[j].id);
                    assert(hs[m] != h);
                    assert(st0.wins[i1].handle != st0.wins[j].handle);
                    assert(i1 != j);
                    assert(false);
                }
            }
            assert forall|m: int| 0 <= m < k && st0.has_handle(#[trigger] hs[m])
                implies acc2.known.contains(st0.id_of_handle(hs[m])) by {
                if m < k - 1 {
                    assert(acc.known.contains(st0.id_of_handle(hs[m])));
                    let n = choose|n: int|
                        0 <= n < acc.known.len() && acc.known[n] == st0.id_of_handle(hs[m]);
                    assert(acc2.known[n] == st0.id_of_handle(hs[m]));
                } else {
                    assert(acc2.known[acc.known.len() as int] == x0);
                }
            }
            assert forall|x: WindowId| #[trigger] acc2.known.contains(x)
                implies st0.has_id(x) && exists|m: int|
                0 <= m < k && st0.has_handle(hs[m]) && x == st0.id_of_handle(hs[m]) by {
                let n = choose|n: int| 0 <= n < acc2.known.len() && acc2.known[n] == x;
                if n < acc.known.len() {
                    assert(acc.known.contains(x));
                    let m = choose|m: int|
                        0 <= m < k - 1 && st0.has_handle(hs[m]) && x == st0.id_of_handle(hs[m]);
                    assert(0 <= m < k && st0.has_handle(hs[m]) && x == st0.id_of_handle(hs[m]));
                } else {
                    assert(x == x0);
                    assert(st0.has_handle(hs[k - 1]) && x == st0.id_of_handle(hs[k - 1]));
                }
            }
        } else {
            match reg_result(acc.st, acc.pl, h) {
                Some(wid) => {
                    lemma_reg_state_wf(acc.st, acc.pl, h);
                    let entry = TrackedWindow {
                        id: wid,
                        handle: h,
                        last_seen_txid: TransactionId(0),
                    };
                    lemma_push_lookup(acc.st, acc2.st, entry);
                    assert(acc2.new == acc.new.push(
                        (wid, WindowInfo { frame: acc.pl.win(h).frame }),
                    ));
                    assert(acc2.st.by_handle(h) == entry);
                    assert(new_ids_contain(acc2.new, wid)) by {
                        assert(acc2.new[acc.new.len() as int].0 == wid);
                    }
                    assert forall|m: int|
                        0 <= m < k && !st0.has_handle(#[trigger] hs[m]) && acc2.st.has_handle(
                        hs[m],
                    ) implies new_ids_contain(acc2.new, acc2.st.id_of_handle(hs[m])) by {
                        if m < k - 1 {
                            if acc.st.has_handle(hs[m]) {
                                assert(new_ids_contain(acc.new, acc.st.id_of_handle(hs[m])));
                                assert(acc2.st.by_handle(hs[m]) == acc.st.by_handle(hs[m]));
                                let j = choose|j: int|
                                    0 <= j < acc.new.len() && acc.new[j].0 == acc.st.id_of_handle(
                                        hs[m],
                                    );
                                assert(acc2.new[j].0 == acc2.st.id_of_handle(hs[m]));
                            } else {
                                // not tracked after step k-1; the only handle
                                // step k adds is hs[k-1], distinct from hs[m]
                                lemma_hidx(acc2.st, hs[m]);
                                let j = acc2.st.hidx(hs[m]);
                                if j < acc.st.wins.len() {
                                    assert(acc.st.has_handle(hs[m]));
                                } else {
                                    assert(acc2.st.wins[j] == entry);
                                    assert(hs[m] == hs[k - 1]);
                                }
                                assert(false);
                            }
                        } else {
                            assert(acc2.st.id_of_handle(h) == wid);
                        }
                    }
                    assert forall|j: int| 0 <= j < acc2.new.len()
                        implies acc2.st.has_id((#[trigger] acc2.new[j]).0) && !st0.has_id(
                        acc2.new[j].0,
                    ) by {
                        if j < acc.new.len() {
                            assert(acc2.new[j] == acc.new[j]);
                            assert(acc.st.has_id(acc.new[j].0));
                        } else {
                            assert(acc2.new[j].0 == wid);
                            assert(acc2.st.wins[acc.st.wins.len() as int].id == wid);
                            assert(acc2.st.has_id(wid));
                            if st0.has_id(wid) {
                                assert(acc.st.has_id(wid));
                            }
                        }
                    }
                    assert forall|j1: int, j2: int| 0 <= j1 < j2 < acc2.new.len()
                        implies acc2.new[j1].0 != acc2.new[j2].0 by {
                        if j2 < acc.new.len() {
                        } else {
                            assert(acc2.new[j2].0 == wid);
                            assert(acc2.new[j1] == acc.new[j1]);
                            assert(acc.st.has_id(acc.new[j1].0));
                            assert(!acc.st.has_id(wid));
                        }
                    }
                    assert forall|x: WindowId| #[trigger] acc2.known.contains(x)
                        implies !new_ids_contain(acc2.new, x) by {
                        assert(acc2.known == acc.known);
                        assert(st0.has_id(x));
                        if new_ids_contain(acc2.new, x) {
                            let j = choose|j: int|
                                0 <= j < acc2.new.len() && acc2.new[j].0 == x;
                            assert(!st0.has_id(acc2.new[j].0));
                        }
                    }
                },
                None => {
                    assert(acc2.st == acc.st && acc2.new == acc.new && acc2.known == acc.known);
                    assert forall|m: int| 0 <= m < k && st0.has_handle(#[trigger] hs[m])
                        implies acc2.known.contains(st0.id_of_handle(hs[m])) by {
                        if m == k - 1 {
                            assert(acc.st.has_handle(hs[m])) by {
                                lemma_hidx(st0, hs[m]);
                            }
                            assert(false);
                        }
                    }
                },
            }
        }
    }
}

/// What actor initialization does.  The application-level subscriptions are
/// registered, the window list is read and every window on it is registered,
/// and the launch event goes out followed by the discovery event; nothing at
/// all happens — no event, no state change — when any required step fails,
/// and the worker then never enters its message loop.
pub open spec fn init_post(
    pre: StateV,
    post: StateV,
    prep: PlatformV,
    postp: PlatformV,
    info: AppInfo,
    ev0: Seq<Event>,
    ev1: Seq<Event>,
    ok: bool,
) -> bool {
    if !prep.app_subscribable || prep.list_fails {
        post == pre && postp == prep && ev1 == ev0 && !ok
    } else {
        let out = enum_fold(pre, prep, prep.handles(), prep.handles().len() as int);
        &&& ok
        &&& post == out.st
        &&& postp == out.pl
        &&& ev1.len() == ev0.len() + 2
        &&& ev1.take(ev0.len() as int) == ev0
        &&& ev1[ev0.len() as int] == Event::ApplicationLaunched(
            pre.pid,
            (AppState {
                info,
                main_window: main_window_id(out.st, prep),
                is_frontmost: prep.frontmost,
            }),
        )
        &&& (ev1.last() matches Event::WindowsDiscovered { pid: epid, new: enew, known_visible: eknown }
            && epid == pre.pid && enew@ == out.new && eknown@.len() == 0)
    }
}

/// What servicing an enumerate-visible-windows request does.  When the OS
/// window list cannot be read (the application has likely exited) an event
/// with empty lists still goes out, so the coordinator clears whatever it
/// previously knew about this application.
pub open spec fn enumerate_post(
    pre: StateV,
    post: StateV,
    prep: PlatformV,
    postp: PlatformV,
    ev0: Seq<Event>,
    ev1: Seq<Event>,
    r: Result<(), Error>,
) -> bool {
    if prep.list_fails {
        &&& post == pre
        &&& postp == prep
        &&& r == Err::<(), Error>(Error::PlatformCallFailed)
        &&& ev1.len() == ev0.len() + 1
        &&& ev1.drop_last() == ev0
        &&& (ev1.last() matches Event::WindowsDiscovered { pid: epid, new: enew, known_visible: eknown }
            && epid == pre.pid && enew@.len() == 0 && eknown@.len() == 0)
    } else {
        let out = enum_fold(pre, prep, prep.handles(), prep.handles().len() as int);
        &&& post == out.st
        &&& postp == out.pl
        &&& r == Ok::<(), Error>(())
        &&& ev1.len() == ev0.len() + 1
        &&& ev1.drop_last() == ev0
        &&& (ev1.last() matches Event::WindowsDiscovered { pid: epid, new: enew, known_visible: eknown }
            && epid == pre.pid && enew@ == out.new && eknown@ == out.known)
    }
}

/// What servicing a set-window-position request does: the transaction id is
/// recorded on the window before the platform is touched, the window moves,
/// and the resulting frame is read back and echoed with the transaction id,
/// marked as requested.
pub open spec fn set_pos_post(
    pre: StateV,
    post: StateV,
    prep: PlatformV,
    postp: PlatformV,
    wid: WindowId,
    pos: Point,
    txid: TransactionId,
    ev0: Seq<Event>,
    ev1: Seq<Event>,
    r: Result<(), Error>,
) -> bool {
    if !pre.has_id(wid) {
        post == pre && postp == prep && ev1 == ev0 && r == Err::<(), Error>(Error::NotFound)
    } else {
        let h = pre.entry(wid).handle;
        &&& post == pre.with_txid(wid, txid)
        &&& if prep.has(h) {
            let frame = Rect { origin: pos, size: prep.win(h).frame.size };
            &&& postp == prep.with_win(h, (PlatformWindow { frame, ..prep.win(h) }))
            &&& ev1 == ev0.push(Event::WindowFrameChanged(wid, frame, txid, Requested(true)))
            &&& r == Ok::<(), Error>(())
        } else {
            postp == prep && ev1 == ev0 && r == Err::<(), Error>(Error::PlatformCallFailed)
        }
    }
}

/// What servicing a set-window-frame request does; as set-window-position,
/// with both the origin and the size written.
pub open spec fn set_frame_post(
    pre: StateV,
    post: StateV,
    prep: PlatformV,
    postp: PlatformV,
    wid: WindowId,
    rect: Rect,
    txid: TransactionId,
    ev0: Seq<Event>,
    ev1: Seq<Event>,
    r: Result<(), Error>,
) -> bool {
    if !pre.has_id(wid) {
        post == pre && postp == prep && ev1 == ev0 && r == Err::<(), Error>(Error::NotFound)
    } else {
        let h = pre.entry(wid).handle;
        &&& post == pre.with_txid(wid, txid)
        &&& if prep.has(h) {
            &&& postp == prep.with_win(h, (PlatformWindow { frame: rect, ..prep.win(h) }))
            &&& ev1 == ev0.push(Event::WindowFrameChanged(wid, rect, txid, Requested(true)))
            &&& r == Ok::<(), Error>(())
        } else {
            postp == prep && ev1 == ev0 && r == Err::<(), Error>(Error::PlatformCallFailed)
        }
    }
}

/// What a begin-window-animation request does: moved/resized notifications
/// for that window stop; no event is emitted.  A failure to unsubscribe is
/// logged by the worker and otherwise ignored.
pub open spec fn begin_animation_post(
    pre: StateV,
    post: StateV,
    prep: PlatformV,
    postp: PlatformV,
    wid: WindowId,
    ev0: Seq<Event>,
    ev1: Seq<Event>,
    r: Result<(), Error>,
) -> bool {
    if !pre.has_id(wid) {
        post == pre && postp == prep && ev1 == ev0 && r == Err::<(), Error>(Error::NotFound)
    } else {
        let h = pre.entry(wid).handle;
        &&& post == pre
        &&& ev1 == ev0
        &&& r == Ok::<(), Error>(())
        &&& postp == if prep.has(h) {
            prep.with_win(h, (PlatformWindow { frame_events_subscribed: false, ..prep.win(h) }))
        } else {
            prep
        }
    }
}

/// What an end-window-animation request does: moved/resized notifications
/// resume, and exactly one frame-changed event goes out immediately with the
/// window's last recorded transaction id, marked as requested — the
/// coordinator is guaranteed one authoritative post-animation frame even
/// though the intermediate ones were suppressed.
pub open spec fn end_animation_post(
    pre: StateV,
    post: StateV,
    prep: PlatformV,
    postp: PlatformV,
    wid: WindowId,
    ev0: Seq<Event>,
    ev1: Seq<Event>,
    r: Result<(), Error>,
) -> bool {
    if !pre.has_id(wid) {
        post == pre && postp == prep && ev1 == ev0 && r == Err::<(), Error>(Error::NotFound)
    } else {
        let h = pre.entry(wid).handle;
        &&& post == pre
        &&& if prep.has(h) {
            &&& postp == prep.with_win(
                h,
                (PlatformWindow { frame_events_subscribed: true, ..prep.win(h) }),
            )
            &&& ev1 == ev0.push(
                Event::WindowFrameChanged(
                    wid,
                    prep.win(h).frame,
                    pre.entry(wid).last_seen_txid,
                    Requested(true),
                ),
            )
            &&& r == Ok::<(), Error>(())
        } else {
            postp == prep && ev1 == ev0 && r == Err::<(), Error>(Error::PlatformCallFailed)
        }
    }
}

/// What a raise request does: the window is raised within its application,
/// and the application is activated only if the shared token still names
/// this actor's process — a superseded raise is silently skipped, not an
/// error.
pub open spec fn raise_post(
    pre: StateV,
    post: StateV,
    prep: PlatformV,
    postp: PlatformV,
    token: RaiseToken,
    wid: WindowId,
    ev0: Seq<Event>,
    ev1: Seq<Event>,
    r: Result<(), Error>,
) -> bool {
    if !pre.has_id(wid) {
        post == pre && postp == prep && ev1 == ev0 && r == Err::<(), Error>(Error::NotFound)
    } else {
        let h = pre.entry(wid).handle;
        &&& post == pre
        &&& ev1 == ev0
        &&& if prep.has(h) {
            &&& r == Ok::<(), Error>(())
            &&& postp == if raise_runs(token, pre.pid) {
                prep.with_main(Some(h)).activated()
            } else {
                prep.with_main(Some(h))
            }
        } else {
            postp == prep && r == Err::<(), Error>(Error::PlatformCallFailed)
        }
    }
}

/// Updating the same window twice collapses into one update.
proof fn lemma_with_win_twice(pl: PlatformV, h: u64, w1: PlatformWindow, w2: PlatformWindow)
    requires
        pl.wf(),
        pl.has(h),
        w1.handle == h,
        w2.handle == h,
    ensures
        pl.with_win(h, w1).with_win(h, w2) == pl.with_win(h, w2),
{
    lemma_widx(pl, h);
    lemma_with_win(pl, h, w1);
    let p1 = pl.with_win(h, w1);
    lemma_with_win(p1, h, w2);
    assert(p1.with_win(h, w2).wins =~= pl.with_win(h, w2).wins);
}

impl State {
    /// Walks a snapshot of the OS window list: already-tracked handles are
    /// collected as known-visible, untracked ones are registered and
    /// collected as newly discovered; a window that cannot be tracked is
    /// skipped and enumeration continues.
    fn discover(&mut self, platform: &mut Platform, handles: &Vec<u64>) -> (r: (
        Vec<(WindowId, WindowInfo)>,
        Vec<WindowId>,
    ))
        requires
            old(self)@.wf(),
            old(platform)@.wf(),
        ensures
            final(self)@.wf(),
            final(platform)@.wf(),
            ({
                let out = enum_fold(old(self)@, old(platform)@, handles@, handles@.len() as int);
                &&& final(self)@ == out.st
                &&& final(platform)@ == out.pl
                &&& r.0@ == out.new
                &&& r.1@ == out.known
            }),
    {
        let ghost st0 = old(self)@;
        let ghost pl0 = old(platform)@;
        let mut new: Vec<(WindowId, WindowInfo)> = Vec::new();
        let mut known: Vec<WindowId> = Vec::new();
        let mut i: usize = 0;
        proof {
            assert(new@ =~= enum_fold(st0, pl0, handles@, 0).new);
            assert(known@ =~= enum_fold(st0, pl0, handles@, 0).known);
        }
        while i < handles.len()
            invariant
                i <= handles.len(),
                self@.wf(),
                platform@.wf(),
                self@ == enum_fold(st0, pl0, handles@, i as int).st,
                platform@ == enum_fold(st0, pl0, handles@, i as int).pl,
                new@ == enum_fold(st0, pl0, handles@, i as int).new,
                known@ == enum_fold(st0, pl0, handles@, i as int).known,
            decreases handles.len() - i,
        {
            let ghost acc = enum_fold(st0, pl0, handles@, i as int);
            let h = handles[i];
            match self.find_by_handle(h) {
                Some(j) => {
                    known.push(self.windows[j].id);
                    proof {
                        assert(self@.wins[j as int].id == acc.st.id_of_handle(h));
                        assert(enum_fold(st0, pl0, handles@, i + 1) == EnumAcc {
                            st: acc.st,
                            pl: acc.pl,
                            new: acc.new,
                            known: acc.known.push(acc.st.id_of_handle(h)),
                        });
                    }
                },
                None => {
                    match platform.frame(h) {
                        Ok(frame) => {
                            match self.register_window(platform, h) {
                                Some(wid) => {
                                    new.push((wid, WindowInfo { frame }));
                                },
                                None => {},
                            }
                            proof {
                                lemma_widx(acc.pl, h);
                            }
                        },
                        Err(_) => {
                            proof {
                                assert(!acc.pl.has(h));
                                assert(reg_result(acc.st, acc.pl, h) is None);
                                assert(reg_state(acc.st, acc.pl, h) == acc.st);
                                assert(reg_platform(acc.st, acc.pl, h) == acc.pl);
                            }
                        },
                    }
                },
            }
            i = i + 1;
        }
        (new, known)
    }
}

impl State {
    /// Brings a freshly created actor from starting to running: registers
    /// the application-level notifications, reads and registers the initial
    /// window list, and emits the launch and discovery events.  Returns
    /// whether initialization succeeded; on failure nothing was emitted and
    /// the caller abandons the actor without running its message loop.
    pub fn init(
        &mut self,
        platform: &mut Platform,
        info: AppInfo,
        events: &mut Vec<Event>,
    ) -> (r: bool)
        requires
            old(self)@.wf(),
            old(platform)@.wf(),
            old(self)@.wins.len() == 0,
        ensures
            final(self)@.wf(),
            final(platform)@.wf(),
            init_post(
                old(self)@,
                final(self)@,
                old(platform)@,
                final(platform)@,
                info,
                old(events)@,
                final(events)@,
                r,
            ),
    {
        if platform.subscribe_app_notifications().is_err() {
            return false;
        }
        let handles = match platform.list_windows() {
            Ok(v) => v,
            Err(_) => {
                return false;
            },
        };
        let (new, _known) = self.discover(platform, &handles);
        proof {
            lemma_enum_fold_facts(old(self)@, old(platform)@, handles@, handles@.len() as int);
        }
        let main = match platform.main_window() {
            Some(h) => match self.id(h) {
                Ok(wid) => Some(wid),
                Err(_) => None,
            },
            None => None,
        };
        let is_frontmost = platform.is_frontmost();
        events.push(
            Event::ApplicationLaunched(
                self.pid,
                AppState { info, main_window: main, is_frontmost },
            ),
        );
        events.push(
            Event::WindowsDiscovered { pid: self.pid, new, known_visible: Vec::new() },
        );
        proof {
            assert(events@.take(old(events)@.len() as int) =~= old(events)@);
        }
        true
    }

    /// Services one coordinator request.  Requests are serviced in the order
    /// they were sent; an error is returned to the worker's logging path and
    /// never retried — the coordinator's next request is the only retry.
    pub fn handle_request(
        &mut self,
        platform: &mut Platform,
        token: &RaiseToken,
        request: Request,
        events: &mut Vec<Event>,
    ) -> (r: Result<(), Error>)
        requires
            old(self)@.wf(),
            old(platform)@.wf(),
        ensures
            final(self)@.wf(),
            final(platform)@.wf(),
            match request {
                Request::GetVisibleWindows => enumerate_post(
                    old(self)@,
                    final(self)@,
                    old(platform)@,
                    final(platform)@,
                    old(events)@,
                    final(events)@,
                    r,
                ),
                Request::SetWindowFrame(wid, rect, txid) => set_frame_post(
                    old(self)@,
                    final(self)@,
                    old(platform)@,
                    final(platform)@,
                    wid,
                    rect,
                    txid,
                    old(events)@,
                    final(events)@,
                    r,
                ),
                Request::SetWindowPos(wid, pos, txid) => set_pos_post(
                    old(self)@,
                    final(self)@,
                    old(platform)@,
                    final(platform)@,
                    wid,
                    pos,
                    txid,
                    old(events)@,
                    final(events)@,
                    r,
                ),
                Request::BeginWindowAnimation(wid) => begin_animation_post(
                    old(self)@,
                    final(self)@,
                    old(platform)@,
                    final(platform)@,
                    wid,
                    old(events)@,
                    final(events)@,
                    r,
                ),
                Request::EndWindowAnimation(wid) => end_animation_post(
                    old(self)@,
                    final(self)@,
                    old(platform)@,
                    final(platform)@,
                    wid,
                    old(events)@,
                    final(events)@,
                    r,
                ),
                Request::Raise(wid) => raise_post(
                    old(self)@,
                    final(self)@,
                    old(platform)@,
                    final(platform)@,
                    *token,
                    wid,
                    old(events)@,
                    final(events)@,
                    r,
                ),
            },
    {
        match request {
            Request::GetVisibleWindows => {
                let handles = match platform.list_windows() {
                    Ok(v) => v,
                    Err(_) => {
                        // The application has likely exited: clear whatever
                        // the coordinator previously knew about it.
                        events.push(
                            Event::WindowsDiscovered {
                                pid: self.pid,
                                new: Vec::new(),
                                known_visible: Vec::new(),
                            },
                        );
                        proof {
                            assert(events@.drop_last() =~= old(events)@);
                        }
                        return Err(Error::PlatformCallFailed);
                    },
                };
                let (new, known) = self.discover(platform, &handles);
                proof {
                    lemma_enum_fold_facts(
                        old(self)@,
                        old(platform)@,
                        handles@,
                        handles@.len() as int,
                    );
                }
                events.push(
                    Event::WindowsDiscovered { pid: self.pid, new, known_visible: known },
                );
                proof {
                    assert(events@.drop_last() =~= old(events)@);
                }
                Ok(())
            },
            Request::SetWindowPos(wid, pos, txid) => {
                let i = match self.find_by_id(wid) {
                    Some(i) => i,
                    None => {
                        return Err(Error::NotFound);
                    },
                };
                let e = self.windows[i];
                self.windows[i] = TrackedWindow { last_seen_txid: txid, ..e };
                if platform.set_position(e.handle, pos).is_err() {
                    return Err(Error::PlatformCallFailed);
                }
                proof {
                    lemma_widx(old(platform)@, e.handle);
                    lemma_with_win(
                        old(platform)@,
                        e.handle,
                        PlatformWindow {
                            frame: Rect {
                                origin: pos,
                                size: old(platform)@.win(e.handle).frame.size,
                            },
                            ..old(platform)@.win(e.handle)
                        },
                    );
                }
                let frame = match platform.frame(e.handle) {
                    Ok(f) => f,
                    Err(_) => {
                        // the writes just succeeded, so the read-back cannot
                        proof {
                            assert(false);
                        }
                        return Err(Error::PlatformCallFailed);
                    },
                };
                events.push(Event::WindowFrameChanged(wid, frame, txid, Requested(true)));
                Ok(())
            },
            Request::SetWindowFrame(wid, rect, txid) => {
                let i = match self.find_by_id(wid) {
                    Some(i) => i,
                    None => {
                        return Err(Error::NotFound);
                    },
                };
                let e = self.windows[i];
                self.windows[i] = TrackedWindow { last_seen_txid: txid, ..e };
                if platform.set_position(e.handle, rect.origin).is_err() {
                    return Err(Error::PlatformCallFailed);
                }
                let ghost wa = PlatformWindow {
                    frame: Rect { origin: rect.origin, size: old(platform)@.win(e.handle).frame.size },
                    ..old(platform)@.win(e.handle)
                };
                proof {
                    lemma_widx(old(platform)@, e.handle);
                    lemma_with_win(old(platform)@, e.handle, wa);
                }
                if platform.set_size(e.handle, rect.size).is_err() {
                    // the position write just succeeded, so the window is
                    // still present and the size write cannot fail
                    proof {
                        assert(false);
                    }
                    return Err(Error::PlatformCallFailed);
                }
                proof {
                    let wb = PlatformWindow { frame: rect, ..old(platform)@.win(e.handle) };
                    assert(old(platform)@.with_win(e.handle, wa).win(e.handle) == wa);
                    lemma_with_win(old(platform)@.with_win(e.handle, wa), e.handle, wb);
                    lemma_with_win_twice(old(platform)@, e.handle, wa, wb);
                    lemma_with_win(old(platform)@, e.handle, wb);
                }
                let frame = match platform.frame(e.handle) {
                    Ok(f) => f,
                    Err(_) => {
                        // the writes just succeeded, so the read-back cannot
                        proof {
                            assert(false);
                        }
                        return Err(Error::PlatformCallFailed);
                    },
                };
                events.push(Event::WindowFrameChanged(wid, frame, txid, Requested(true)));
                Ok(())
            },
            Request::BeginWindowAnimation(wid) => {
                let i = match self.find_by_id(wid) {
                    Some(i) => i,
                    None => {
                        return Err(Error::NotFound);
                    },
                };
                let h = self.windows[i].handle;
                proof {
                    if old(platform)@.has(h) {
                        lemma_widx(old(platform)@, h);
                    }
                }
                // A failure to unsubscribe leaves nothing to do but log and
                // keep going; the worker owns the logging.
                let _ = platform.suspend_frame_events(h);
                Ok(())
            },
            Request::EndWindowAnimation(wid) => {
                let i = match self.find_by_id(wid) {
                    Some(i) => i,
                    None => {
                        return Err(Error::NotFound);
                    },
                };
                let h = self.windows[i].handle;
                let txid = self.windows[i].last_seen_txid;
                proof {
                    if old(platform)@.has(h) {
                        lemma_widx(old(platform)@, h);
                        lemma_with_win(
                            old(platform)@,
                            h,
                            PlatformWindow {
                                frame_events_subscribed: true,
                                ..old(platform)@.win(h)
                            },
                        );
                    }
                }
                let _ = platform.resume_frame_events(h);
                let frame = match platform.frame(h) {
                    Ok(f) => f,
                    Err(_) => {
                        return Err(Error::PlatformCallFailed);
                    },
                };
                events.push(Event::WindowFrameChanged(wid, frame, txid, Requested(true)));
                Ok(())
            },
            Request::Raise(wid) => {
                let i = match self.find_by_id(wid) {
                    Some(i) => i,
                    None => {
                        return Err(Error::NotFound);
                    },
                };
                let h = self.windows[i].handle;
                if platform.raise(h).is_err() {
                    return Err(Error::PlatformCallFailed);
                }
                // The raise may be serviced out of order with respect to
                // raises sent to other applications; the token decides
                // whether this one is still the most recent.
                let fresh = token.with(self.pid, || ());
                if fresh.is_some() {
                    platform.activate();
                }
                Ok(())
            },
        }
    }
}

/// A handle that is already tracked is never registered a second time while
/// it remains tracked: the attempt is rejected and changes nothing.
pub proof fn lemma_duplicate_register_rejected(st: StateV, pl: PlatformV, h: u64)
    requires
        st.has_handle(h),
    ensures
        reg_result(st, pl, h) is None,
        reg_state(st, pl, h) == st,
        reg_platform(st, pl, h) == pl,
{
}

} // verus!
