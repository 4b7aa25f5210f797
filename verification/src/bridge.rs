//! The notification bridge: the entry point through which OS notification
//! deliveries reach an actor.
//!
//! The OS only delivers a per-window notification while the matching
//! subscription is held.  Suspending the moved/resized pair for a window
//! under animation therefore keeps the intermediate frames out of the event
//! stream entirely; the bridge models that delivery gate.

use vstd::prelude::*;

use crate::actor::{begin_animation_post, end_animation_post, notification_post, State, StateV};
use crate::errors::Error;
use crate::events::{Event, Notification, Requested};
use crate::ids::WindowId;
use crate::platform::{lemma_widx, lemma_with_win, Platform, PlatformV, PlatformWindow};

verus! {

/// Whether a delivery is withheld: moved/resized notifications for a window
/// whose frame-event subscriptions are currently suspended.
pub open spec fn suppressed(pl: PlatformV, h: u64, n: Notification) -> bool {
    &&& (n == Notification::WindowMoved || n == Notification::WindowResized)
    &&& pl.has(h)
    &&& !pl.win(h).frame_events_subscribed
}

/// Delivers one OS notification to the actor, unless the matching
/// subscription for the window is suspended, in which case nothing happens.
pub fn deliver(
    state: &mut State,
    platform: &mut Platform,
    handle: u64,
    notif: Notification,
    events: &mut Vec<Event>,
)
    requires
        old(state)@.wf(),
        old(platform)@.wf(),
    ensures
        final(state)@.wf(),
        final(platform)@.wf(),
        suppressed(old(platform)@, handle, notif) ==> final(state)@ == old(state)@
            && final(platform)@ == old(platform)@ && final(events)@ == old(events)@,
        !suppressed(old(platform)@, handle, notif) ==> notification_post(
            old(state)@,
            final(state)@,
            old(platform)@,
            final(platform)@,
            handle,
            notif,
            old(events)@,
            final(events)@,
        ),
{
    let frame_kind = matches!(notif, Notification::WindowMoved | Notification::WindowResized);
    if frame_kind && platform.has_window(handle) && !platform.frame_events_subscribed(handle) {
        return ;
    }
    state.handle_notification(platform, handle, notif, events);
}

/// Law: a begin/end animation bracket emits exactly one frame-changed event,
/// the one sent on resumption, tagged as requested and carrying the window's
/// last recorded transaction id — however the window's frame kept changing
/// while the bracket was open, since every moved/resized delivery for the
/// window in between is withheld.
pub proof fn lemma_animation_bracket(
    s0: StateV,
    s1: StateV,
    s2: StateV,
    p0: PlatformV,
    p1: PlatformV,
    p1x: PlatformV,
    p2: PlatformV,
    wid: WindowId,
    h: u64,
    ev0: Seq<Event>,
    ev1: Seq<Event>,
    ev2: Seq<Event>,
    r1: Result<(), Error>,
    r2: Result<(), Error>,
    n: Notification,
)
    requires
        s0.wf(),
        p0.wf(),
        s0.has_id(wid),
        h == s0.entry(wid).handle,
        p0.has(h),
        begin_animation_post(s0, s1, p0, p1, wid, ev0, ev1, r1),
        // while the bracket is open the OS window may change freely; only
        // the subscription state is the actor's own, and stays as the
        // bracket's opening left it
        p1x.has(h),
        p1x.win(h).frame_events_subscribed == p1.win(h).frame_events_subscribed,
        n == Notification::WindowMoved || n == Notification::WindowResized,
        end_animation_post(s1, s2, p1x, p2, wid, ev1, ev2, r2),
    ensures
        ev1 == ev0,
        suppressed(p1x, h, n),
        r2 == Ok::<(), Error>(()),
        s2 == s0,
        ev2 == ev0.push(
            Event::WindowFrameChanged(
                wid,
                p1x.win(h).frame,
                s0.entry(wid).last_seen_txid,
                Requested(true),
            ),
        ),
{
    lemma_widx(p0, h);
    lemma_with_win(
        p0,
        h,
        PlatformWindow { frame_events_subscribed: false, ..p0.win(h) },
    );
    assert(p1.win(h).frame_events_subscribed == false);
}

} // verus!
