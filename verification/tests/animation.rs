use app_actor::actor::State;
use app_actor::bridge::deliver;
use app_actor::errors::Error;
use app_actor::events::{Event, Notification, Request, Requested};
use app_actor::geometry::{Point, Rect, Size};
use app_actor::ids::{TransactionId, WindowId};
use app_actor::platform::{Platform, PlatformWindow};
use app_actor::raise_token::RaiseToken;

fn rect(x: i64, y: i64, w: i64, h: i64) -> Rect {
    Rect { origin: Point { x, y }, size: Size { width: w, height: h } }
}

fn one_window_platform() -> Platform {
    Platform {
        windows: vec![PlatformWindow {
            handle: 0x11,
            is_standard: true,
            frame: rect(0, 0, 800, 600),
            server_id: 101,
            subscribable: true,
            subscribed: false,
            frame_events_subscribed: false,
        }],
        list_fails: false,
        app_subscribable: true,
        main_window: None,
        frontmost: false,
    }
}

#[test]
fn animation_bracket_emits_one_authoritative_frame() {
    let mut state = State::new(7, None);
    let mut platform = one_window_platform();
    let token = RaiseToken::default();
    let wid = WindowId { pid: 7, idx: 101 };

    let mut events = Vec::new();
    state
        .handle_request(&mut platform, &token, Request::GetVisibleWindows, &mut events)
        .unwrap();
    state
        .handle_request(
            &mut platform,
            &token,
            Request::SetWindowFrame(wid, rect(0, 0, 800, 600), TransactionId(5)),
            &mut events,
        )
        .unwrap();
    let emitted_before = events.len();

    // the client starts animating: intermediate frames must not flood the
    // coordinator
    let r = state.handle_request(
        &mut platform,
        &token,
        Request::BeginWindowAnimation(wid),
        &mut events,
    );
    assert!(r.is_ok());
    assert_eq!(events.len(), emitted_before);
    assert!(!platform.windows[0].frame_events_subscribed);

    // the OS keeps reporting movement while the animation runs
    platform.windows[0].frame = rect(100, 100, 800, 600);
    deliver(&mut state, &mut platform, 0x11, Notification::WindowMoved, &mut events);
    platform.windows[0].frame = rect(200, 200, 800, 600);
    deliver(&mut state, &mut platform, 0x11, Notification::WindowResized, &mut events);
    assert_eq!(events.len(), emitted_before);

    // resumption sends exactly one frame event, tagged as requested, with
    // the final frame and the last recorded transaction id
    let r = state.handle_request(
        &mut platform,
        &token,
        Request::EndWindowAnimation(wid),
        &mut events,
    );
    assert!(r.is_ok());
    assert_eq!(events.len(), emitted_before + 1);
    assert_eq!(
        events[emitted_before],
        Event::WindowFrameChanged(wid, rect(200, 200, 800, 600), TransactionId(5), Requested(true)),
    );
    assert!(platform.windows[0].frame_events_subscribed);

    // after the bracket, external moves flow again
    platform.windows[0].frame = rect(300, 300, 800, 600);
    deliver(&mut state, &mut platform, 0x11, Notification::WindowMoved, &mut events);
    assert_eq!(events.len(), emitted_before + 2);
    assert_eq!(
        events[emitted_before + 1],
        Event::WindowFrameChanged(
            wid,
            rect(300, 300, 800, 600),
            TransactionId(5),
            Requested(false),
        ),
    );
}

#[test]
fn animation_requests_on_unknown_window_fail_not_found() {
    let mut state = State::new(7, None);
    let mut platform = one_window_platform();
    let token = RaiseToken::default();
    let stale = WindowId { pid: 7, idx: 999 };

    let mut events = Vec::new();
    assert_eq!(
        state.handle_request(
            &mut platform,
            &token,
            Request::BeginWindowAnimation(stale),
            &mut events,
        ),
        Err(Error::NotFound),
    );
    assert_eq!(
        state.handle_request(
            &mut platform,
            &token,
            Request::EndWindowAnimation(stale),
            &mut events,
        ),
        Err(Error::NotFound),
    );
    assert_eq!(events.len(), 0);
}

#[test]
fn end_animation_on_vanished_window_reports_platform_failure() {
    let mut state = State::new(7, None);
    let mut platform = one_window_platform();
    let token = RaiseToken::default();
    let wid = WindowId { pid: 7, idx: 101 };

    let mut events = Vec::new();
    state
        .handle_request(&mut platform, &token, Request::GetVisibleWindows, &mut events)
        .unwrap();
    state
        .handle_request(&mut platform, &token, Request::BeginWindowAnimation(wid), &mut events)
        .unwrap();
    platform.windows.clear();
    let before = events.len();
    let r = state.handle_request(
        &mut platform,
        &token,
        Request::EndWindowAnimation(wid),
        &mut events,
    );
    assert_eq!(r, Err(Error::PlatformCallFailed));
    assert_eq!(events.len(), before);
}
