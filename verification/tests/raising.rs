use app_actor::actor::State;
use app_actor::errors::Error;
use app_actor::events::Request;
use app_actor::geometry::{Point, Rect, Size};
use app_actor::ids::WindowId;
use app_actor::platform::{Platform, PlatformWindow};
use app_actor::raise_token::RaiseToken;

fn rect(x: i64, y: i64, w: i64, h: i64) -> Rect {
    Rect { origin: Point { x, y }, size: Size { width: w, height: h } }
}

fn one_window_platform() -> Platform {
    Platform {
        windows: vec![PlatformWindow {
            handle: 0x11,
            is_standard: true,
            frame: rect(0, 0, 800, 600),
            server_id: 101,
            subscribable: true,
            subscribed: false,
            frame_events_subscribed: false,
        }],
        list_fails: false,
        app_subscribable: true,
        main_window: None,
        frontmost: false,
    }
}

fn discovered(state: &mut State, platform: &mut Platform) {
    let token = RaiseToken::default();
    let mut events = Vec::new();
    state
        .handle_request(platform, &token, Request::GetVisibleWindows, &mut events)
        .unwrap();
}

#[test]
fn current_raise_activates_the_application() {
    let mut state = State::new(7, None);
    let mut platform = one_window_platform();
    discovered(&mut state, &mut platform);
    let wid = WindowId { pid: 7, idx: 101 };

    let mut token = RaiseToken::default();
    token.set_pid(7);
    let mut events = Vec::new();
    let r = state.handle_request(&mut platform, &token, Request::Raise(wid), &mut events);
    assert!(r.is_ok());
    assert_eq!(platform.main_window, Some(0x11));
    assert!(platform.frontmost);
    assert_eq!(events.len(), 0);
}

#[test]
fn superseded_raise_skips_activation() {
    // A raise for this application (pid 7) is in flight, but before the
    // actor services it the coordinator records a raise for pid 9.
    let mut state = State::new(7, None);
    let mut platform = one_window_platform();
    discovered(&mut state, &mut platform);
    let wid = WindowId { pid: 7, idx: 101 };

    let mut token = RaiseToken::default();
    token.set_pid(7);
    token.set_pid(9);
    let mut events = Vec::new();
    let r = state.handle_request(&mut platform, &token, Request::Raise(wid), &mut events);
    assert!(r.is_ok());
    // the window was still raised within its application, but the
    // activation effect did not run
    assert_eq!(platform.main_window, Some(0x11));
    assert!(!platform.frontmost);
}

#[test]
fn raise_of_unknown_window_fails_not_found() {
    let mut state = State::new(7, None);
    let mut platform = one_window_platform();
    let token = RaiseToken::default();
    let mut events = Vec::new();
    let r = state.handle_request(
        &mut platform,
        &token,
        Request::Raise(WindowId { pid: 7, idx: 101 }),
        &mut events,
    );
    assert_eq!(r, Err(Error::NotFound));
    assert!(!platform.frontmost);
}

#[test]
fn raise_of_vanished_window_reports_platform_failure() {
    let mut state = State::new(7, None);
    let mut platform = one_window_platform();
    discovered(&mut state, &mut platform);
    platform.windows.clear();
    let mut token = RaiseToken::default();
    token.set_pid(7);
    let mut events = Vec::new();
    let r = state.handle_request(
        &mut platform,
        &token,
        Request::Raise(WindowId { pid: 7, idx: 101 }),
        &mut events,
    );
    assert_eq!(r, Err(Error::PlatformCallFailed));
    assert!(!platform.frontmost);
}

#[test]
fn out_of_order_raises_resolve_to_the_last_request() {
    // Two independent actors share the token.  The coordinator asks to
    // raise application 7, then application 9; actor 9 happens to service
    // its request before actor 7 gets to its own.
    let mut state_a = State::new(7, None);
    let mut platform_a = one_window_platform();
    discovered(&mut state_a, &mut platform_a);
    let wid_a = WindowId { pid: 7, idx: 101 };

    let mut state_b = State::new(9, None);
    let mut platform_b = Platform {
        windows: vec![PlatformWindow {
            handle: 0x21,
            is_standard: true,
            frame: rect(0, 0, 100, 100),
            server_id: 201,
            subscribable: true,
            subscribed: false,
            frame_events_subscribed: false,
        }],
        list_fails: false,
        app_subscribable: true,
        main_window: None,
        frontmost: false,
    };
    discovered(&mut state_b, &mut platform_b);
    let wid_b = WindowId { pid: 9, idx: 201 };

    let mut token = RaiseToken::default();
    token.set_pid(7);
    token.set_pid(9);

    let mut events = Vec::new();
    state_b
        .handle_request(&mut platform_b, &token, Request::Raise(wid_b), &mut events)
        .unwrap();
    state_a
        .handle_request(&mut platform_a, &token, Request::Raise(wid_a), &mut events)
        .unwrap();

    // only the most recently requested application was activated
    assert!(platform_b.frontmost);
    assert!(!platform_a.frontmost);
}

#[test]
fn with_runs_the_effect_only_for_the_recorded_pid() {
    let mut token = RaiseToken::default();
    assert_eq!(token.with(0, || 5), Some(5));
    token.set_pid(3);
    assert_eq!(token.with(0, || 5), None);
    assert_eq!(token.with(3, || "yes"), Some("yes"));
    token.set_pid(4);
    assert_eq!(token.with(3, || "yes"), None);
}
