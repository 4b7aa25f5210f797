use app_actor::actor::State;
use app_actor::errors::Error;
use app_actor::events::{Event, Request};
use app_actor::geometry::{Point, Rect, Size};
use app_actor::ids::WindowId;
use app_actor::platform::{Platform, PlatformWindow};
use app_actor::raise_token::RaiseToken;

fn rect(x: i64, y: i64, w: i64, h: i64) -> Rect {
    Rect { origin: Point { x, y }, size: Size { width: w, height: h } }
}

fn win(handle: u64, server_id: u32, frame: Rect) -> PlatformWindow {
    PlatformWindow {
        handle,
        is_standard: true,
        frame,
        server_id,
        subscribable: true,
        subscribed: false,
        frame_events_subscribed: false,
    }
}

fn platform_with(windows: Vec<PlatformWindow>) -> Platform {
    Platform {
        windows,
        list_fails: false,
        app_subscribable: true,
        main_window: None,
        frontmost: false,
    }
}

#[test]
fn first_enumeration_reports_both_as_new() {
    let mut state = State::new(7, None);
    let mut platform = platform_with(vec![
        win(0x11, 101, rect(0, 0, 800, 600)),
        win(0x22, 102, rect(50, 50, 400, 300)),
    ]);
    let token = RaiseToken::default();
    let mut events = Vec::new();

    let r = state.handle_request(&mut platform, &token, Request::GetVisibleWindows, &mut events);
    assert!(r.is_ok());
    assert_eq!(events.len(), 1);
    match &events[0] {
        Event::WindowsDiscovered { pid, new, known_visible } => {
            assert_eq!(*pid, 7);
            assert_eq!(known_visible.len(), 0);
            assert_eq!(new.len(), 2);
            assert_eq!(new[0].0, WindowId { pid: 7, idx: 101 });
            assert_eq!(new[0].1.frame, rect(0, 0, 800, 600));
            assert_eq!(new[1].0, WindowId { pid: 7, idx: 102 });
            assert_eq!(new[1].1.frame, rect(50, 50, 400, 300));
        },
        other => panic!("unexpected event {:?}", other),
    }
}

#[test]
fn second_enumeration_reports_both_as_known() {
    let mut state = State::new(7, None);
    let mut platform = platform_with(vec![
        win(0x11, 101, rect(0, 0, 800, 600)),
        win(0x22, 102, rect(50, 50, 400, 300)),
    ]);
    let token = RaiseToken::default();
    let mut events = Vec::new();

    state
        .handle_request(&mut platform, &token, Request::GetVisibleWindows, &mut events)
        .unwrap();
    state
        .handle_request(&mut platform, &token, Request::GetVisibleWindows, &mut events)
        .unwrap();
    assert_eq!(events.len(), 2);
    match &events[1] {
        Event::WindowsDiscovered { pid, new, known_visible } => {
            assert_eq!(*pid, 7);
            assert_eq!(new.len(), 0);
            assert_eq!(
                known_visible.as_slice(),
                &[WindowId { pid: 7, idx: 101 }, WindowId { pid: 7, idx: 102 }],
            );
        },
        other => panic!("unexpected event {:?}", other),
    }
}

#[test]
fn failed_enumeration_reports_error_and_clears() {
    let mut state = State::new(7, None);
    let mut platform = platform_with(vec![win(0x11, 101, rect(0, 0, 10, 10))]);
    let token = RaiseToken::default();
    let mut events = Vec::new();
    state
        .handle_request(&mut platform, &token, Request::GetVisibleWindows, &mut events)
        .unwrap();

    platform.list_fails = true;
    let r = state.handle_request(&mut platform, &token, Request::GetVisibleWindows, &mut events);
    assert_eq!(r, Err(Error::PlatformCallFailed));
    assert_eq!(events.len(), 2);
    assert_eq!(
        events[1],
        Event::WindowsDiscovered { pid: 7, new: Vec::new(), known_visible: Vec::new() },
    );
}

#[test]
fn fallback_counter_numbers_windows_without_server_id() {
    let mut state = State::new(3, None);
    let mut platform = platform_with(vec![
        win(0xa, 0, rect(0, 0, 10, 10)),
        win(0xb, 0, rect(1, 1, 20, 20)),
    ]);
    let token = RaiseToken::default();
    let mut events = Vec::new();
    state
        .handle_request(&mut platform, &token, Request::GetVisibleWindows, &mut events)
        .unwrap();
    match &events[0] {
        Event::WindowsDiscovered { new, .. } => {
            assert_eq!(new[0].0, WindowId { pid: 3, idx: 1 });
            assert_eq!(new[1].0, WindowId { pid: 3, idx: 2 });
        },
        other => panic!("unexpected event {:?}", other),
    }
}

#[test]
fn untrackable_windows_are_skipped() {
    let mut state = State::new(7, None);
    let mut wrong_role = win(0x1, 11, rect(0, 0, 1, 1));
    wrong_role.is_standard = false;
    let mut refused = win(0x2, 12, rect(0, 0, 2, 2));
    refused.subscribable = false;
    let plain = win(0x3, 13, rect(0, 0, 3, 3));
    let mut platform = platform_with(vec![wrong_role, refused, plain]);
    let token = RaiseToken::default();
    let mut events = Vec::new();
    state
        .handle_request(&mut platform, &token, Request::GetVisibleWindows, &mut events)
        .unwrap();
    match &events[0] {
        Event::WindowsDiscovered { new, known_visible, .. } => {
            assert_eq!(known_visible.len(), 0);
            assert_eq!(new.len(), 1);
            assert_eq!(new[0].0, WindowId { pid: 7, idx: 13 });
        },
        other => panic!("unexpected event {:?}", other),
    }
}

#[test]
fn registered_windows_become_subscribed() {
    let mut state = State::new(7, None);
    let mut platform = platform_with(vec![win(0x11, 101, rect(0, 0, 8, 8))]);
    let token = RaiseToken::default();
    let mut events = Vec::new();
    state
        .handle_request(&mut platform, &token, Request::GetVisibleWindows, &mut events)
        .unwrap();
    assert!(platform.windows[0].subscribed);
    assert!(platform.windows[0].frame_events_subscribed);
}
