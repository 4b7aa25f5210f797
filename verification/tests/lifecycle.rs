use app_actor::actor::State;
use app_actor::errors::Error;
use app_actor::events::{AppInfo, AppState, Event};
use app_actor::geometry::{Point, Rect, Size};
use app_actor::ids::{TransactionId, WindowId};
use app_actor::platform::{Platform, PlatformWindow};

fn rect(x: i64, y: i64, w: i64, h: i64) -> Rect {
    Rect { origin: Point { x, y }, size: Size { width: w, height: h } }
}

fn win(handle: u64, server_id: u32, frame: Rect) -> PlatformWindow {
    PlatformWindow {
        handle,
        is_standard: true,
        frame,
        server_id,
        subscribable: true,
        subscribed: false,
        frame_events_subscribed: false,
    }
}

fn info() -> AppInfo {
    AppInfo { bundle_id: Some(String::from("com.example.editor")) }
}

#[test]
fn init_emits_launch_then_discovery() {
    let mut state = State::new(7, None);
    let mut platform = Platform {
        windows: vec![win(0x11, 101, rect(0, 0, 800, 600)), win(0x22, 102, rect(5, 5, 10, 10))],
        list_fails: false,
        app_subscribable: true,
        main_window: Some(0x22),
        frontmost: true,
    };
    let mut events = Vec::new();
    let ok = state.init(&mut platform, info(), &mut events);
    assert!(ok);
    assert_eq!(events.len(), 2);
    assert_eq!(
        events[0],
        Event::ApplicationLaunched(
            7,
            AppState {
                info: info(),
                main_window: Some(WindowId { pid: 7, idx: 102 }),
                is_frontmost: true,
            },
        ),
    );
    match &events[1] {
        Event::WindowsDiscovered { pid, new, known_visible } => {
            assert_eq!(*pid, 7);
            assert_eq!(known_visible.len(), 0);
            assert_eq!(new.len(), 2);
            assert_eq!(new[0].0, WindowId { pid: 7, idx: 101 });
            assert_eq!(new[1].0, WindowId { pid: 7, idx: 102 });
        },
        other => panic!("unexpected event {:?}", other),
    }
}

#[test]
fn init_fails_without_app_subscriptions() {
    let mut state = State::new(7, None);
    let mut platform = Platform {
        windows: vec![win(0x11, 101, rect(0, 0, 800, 600))],
        list_fails: false,
        app_subscribable: false,
        main_window: None,
        frontmost: false,
    };
    let mut events = Vec::new();
    let ok = state.init(&mut platform, info(), &mut events);
    assert!(!ok);
    assert_eq!(events.len(), 0);
    assert_eq!(state.windows.len(), 0);
}

#[test]
fn init_fails_when_window_list_is_unreadable() {
    let mut state = State::new(7, None);
    let mut platform = Platform {
        windows: Vec::new(),
        list_fails: true,
        app_subscribable: true,
        main_window: None,
        frontmost: false,
    };
    let mut events = Vec::new();
    let ok = state.init(&mut platform, info(), &mut events);
    assert!(!ok);
    assert_eq!(events.len(), 0);
}

#[test]
fn refused_subscriptions_report_subscription_failed() {
    let mut platform = Platform {
        windows: Vec::new(),
        list_fails: false,
        app_subscribable: false,
        main_window: None,
        frontmost: false,
    };
    assert_eq!(platform.subscribe_app_notifications(), Err(Error::SubscriptionFailed));
    assert_eq!(platform.subscribe_window(0x1), Err(Error::SubscriptionFailed));
}

#[test]
fn window_id_new_builds_the_id() {
    let wid = WindowId::new(7, 5);
    assert_eq!(wid, WindowId { pid: 7, idx: 5 });
}

#[test]
fn transaction_id_default_is_no_pending_transaction() {
    assert_eq!(TransactionId::default(), TransactionId(0));
}

#[test]
fn lookup_by_handle_round_trips() {
    let mut state = State::new(7, None);
    let mut platform = Platform {
        windows: vec![win(0x11, 101, rect(0, 0, 800, 600))],
        list_fails: false,
        app_subscribable: true,
        main_window: None,
        frontmost: false,
    };
    let wid = state.register_window(&mut platform, 0x11).unwrap();
    assert_eq!(state.id(0x11), Ok(wid));
    assert!(state.id(0x99).is_err());
}
