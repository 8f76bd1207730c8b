use hourglass::common_struct::{
    AppSnapshotInfo, EventType, HgConfig, TrackerEvent, WebReportInfo, WebSnapshotInfo,
};
use hourglass::db_handler::SegmentStatement;
use hourglass::idle_event::{IdleAction, IdleError, IdleEvent};
use hourglass::tracker::{TrackerAction, UserTracker};
use hourglass::web_listener::{ListenerAction, ListenerEvent, WebListener, WebReceiverMessage};
use hourglass::win_event::process_win_event;

fn config() -> HgConfig {
    HgConfig {
        db_path: "usage.db".to_string(),
        pool_interval_ms: 1000,
        idle_timeout_ms: 60_000,
        idle_check_interval_ms: 1000,
        foreground_debounce_ms: 200,
        web_receiver_udp_addr: "127.0.0.1:4455".to_string(),
    }
}

fn app(win_pid: u32, exe_path: &str, window_title: &str) -> AppSnapshotInfo {
    AppSnapshotInfo {
        win_pid,
        process_name: "p".to_string(),
        exe_path: exe_path.to_string(),
        window_title: window_title.to_string(),
        opt_web_info: None,
    }
}

// (end of the old segment, start, state and pid of the new one)
fn switch_of(list: &[SegmentStatement]) -> (i64, i64, i64, Option<i64>) {
    assert_eq!(list.len(), 2);
    match (&list[0], &list[1]) {
        (SegmentStatement::Update { end_ms }, SegmentStatement::Insert(row)) => {
            (*end_ms, row.start_ms, row.seg_state, row.pid)
        }
        _ => panic!("not a switch of segments: {:?}", list),
    }
}

fn seeded() -> UserTracker {
    let mut tracker = UserTracker::new(config());
    let list = tracker.seed_initial(100_000, Ok(99_000), Some(app(7, "a", "t"))).unwrap();
    assert_eq!(switch_of(&list), (100_000, 100_000, 0, Some(7)));
    tracker
}

const MS: u64 = 1_000_000;

#[test]
fn a_new_tracker_is_online() {
    let tracker = UserTracker::new(config());
    assert_eq!(tracker.state, EventType::Online);
    assert!(tracker.opt_app_info.is_none());
    assert!(tracker.opt_pending_fg.is_none());
    assert!(tracker.opt_pending_timer.is_none());
}

#[test]
fn seeding_picks_the_state() {
    let mut tracker = UserTracker::new(config());
    let list = tracker.seed_initial(100_000, Ok(40_000), None).unwrap();
    assert_eq!(switch_of(&list), (100_000, 100_000, 1, None));
    assert_eq!(tracker.state, EventType::Idle);
    let mut tracker = UserTracker::new(config());
    let list = tracker.seed_initial(100_000, Ok(40_001), None).unwrap();
    assert_eq!(switch_of(&list).2, 0);
    let mut tracker = UserTracker::new(config());
    let err = tracker.seed_initial(1, Err(IdleError::GetLastInputInfo), Some(app(1, "a", "t")));
    assert_eq!(err.unwrap_err(), IdleError::GetLastInputInfo);
    assert_eq!(tracker.state, EventType::Online);
    assert!(tracker.opt_app_info.is_none());
}

#[test]
fn going_idle_is_backdated() {
    let mut tracker = seeded();
    assert!(tracker.on_idle_tick(150_000, Ok(99_000)).unwrap().is_empty());
    let list = tracker.on_idle_tick(159_000, Ok(99_000)).unwrap();
    assert_eq!(switch_of(&list), (99_000, 99_000, 1, Some(7)));
    assert!(tracker.on_idle_tick(160_000, Ok(99_000)).unwrap().is_empty());
    let list = tracker.on_idle_tick(170_000, Ok(169_990)).unwrap();
    assert_eq!(switch_of(&list), (170_000, 170_000, 0, Some(7)));
}

#[test]
fn leaving_online_is_not_backdated() {
    let mut tracker = UserTracker::new(config());
    let list = tracker.on_idle_tick(100_000, Ok(10_000)).unwrap();
    assert_eq!(switch_of(&list), (100_000, 100_000, 1, None));
}

#[test]
fn unknown_input_changes_nothing() {
    let mut tracker = seeded();
    let res = tracker.on_idle_tick(999_000, Err(IdleError::GetLastInputInfo));
    assert_eq!(res.unwrap_err(), IdleError::GetLastInputInfo);
    assert_eq!(tracker.state, EventType::Active);
}

#[test]
fn foreground_is_debounced() {
    let mut tracker = seeded();
    let changed = TrackerEvent::ForegroundChanged { hwnd_addr: 11, at_ms: 101_000 };
    match tracker.dispatch_events(changed, 5 * MS) {
        TrackerAction::ArmTimer { deadline_ns } => assert_eq!(deadline_ns, 205 * MS as u128),
        other => panic!("unexpected action {:?}", other),
    }
    let changed = TrackerEvent::ForegroundChanged { hwnd_addr: 22, at_ms: 101_050 };
    match tracker.dispatch_events(changed, 55 * MS) {
        TrackerAction::ArmTimer { deadline_ns } => assert_eq!(deadline_ns, 255 * MS as u128),
        other => panic!("unexpected action {:?}", other),
    }
    let stale = tracker.dispatch_events(TrackerEvent::CommitForeground, 205 * MS);
    assert!(matches!(stale, TrackerAction::Skip));
    let early = tracker.dispatch_events(TrackerEvent::CommitForeground, 255 * MS - 1);
    assert!(matches!(early, TrackerAction::Skip));
    match tracker.dispatch_events(TrackerEvent::CommitForeground, 255 * MS) {
        TrackerAction::Snapshot { hwnd_addr, at_ms } => assert_eq!((hwnd_addr, at_ms), (22, 101_050)),
        other => panic!("unexpected action {:?}", other),
    }
    let again = tracker.dispatch_events(TrackerEvent::CommitForeground, 300 * MS);
    assert!(matches!(again, TrackerAction::Skip));
}

#[test]
fn a_negative_debounce_never_settles() {
    let mut cfg = config();
    cfg.foreground_debounce_ms = -1;
    let mut tracker = UserTracker::new(cfg);
    let deadline = tracker.on_foreground(1, 2, 3);
    assert_eq!(deadline, 3 + u64::MAX as u128 * MS as u128);
    assert!(tracker.commit_foreground(u64::MAX).is_none());
}

#[test]
fn half_a_pending_switch_stays() {
    let mut tracker = seeded();
    tracker.opt_pending_fg = Some((5, 9));
    assert!(tracker.commit_foreground(u64::MAX).is_none());
    tracker.on_idle_tick(101_000, Ok(100_500)).unwrap();
    tracker.apply_foreground(Some(app(8, "b", "t")), 101_000);
    assert_eq!(tracker.opt_pending_fg, Some((5, 9)));
    assert!(tracker.opt_pending_timer.is_none());
}

#[test]
fn only_another_process_opens_a_segment() {
    let mut tracker = seeded();
    assert!(tracker.apply_foreground(Some(app(7, "a", "other title")), 102_000).is_empty());
    assert_eq!(tracker.opt_app_info.as_ref().unwrap().window_title, "other title");
    let list = tracker.apply_foreground(Some(app(7, "b", "t")), 103_000);
    assert_eq!(switch_of(&list), (103_000, 103_000, 0, Some(7)));
    let list = tracker.apply_foreground(Some(app(8, "b", "t")), 104_000);
    assert_eq!(switch_of(&list), (104_000, 104_000, 0, Some(8)));
    let list = tracker.apply_foreground(None, 105_000);
    assert_eq!(switch_of(&list), (105_000, 105_000, 0, None));
    assert!(tracker.apply_foreground(None, 106_000).is_empty());
}

#[test]
fn closing_goes_offline() {
    let mut tracker = seeded();
    let list = tracker.close(200_000);
    assert_eq!(switch_of(&list), (200_000, 200_000, 3, Some(7)));
    assert_eq!(tracker.state, EventType::Offline);
}

fn report(is_focused: bool, browser_pid: u32) -> WebReportInfo {
    WebReportInfo {
        str_event: "url_changed".to_string(),
        is_focused,
        browser_pid,
        opt_url: Some("https://a.example".to_string()),
        opt_title: None,
        at_ms: 101_234,
    }
}

#[test]
fn reports_of_the_foreground_browser_count() {
    let mut tracker = seeded();
    match tracker.dispatch_events(TrackerEvent::WebUpdate(report(true, 7)), 0) {
        TrackerAction::WebUpdate { str_url, str_title, browser_pid, at_ms } => {
            assert_eq!(str_url, "https://a.example");
            assert_eq!(str_title, "");
            assert_eq!((browser_pid, at_ms), (7, 101_234));
        }
        other => panic!("unexpected action {:?}", other),
    }
    for dropped in [report(false, 7), report(true, 8), report(true, 0)] {
        let action = tracker.dispatch_events(TrackerEvent::WebUpdate(dropped), 0);
        assert!(matches!(action, TrackerAction::Skip));
    }
    let blank = UserTracker::new(config());
    assert!(matches!(blank.on_web_update(&report(true, 0)), TrackerAction::Skip));
}

#[test]
fn other_events() {
    let mut tracker = seeded();
    assert!(matches!(tracker.dispatch_events(TrackerEvent::IdleTick, 0), TrackerAction::SampleInput));
    assert!(matches!(tracker.dispatch_events(TrackerEvent::Shutdown, 0), TrackerAction::Stop));
}

#[test]
fn last_input_time() {
    assert_eq!(IdleEvent::get_last_input_ms(1_000_000, Some(4000), 9000), Ok(995_000));
    let wrapped = (1u64 << 32) + 50;
    assert_eq!(IdleEvent::get_last_input_ms(1_000_000, Some(u32::MAX - 49), wrapped), Ok(999_900));
    assert_eq!(IdleEvent::get_last_input_ms(5, None, 9000), Err(IdleError::GetLastInputInfo));
}

#[test]
fn idle_ticker() {
    let ticker = IdleEvent::new(&config());
    assert_eq!(ticker.interval_ms, 1000);
    assert_eq!(ticker.run(None), IdleAction::Tick);
    assert_eq!(ticker.run(Some(true)), IdleAction::Tick);
    assert_eq!(ticker.run(Some(false)), IdleAction::Stop);
    let mut cfg = config();
    cfg.idle_check_interval_ms = -2;
    assert_eq!(IdleEvent::new(&cfg).interval_ms, u64::MAX - 1);
}

#[test]
fn window_events_are_filtered() {
    match process_win_event(3, 99, 0, 0, 12) {
        Some(TrackerEvent::ForegroundChanged { hwnd_addr, at_ms }) => {
            assert_eq!((hwnd_addr, at_ms), (99, 12));
        }
        other => panic!("unexpected event {:?}", other),
    }
    assert!(process_win_event(4, 99, 0, 0, 12).is_none());
    assert!(process_win_event(3, 0, 0, 0, 12).is_none());
    assert!(process_win_event(3, 99, -4, 0, 12).is_none());
    assert!(process_win_event(3, 99, 0, 1, 12).is_none());
}

#[test]
fn packets_become_events() {
    let listener = WebListener::new(&config());
    assert_eq!(listener.str_bind, "127.0.0.1:4455");
    let msg = WebReceiverMessage {
        event: "on_start".to_string(),
        focused: true,
        browser_pid: 6,
        url: Some("u".to_string()),
        title: None,
    };
    match listener.handle_packet(msg, 77) {
        TrackerEvent::WebUpdate(report) => {
            assert_eq!(report.str_event, "on_start");
            assert!(report.is_focused);
            assert_eq!((report.browser_pid, report.at_ms), (6, 77));
            assert_eq!(report.opt_url.as_deref(), Some("u"));
            assert!(report.opt_title.is_none());
        }
        other => panic!("unexpected event {:?}", other),
    }
}

#[test]
fn listener_loop() {
    let listener = WebListener::new(&config());
    assert_eq!(listener.run(ListenerEvent::Bound { is_ok: true }), ListenerAction::Receive);
    assert_eq!(listener.run(ListenerEvent::Bound { is_ok: false }), ListenerAction::FailBind);
    assert_eq!(listener.run(ListenerEvent::Handled { is_ok: true }), ListenerAction::Receive);
    assert_eq!(listener.run(ListenerEvent::Handled { is_ok: false }), ListenerAction::Receive);
    assert_eq!(listener.run(ListenerEvent::RecvFailed), ListenerAction::FailRecv);
}

#[test]
fn snapshots_are_equal_by_process() {
    let a = app(7, "a", "t");
    let mut b = app(7, "a", "u");
    b.opt_web_info = Some(WebSnapshotInfo { tab_title: "x".to_string(), url: "y".to_string() });
    assert!(a == b && b == a && a == a.clone());
    assert!(a != app(8, "a", "t"));
    assert!(a != app(7, "A", "t"));
}

#[test]
fn event_types_have_names_and_numbers() {
    let all = [EventType::Active, EventType::Idle, EventType::Online, EventType::Offline];
    let names = ["Active", "Idle", "Online", "Offline"];
    for (i, event) in all.iter().enumerate() {
        assert_eq!(event.seg_state(), i as i64);
        assert_eq!(EventType::from_seg_state(i as i64), Some(*event));
        assert_eq!(event.to_string(), names[i]);
    }
    assert_eq!(EventType::from_seg_state(4), None);
    assert_eq!(EventType::from_seg_state(-1), None);
}
