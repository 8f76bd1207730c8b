//! Values that the components exchange.

use vstd::prelude::*;

verus! {

/// What the user was doing during a segment.
#[derive(Debug, Clone, Copy, PartialEq, Eq, Structural)]
pub enum EventType {
    Active,
    Idle,
    Online,
    Offline,
}

/// The number that stands for `event` in the column `seg_state`.
pub open spec fn event_code(event: EventType) -> i64 {
    match event {
        EventType::Active => 0,
        EventType::Idle => 1,
        EventType::Online => 2,
        EventType::Offline => 3,
    }
}

/// The event type that a number in the column `seg_state` stands for.
pub open spec fn event_of_code(code: i64) -> Option<EventType> {
    if code == 0 {
        Some(EventType::Active)
    } else if code == 1 {
        Some(EventType::Idle)
    } else if code == 2 {
        Some(EventType::Online)
    } else if code == 3 {
        Some(EventType::Offline)
    } else {
        None
    }
}

pub open spec fn event_label(event: EventType) -> Seq<char> {
    match event {
        EventType::Active => "Active"@,
        EventType::Idle => "Idle"@,
        EventType::Online => "Online"@,
        EventType::Offline => "Offline"@,
    }
}

impl EventType {
    /// The number that stands for this event type in the database.
    pub fn seg_state(self) -> (res: i64)
        ensures
            res == event_code(self),
    {
        match self {
            EventType::Active => 0,
            EventType::Idle => 1,
            EventType::Online => 2,
            EventType::Offline => 3,
        }
    }

    /// The event type that `code` stands for, if any.
    pub fn from_seg_state(code: i64) -> (res: Option<EventType>)
        ensures
            res == event_of_code(code),
    {
        match code {
            0 => Some(EventType::Active),
            1 => Some(EventType::Idle),
            2 => Some(EventType::Online),
            3 => Some(EventType::Offline),
            _ => None,
        }
    }

    /// The name of the event type.
    pub fn to_string(&self) -> (res: String)
        ensures
            res@ == event_label(*self),
    {
        match self {
            EventType::Active => "Active".to_owned(),
            EventType::Idle => "Idle".to_owned(),
            EventType::Online => "Online".to_owned(),
            EventType::Offline => "Offline".to_owned(),
        }
    }
}

/// A number in `seg_state` reads back as the event type that wrote it, and
/// two event types never share a number.
pub proof fn law_event_code_round_trip(event: EventType, code: i64)
    ensures
        event_of_code(event_code(event)) == Some(event),
        event_of_code(code) matches Some(e) ==> event_code(e) == code,
{
}

/// The numbers and names of the event types, and that no other number stands for
/// one.
pub proof fn law_event_numbers_and_names(event: EventType, code: i64)
    ensures
        event_code(event) == 0 <==> event is Active,
        event_code(event) == 1 <==> event is Idle,
        event_code(event) == 2 <==> event is Online,
        event_code(event) == 3 <==> event is Offline,
        event_of_code(code) is Some <==> 0 <= code <= 3,
        event is Active ==> event_label(event) == "Active"@,
        event is Idle ==> event_label(event) == "Idle"@,
        event is Online ==> event_label(event) == "Online"@,
        event is Offline ==> event_label(event) == "Offline"@,
{
}

/// The page shown in a browser window.
#[derive(Debug, Clone)]
pub struct WebSnapshotInfo {
    pub tab_title: String,
    pub url: String,
}

/// The process that owns a foreground window.
#[derive(Debug, Clone)]
pub struct AppSnapshotInfo {
    pub win_pid: u32,
    pub process_name: String,
    pub exe_path: String,
    pub window_title: String,
    pub opt_web_info: Option<WebSnapshotInfo>,
}

#[verifier::ext_equal]
pub struct WebView {
    pub tab_title: Seq<char>,
    pub url: Seq<char>,
}

#[verifier::ext_equal]
pub struct AppView {
    pub win_pid: u32,
    pub process_name: Seq<char>,
    pub exe_path: Seq<char>,
    pub window_title: Seq<char>,
    pub web: Option<WebView>,
}

impl View for WebSnapshotInfo {
    type V = WebView;

    open spec fn view(&self) -> WebView {
        WebView { tab_title: self.tab_title@, url: self.url@ }
    }
}

pub open spec fn opt_web(web: Option<WebSnapshotInfo>) -> Option<WebView> {
    match web {
        Some(w) => Some(w@),
        None => None,
    }
}

impl View for AppSnapshotInfo {
    type V = AppView;

    open spec fn view(&self) -> AppView {
        AppView {
            win_pid: self.win_pid,
            process_name: self.process_name@,
            exe_path: self.exe_path@,
            window_title: self.window_title@,
            web: opt_web(self.opt_web_info),
        }
    }
}

pub open spec fn opt_app(app: Option<AppSnapshotInfo>) -> Option<AppView> {
    match app {
        Some(a) => Some(a@),
        None => None,
    }
}

/// Whether two snapshots show the same process: same pid and same path. The
/// window title and the page do not count.
pub open spec fn same_process(a: AppView, b: AppView) -> bool {
    a.win_pid == b.win_pid && a.exe_path == b.exe_path
}

/// Whether two foregrounds, either of which may be missing, are the same.
pub open spec fn same_foreground(a: Option<AppView>, b: Option<AppView>) -> bool {
    match (a, b) {
        (Some(x), Some(y)) => same_process(x, y),
        (None, None) => true,
        _ => false,
    }
}

impl PartialEq for AppSnapshotInfo {
    fn eq(&self, other: &Self) -> (res: bool) {
        self.win_pid == other.win_pid && self.exe_path == other.exe_path
    }
}

impl vstd::std_specs::cmp::PartialEqSpecImpl for AppSnapshotInfo {
    open spec fn obeys_eq_spec() -> bool {
        true
    }

    open spec fn eq_spec(&self, other: &Self) -> bool {
        same_process(self@, other@)
    }
}

impl Eq for AppSnapshotInfo {}

/// Whether two snapshots show one process does not change with their names,
/// titles and pages; another pid or another path makes another process.
pub proof fn law_process_is_pid_and_path(a: AppView, b: AppView)
    ensures
        a.win_pid == b.win_pid && a.exe_path == b.exe_path ==> same_process(a, b),
        a.win_pid != b.win_pid || a.exe_path != b.exe_path ==> !same_process(a, b),
        same_foreground(Some(a), Some(b)) == same_process(a, b),
        same_foreground(None, None),
        !same_foreground(Some(a), None) && !same_foreground(None, Some(b)),
{
}

/// The view of a snapshot shows each of its fields.
pub proof fn law_snapshot_view(app: AppSnapshotInfo)
    ensures
        opt_app(None) is None && opt_app(Some(app)) == Some(app@),
        app@.win_pid == app.win_pid && app@.process_name == app.process_name@,
        app@.exe_path == app.exe_path@ && app@.window_title == app.window_title@,
        app.opt_web_info is None <==> app@.web is None,
        app.opt_web_info matches Some(web) ==> (app@.web matches Some(w) && w.tab_title
            == web.tab_title@ && w.url == web.url@),
{
}

/// Equality of snapshots is an equivalence.
pub proof fn law_same_process_is_equivalence(a: AppView, b: AppView, c: AppView)
    ensures
        same_process(a, a),
        same_process(a, b) == same_process(b, a),
        same_process(a, b) && same_process(b, c) ==> same_process(a, c),
{
}

/// A stored segment as a query returns it.
#[derive(Debug, Clone)]
pub struct SegmentInfo {
    pub row_id: i64,
    pub event_type: EventType,
    pub start_ms: i64,
    pub end_ms: i64,
    pub app_snapshot_info: AppSnapshotInfo,
}

#[verifier::ext_equal]
pub struct SegmentView {
    pub row_id: i64,
    pub event_type: EventType,
    pub start_ms: i64,
    pub end_ms: i64,
    pub app: AppView,
}

impl View for SegmentInfo {
    type V = SegmentView;

    open spec fn view(&self) -> SegmentView {
        SegmentView {
            row_id: self.row_id,
            event_type: self.event_type,
            start_ms: self.start_ms,
            end_ms: self.end_ms,
            app: self.app_snapshot_info@,
        }
    }
}

/// The view of a segment shows each of its fields.
pub proof fn law_segment_view(segment: SegmentInfo)
    ensures
        segment@.row_id == segment.row_id && segment@.event_type == segment.event_type,
        segment@.start_ms == segment.start_ms && segment@.end_ms == segment.end_ms,
        segment@.app == segment.app_snapshot_info@,
{
}

/// The settings of the tracker and of the browser bridge.
#[derive(Debug, Clone)]
pub struct HgConfig {
    pub db_path: String,
    pub pool_interval_ms: i64,
    pub idle_timeout_ms: i64,
    pub idle_check_interval_ms: i64,
    pub foreground_debounce_ms: i64,
    pub web_receiver_udp_addr: String,
}

/// One report of the browser extension, stamped on arrival.
#[derive(Debug, Clone)]
pub struct WebReportInfo {
    pub str_event: String,
    pub is_focused: bool,
    pub browser_pid: u32,
    pub opt_url: Option<String>,
    pub opt_title: Option<String>,
    pub at_ms: i64,
}

/// What the tracker reacts to.
#[derive(Debug, Clone)]
pub enum TrackerEvent {
    ForegroundChanged { hwnd_addr: isize, at_ms: i64 },
    IdleTick,
    WebUpdate(WebReportInfo),
    CommitForeground,
    Shutdown,
}

} // verus!
