//! The state machine that decides when a usage segment ends and the next one
//! begins.

use crate::bits::unsigned_bits;
use crate::common_struct::{
    AppSnapshotInfo, EventType, HgConfig, TrackerEvent, WebReportInfo,
};
#[allow(unused_imports)]
use crate::common_struct::{opt_app, same_foreground, AppView};
use crate::db_handler::{DbHandlerWriter, SegmentStatement};
#[allow(unused_imports)]
use crate::db_handler::{opened_row, statements, StatementView};
use crate::idle_event::IdleError;
use crate::text::copy_or_empty;
#[allow(unused_imports)]
use crate::text::{opt_text, text_or_empty};
use vstd::prelude::*;

verus! {

/// Nanoseconds in a millisecond.
pub const NUM_NS_PER_MS: u128 = 1000000;

/// What is left to do after an event.
#[derive(Debug)]
pub enum TrackerAction {
    /// Nothing.
    Skip,
    /// Post `CommitForeground` once the clock shows `deadline_ns`.
    ArmTimer { deadline_ns: u128 },
    /// Find out the last input and call `on_idle_tick`.
    SampleInput,
    /// Take a snapshot of the window and call `apply_foreground`.
    Snapshot { hwnd_addr: isize, at_ms: i64 },
    /// Record the page with `DbHandlerWriter::apply_web_update`.
    WebUpdate { str_url: String, str_title: String, browser_pid: u32, at_ms: i64 },
    /// Leave the event loop.
    Stop,
}

pub enum ActionView {
    Skip,
    ArmTimer { deadline_ns: int },
    SampleInput,
    Snapshot { hwnd_addr: isize, at_ms: i64 },
    WebUpdate { url: Seq<char>, title: Seq<char>, browser_pid: u32, at_ms: i64 },
    Stop,
}

impl View for TrackerAction {
    type V = ActionView;

    open spec fn view(&self) -> ActionView {
        match self {
            TrackerAction::Skip => ActionView::Skip,
            TrackerAction::ArmTimer { deadline_ns } => ActionView::ArmTimer {
                deadline_ns: *deadline_ns as int,
            },
            TrackerAction::SampleInput => ActionView::SampleInput,
            TrackerAction::Snapshot { hwnd_addr, at_ms } => ActionView::Snapshot {
                hwnd_addr: *hwnd_addr,
                at_ms: *at_ms,
            },
            TrackerAction::WebUpdate { str_url, str_title, browser_pid, at_ms } =>
                ActionView::WebUpdate {
                url: str_url@,
                title: str_title@,
                browser_pid: *browser_pid,
                at_ms: *at_ms,
            },
            TrackerAction::Stop => ActionView::Stop,
        }
    }
}

/// The tracker: the present segment and a foreground switch that has not
/// settled yet. Times of the debounce are nanoseconds on a monotonic clock.
#[derive(Debug)]
pub struct UserTracker {
    pub config: HgConfig,
    pub state: EventType,
    pub opt_app_info: Option<AppSnapshotInfo>,
    /// Window and time of the switch that is not committed yet.
    pub opt_pending_fg: Option<(isize, i64)>,
    /// When that switch counts as settled.
    pub opt_pending_timer: Option<u128>,
}

/// A foreground switch that waits to settle.
pub struct PendingSwitch {
    pub hwnd_addr: isize,
    pub at_ms: i64,
    pub deadline_ns: int,
}

#[verifier::ext_equal]
pub struct TrackerView {
    pub idle_timeout_ms: i64,
    pub debounce_ms: i64,
    pub state: EventType,
    pub app: Option<AppView>,
    pub pending: Option<PendingSwitch>,
}

impl View for UserTracker {
    type V = TrackerView;

    open spec fn view(&self) -> TrackerView {
        TrackerView {
            idle_timeout_ms: self.config.idle_timeout_ms,
            debounce_ms: self.config.foreground_debounce_ms,
            state: self.state,
            app: opt_app(self.opt_app_info),
            pending: match (self.opt_pending_fg, self.opt_pending_timer) {
                (Some(fg), Some(deadline_ns)) => Some(
                    PendingSwitch {
                        hwnd_addr: fg.0,
                        at_ms: fg.1,
                        deadline_ns: deadline_ns as int,
                    },
                ),
                _ => None,
            },
        }
    }
}

/// Whether the user is idle: the last input lies at least the timeout back.
pub open spec fn activity(now_ms: i64, last_input_ms: i64, idle_timeout_ms: i64) -> EventType {
    if now_ms - last_input_ms >= idle_timeout_ms {
        EventType::Idle
    } else {
        EventType::Active
    }
}

/// The statements that end the present segment at `at_ms` and open the next
/// one there.
pub open spec fn switch_statements(tracker: TrackerView, at_ms: i64) -> Seq<StatementView> {
    seq![
        StatementView::Update { end_ms: at_ms },
        StatementView::Insert(opened_row(tracker.state, at_ms, tracker.app)),
    ]
}

/// The tracker and its statements after the first sample.
pub open spec fn seeded(
    tracker: TrackerView,
    now_ms: i64,
    last_input_ms: i64,
    app: Option<AppView>,
) -> (TrackerView, Seq<StatementView>) {
    let after = TrackerView {
        state: activity(now_ms, last_input_ms, tracker.idle_timeout_ms),
        app,
        ..tracker
    };
    (after, switch_statements(after, now_ms))
}

/// The tracker and its statements after a look at the last input. A segment
/// begins only where the state flips; where an active user turned out idle it
/// begins at the last input.
pub open spec fn idle_checked(tracker: TrackerView, now_ms: i64, last_input_ms: i64) -> (
    TrackerView,
    Seq<StatementView>,
) {
    let after = TrackerView {
        state: activity(now_ms, last_input_ms, tracker.idle_timeout_ms),
        ..tracker
    };
    if after.state == tracker.state {
        (after, Seq::empty())
    } else if tracker.state == EventType::Active && after.state == EventType::Idle {
        (after, switch_statements(after, last_input_ms))
    } else {
        (after, switch_statements(after, now_ms))
    }
}

/// The debounce time as an unsigned number of milliseconds; a negative one is
/// read as its unsigned bit pattern.
pub open spec fn debounce_length_ms(debounce_ms: i64) -> int {
    debounce_ms as int % 0x1_0000_0000_0000_0000
}

/// The tracker after a foreground switch, which waits for the debounce time.
pub open spec fn switch_noted(
    tracker: TrackerView,
    hwnd_addr: isize,
    at_ms: i64,
    now_ns: u64,
) -> TrackerView {
    TrackerView {
        pending: Some(
            PendingSwitch {
                hwnd_addr,
                at_ms,
                deadline_ns: now_ns + debounce_length_ms(tracker.debounce_ms) * NUM_NS_PER_MS,
            },
        ),
        ..tracker
    }
}

/// Whether a switch waits and has settled by `now_ns`.
pub open spec fn is_settled(tracker: TrackerView, now_ns: u64) -> bool {
    tracker.pending matches Some(p) && now_ns >= p.deadline_ns
}

/// The tracker after a timer signal: a settled switch waits no longer.
pub open spec fn settled(tracker: TrackerView, now_ns: u64) -> TrackerView {
    if is_settled(tracker, now_ns) {
        TrackerView { pending: None, ..tracker }
    } else {
        tracker
    }
}

/// The tracker and its statements once a settled window was looked at. A
/// segment begins only where the process is another one.
pub open spec fn foreground_applied(tracker: TrackerView, app: Option<AppView>, at_ms: i64) -> (
    TrackerView,
    Seq<StatementView>,
) {
    let after = TrackerView { app, ..tracker };
    if same_foreground(tracker.app, app) {
        (after, Seq::empty())
    } else {
        (after, switch_statements(after, at_ms))
    }
}

/// The tracker and its statements at the end.
pub open spec fn closed(tracker: TrackerView, now_ms: i64) -> (TrackerView, Seq<StatementView>) {
    let after = TrackerView { state: EventType::Offline, ..tracker };
    (after, switch_statements(after, now_ms))
}

/// The pid of the foreground process, 0 where there is none.
pub open spec fn foreground_pid(app: Option<AppView>) -> u32 {
    match app {
        Some(a) => a.win_pid,
        None => 0,
    }
}

/// Whether a page report counts: it comes from a focused window of the process
/// in the foreground, and its pid is known.
pub open spec fn report_counts(tracker: TrackerView, report: WebReportInfo) -> bool {
    report.is_focused && report.browser_pid != 0 && report.browser_pid == foreground_pid(
        tracker.app,
    )
}

/// What a page report leads to.
pub open spec fn report_action(tracker: TrackerView, report: WebReportInfo) -> ActionView {
    if report_counts(tracker, report) {
        ActionView::WebUpdate {
            url: text_or_empty(opt_text(report.opt_url)),
            title: text_or_empty(opt_text(report.opt_title)),
            browser_pid: report.browser_pid,
            at_ms: report.at_ms,
        }
    } else {
        ActionView::Skip
    }
}

/// The tracker and the action after an event.
pub open spec fn dispatched(tracker: TrackerView, event: TrackerEvent, now_ns: u64) -> (
    TrackerView,
    ActionView,
) {
    match event {
        TrackerEvent::ForegroundChanged { hwnd_addr, at_ms } => {
            let after = switch_noted(tracker, hwnd_addr, at_ms, now_ns);
            (after, ActionView::ArmTimer { deadline_ns: after.pending->0.deadline_ns })
        },
        TrackerEvent::IdleTick => (tracker, ActionView::SampleInput),
        TrackerEvent::WebUpdate(report) => (tracker, report_action(tracker, report)),
        TrackerEvent::CommitForeground => (
            settled(tracker, now_ns),
            if is_settled(tracker, now_ns) {
                ActionView::Snapshot {
                    hwnd_addr: tracker.pending->0.hwnd_addr,
                    at_ms: tracker.pending->0.at_ms,
                }
            } else {
                ActionView::Skip
            },
        ),
        TrackerEvent::Shutdown => (tracker, ActionView::Stop),
    }
}

fn is_same_foreground(a: &Option<AppSnapshotInfo>, b: &Option<AppSnapshotInfo>) -> (res: bool)
    ensures
        res == same_foreground(opt_app(*a), opt_app(*b)),
{
    match (a, b) {
        (Some(x), Some(y)) => *x == *y,
        (None, None) => true,
        _ => false,
    }
}

impl UserTracker {
    /// Whether a waiting switch has its deadline, and a deadline its switch.
    pub open spec fn wf(&self) -> bool {
        self.opt_pending_fg is Some <==> self.opt_pending_timer is Some
    }

    /// A tracker that is online and knows of no foreground.
    pub fn new(config: HgConfig) -> (res: UserTracker)
        ensures
            res.wf(),
            res.config == config,
            res.state is Online && res.opt_app_info is None && res.opt_pending_fg is None,
            res@ == (TrackerView {
                idle_timeout_ms: config.idle_timeout_ms,
                debounce_ms: config.foreground_debounce_ms,
                state: EventType::Online,
                app: None,
                pending: None,
            }),
    {
        UserTracker {
            config,
            state: EventType::Online,
            opt_app_info: None,
            opt_pending_fg: None,
            opt_pending_timer: None,
        }
    }

    /// Takes one event from the queue and says what is left to do.
    pub fn dispatch_events(&mut self, event: TrackerEvent, now_ns: u64) -> (res: TrackerAction)
        ensures
            old(self).wf() ==> final(self).wf(),
            final(self).config == old(self).config,
            (final(self)@, res@) == dispatched(old(self)@, event, now_ns),
            !(event is ForegroundChanged) && !(event is CommitForeground && is_settled(
                old(self)@,
                now_ns,
            )) ==> *final(self) == *old(self),
    {
        match event {
            TrackerEvent::ForegroundChanged { hwnd_addr, at_ms } => {
                let deadline_ns = self.on_foreground(hwnd_addr, at_ms, now_ns);
                TrackerAction::ArmTimer { deadline_ns }
            },
            TrackerEvent::IdleTick => TrackerAction::SampleInput,
            TrackerEvent::WebUpdate(report) => self.on_web_update(&report),
            TrackerEvent::CommitForeground => match self.commit_foreground(now_ns) {
                Some((hwnd_addr, at_ms)) => TrackerAction::Snapshot { hwnd_addr, at_ms },
                None => TrackerAction::Skip,
            },
            TrackerEvent::Shutdown => TrackerAction::Stop,
        }
    }

    /// The state for a last input at `last_input_ms`.
    fn activity_at(&self, now_ms: i64, last_input_ms: i64) -> (res: EventType)
        requires
            i64::MIN <= now_ms - last_input_ms <= i64::MAX,
        ensures
            res == activity(now_ms, last_input_ms, self@.idle_timeout_ms),
    {
        if now_ms - last_input_ms >= self.config.idle_timeout_ms {
            EventType::Idle
        } else {
            EventType::Active
        }
    }

    /// Takes the first sample and opens the first segment. Nothing happens
    /// where the last input is unknown.
    pub fn seed_initial(
        &mut self,
        now_ms: i64,
        last_input_ms: Result<i64, IdleError>,
        opt_foreground: Option<AppSnapshotInfo>,
    ) -> (res: Result<Vec<SegmentStatement>, IdleError>)
        requires
            last_input_ms matches Ok(last) ==> i64::MIN <= now_ms - last <= i64::MAX,
        ensures
            old(self).wf() ==> final(self).wf(),
            final(self).config == old(self).config,
            final(self).opt_pending_fg == old(self).opt_pending_fg,
            final(self).opt_pending_timer == old(self).opt_pending_timer,
            last_input_ms matches Ok(last) ==> {
                &&& final(self).state is Idle <==> now_ms - last
                    >= old(self).config.idle_timeout_ms
                &&& final(self).state is Active <==> now_ms - last
                    < old(self).config.idle_timeout_ms
            },
            match last_input_ms {
                Ok(last) => res matches Ok(list) && (final(self)@, statements(list@)) == seeded(
                    old(self)@,
                    now_ms,
                    last,
                    opt_app(opt_foreground),
                ),
                Err(e) => res matches Err(got) && got == e && *final(self) == *old(self),
            },
            last_input_ms is Ok ==> final(self).opt_app_info == opt_foreground,
    {
        match last_input_ms {
            Ok(last) => {
                self.state = self.activity_at(now_ms, last);
                self.opt_app_info = opt_foreground;
                Ok(self.register_database(now_ms))
            },
            Err(e) => Err(e),
        }
    }

    /// Notes a foreground switch, in place of one that still waits, and
    /// returns when it counts as settled.
    pub fn on_foreground(&mut self, hwnd_addr: isize, at_ms: i64, now_ns: u64) -> (res: u128)
        ensures
            final(self).wf(),
            final(self).config == old(self).config,
            final(self)@ == switch_noted(old(self)@, hwnd_addr, at_ms, now_ns),
            final(self)@.pending matches Some(p) && res == p.deadline_ns,
    {
        let num_wait_ms: u64 = unsigned_bits(self.config.foreground_debounce_ms);
        let deadline_ns: u128 = now_ns as u128 + num_wait_ms as u128 * NUM_NS_PER_MS;
        self.opt_pending_fg = Some((hwnd_addr, at_ms));
        self.opt_pending_timer = Some(deadline_ns);
        deadline_ns
    }

    /// Takes the window and the time of the waiting switch if it has settled;
    /// a signal that is stale or finds nothing waiting has no effect.
    pub fn commit_foreground(&mut self, now_ns: u64) -> (res: Option<(isize, i64)>)
        ensures
            old(self).wf() ==> final(self).wf(),
            final(self).config == old(self).config,
            final(self)@ == settled(old(self)@, now_ns),
            !is_settled(old(self)@, now_ns) ==> *final(self) == *old(self),
            res == (if is_settled(old(self)@, now_ns) {
                Some((old(self)@.pending->0.hwnd_addr, old(self)@.pending->0.at_ms))
            } else {
                None
            }),
    {
        match (self.opt_pending_fg, self.opt_pending_timer) {
            (Some((hwnd_addr, at_ms)), Some(deadline_ns)) => {
                if now_ns as u128 >= deadline_ns {
                    self.opt_pending_fg = None;
                    self.opt_pending_timer = None;
                    Some((hwnd_addr, at_ms))
                } else {
                    None
                }
            },
            _ => None,
        }
    }

    /// Takes the snapshot of a settled window and opens a segment if it shows
    /// another process.
    pub fn apply_foreground(&mut self, opt_foreground: Option<AppSnapshotInfo>, at_ms: i64) -> (res:
        Vec<SegmentStatement>)
        ensures
            old(self).wf() ==> final(self).wf(),
            final(self).config == old(self).config,
            final(self).opt_pending_fg == old(self).opt_pending_fg,
            final(self).opt_pending_timer == old(self).opt_pending_timer,
            (final(self)@, statements(res@)) == foreground_applied(
                old(self)@,
                opt_app(opt_foreground),
                at_ms,
            ),
            final(self).opt_app_info == opt_foreground && final(self).state == old(self).state,
    {
        let flag_foreground_switch = !is_same_foreground(&self.opt_app_info, &opt_foreground);
        self.opt_app_info = opt_foreground;
        if flag_foreground_switch {
            self.register_database(at_ms)
        } else {
            let empty: Vec<SegmentStatement> = Vec::new();
            assert(statements(empty@) =~= Seq::empty());
            empty
        }
    }

    /// Lets a page report through if it comes from the focused window of the
    /// foreground process.
    pub fn on_web_update(&self, report: &WebReportInfo) -> (res: TrackerAction)
        ensures
            res@ == report_action(self@, *report),
            report.is_focused && report.browser_pid != 0 && (self.opt_app_info matches Some(info)
                && info.win_pid == report.browser_pid) ==> {
                &&& res matches TrackerAction::WebUpdate { str_url, str_title, browser_pid, at_ms }
                &&& report.opt_url matches Some(url) ==> str_url@ == url@
                &&& report.opt_url is None ==> str_url@.len() == 0
                &&& report.opt_title matches Some(title) ==> str_title@ == title@
                &&& report.opt_title is None ==> str_title@.len() == 0
                &&& browser_pid == report.browser_pid && at_ms == report.at_ms
            },
            !(report.is_focused && report.browser_pid != 0 && (self.opt_app_info matches Some(info)
                && info.win_pid == report.browser_pid)) ==> res is Skip,
    {
        if !report.is_focused {
            return TrackerAction::Skip;
        }
        let num_curr_pid: u32 = match &self.opt_app_info {
            Some(info) => info.win_pid,
            None => 0,
        };
        if report.browser_pid == 0 || num_curr_pid != report.browser_pid {
            return TrackerAction::Skip;
        }
        TrackerAction::WebUpdate {
            str_url: copy_or_empty(&report.opt_url),
            str_title: copy_or_empty(&report.opt_title),
            browser_pid: report.browser_pid,
            at_ms: report.at_ms,
        }
    }

    /// Re-evaluates whether the user is idle and opens a segment if that has
    /// changed. Nothing happens where the last input is unknown.
    pub fn on_idle_tick(&mut self, now_ms: i64, last_input_ms: Result<i64, IdleError>) -> (res:
        Result<Vec<SegmentStatement>, IdleError>)
        requires
            last_input_ms matches Ok(last) ==> i64::MIN <= now_ms - last <= i64::MAX,
        ensures
            old(self).wf() ==> final(self).wf(),
            final(self).config == old(self).config,
            final(self).opt_pending_fg == old(self).opt_pending_fg,
            final(self).opt_pending_timer == old(self).opt_pending_timer,
            last_input_ms matches Ok(last) ==> {
                &&& final(self).state is Idle <==> now_ms - last
                    >= old(self).config.idle_timeout_ms
                &&& final(self).state is Active <==> now_ms - last
                    < old(self).config.idle_timeout_ms
            },
            match last_input_ms {
                Ok(last) => res matches Ok(list) && (final(self)@, statements(list@))
                    == idle_checked(old(self)@, now_ms, last),
                Err(e) => res matches Err(got) && got == e && *final(self) == *old(self),
            },
            last_input_ms matches Ok(_) ==> {
                &&& final(self).opt_app_info == old(self).opt_app_info
                &&& res->Ok_0@.len() == 0 <==> final(self).state == old(self).state
            },
    {
        match last_input_ms {
            Ok(last) => {
                let legacy_state = self.state;
                self.state = self.activity_at(now_ms, last);
                if legacy_state != self.state {
                    let timestamp: i64 = if legacy_state == EventType::Active && self.state
                        == EventType::Idle {
                        last
                    } else {
                        now_ms
                    };
                    Ok(self.register_database(timestamp))
                } else {
                    let empty: Vec<SegmentStatement> = Vec::new();
                    assert(statements(empty@) =~= Seq::empty());
                    Ok(empty)
                }
            },
            Err(e) => Err(e),
        }
    }

    /// Ends the last segment and opens the one that stands for being offline.
    pub fn close(&mut self, now_ms: i64) -> (res: Vec<SegmentStatement>)
        ensures
            old(self).wf() ==> final(self).wf(),
            final(self).config == old(self).config,
            final(self).opt_pending_fg == old(self).opt_pending_fg,
            final(self).opt_pending_timer == old(self).opt_pending_timer,
            (final(self)@, statements(res@)) == closed(old(self)@, now_ms),
    {
        self.state = EventType::Offline;
        self.register_database(now_ms)
    }

    /// The statements that end the present segment at `timestamp` and open the
    /// next one there.
    pub fn register_database(&self, timestamp: i64) -> (res: Vec<SegmentStatement>)
        ensures
            statements(res@) == switch_statements(self@, timestamp),
            res@.len() == 2 && res@[0] == (SegmentStatement::Update { end_ms: timestamp }),
            res@[1] matches SegmentStatement::Insert(row) && row.start_ms == timestamp,
    {
        let writer = DbHandlerWriter {  };
        let mut vec_ret: Vec<SegmentStatement> = Vec::new();
        vec_ret.push(writer.update_segment(timestamp));
        vec_ret.push(writer.register_segment(self.state, timestamp, &self.opt_app_info));
        assert(statements(vec_ret@) =~= switch_statements(self@, timestamp));
        vec_ret
    }
}

/// The user is idle exactly if the last input lies the timeout or longer back,
/// and active otherwise, however long that is; nothing else of the tracker
/// changes but the foreground with the first sample.
pub proof fn law_idle_from_the_timeout_on(
    tracker: TrackerView,
    now_ms: i64,
    last_input_ms: i64,
    app: Option<AppView>,
)
    ensures
        ({
            let first = seeded(tracker, now_ms, last_input_ms, app).0;
            let next = idle_checked(tracker, now_ms, last_input_ms).0;
            &&& first.state is Idle <==> now_ms - last_input_ms >= tracker.idle_timeout_ms
            &&& first.state is Active <==> now_ms - last_input_ms < tracker.idle_timeout_ms
            &&& next.state is Idle <==> now_ms - last_input_ms >= tracker.idle_timeout_ms
            &&& next.state is Active <==> now_ms - last_input_ms < tracker.idle_timeout_ms
            &&& first == (TrackerView { state: first.state, app, ..tracker })
            &&& next == (TrackerView { state: next.state, ..tracker })
        }),
{
}

/// Without new input an idle user stays idle, and a user with fresher input
/// than one that was found active is active; neither opens a segment.
pub proof fn law_verdict_is_monotone(
    tracker: TrackerView,
    now_ms: i64,
    last_input_ms: i64,
    later_ms: i64,
    fresher_ms: i64,
)
    requires
        now_ms <= later_ms,
        last_input_ms <= fresher_ms,
    ensures
        ({
            let after = idle_checked(tracker, now_ms, last_input_ms).0;
            &&& after.state is Idle ==> idle_checked(after, later_ms, last_input_ms) == (
                after,
                Seq::<StatementView>::empty(),
            )
            &&& after.state is Active ==> idle_checked(after, now_ms, fresher_ms) == (
                after,
                Seq::<StatementView>::empty(),
            )
        }),
{
}

/// When a segment begins: always with the first sample, at its time; with a
/// later look only where the state changes, at the last input where an active
/// user turned idle and else at the time of the look.
pub proof fn law_segment_begins_at_the_change(
    tracker: TrackerView,
    now_ms: i64,
    last_input_ms: i64,
    app: Option<AppView>,
)
    ensures
        ({
            let (first, first_list) = seeded(tracker, now_ms, last_input_ms, app);
            let (next, list) = idle_checked(tracker, now_ms, last_input_ms);
            &&& first_list == switch_statements(first, now_ms)
            &&& next.state == tracker.state ==> list.len() == 0
            &&& tracker.state is Active && next.state is Idle ==> list == switch_statements(
                next,
                last_input_ms,
            )
            &&& !(tracker.state is Active) && next.state != tracker.state ==> list
                == switch_statements(next, now_ms)
            &&& next.state is Active && next.state != tracker.state ==> list == switch_statements(
                next,
                now_ms,
            )
        }),
{
}

/// A switch of segments ends the open row and adds one that starts at the same
/// time, is open, and shows the state and all of the foreground process.
pub proof fn law_switch_shows_the_tracker(tracker: TrackerView, at_ms: i64)
    ensures
        ({
            let list = switch_statements(tracker, at_ms);
            &&& list.len() == 2
            &&& list[0] == (StatementView::Update { end_ms: at_ms })
            &&& list[1] matches StatementView::Insert(row)
            &&& row.start_ms == at_ms && row.end_ms is None
            &&& tracker.state is Active ==> row.seg_state == 0
            &&& tracker.state is Idle ==> row.seg_state == 1
            &&& tracker.state is Online ==> row.seg_state == 2
            &&& tracker.state is Offline ==> row.seg_state == 3
            &&& tracker.app matches Some(a) ==> {
                &&& row.pid == Some(a.win_pid as i64)
                &&& row.process_name == Some(a.process_name)
                &&& row.exe_path == Some(a.exe_path)
                &&& row.window_title == Some(a.window_title)
                &&& a.web matches Some(w) ==> row.url == Some(w.url) && row.tab_title == Some(
                    w.tab_title,
                )
                &&& a.web is None ==> row.url is None && row.tab_title is None
            }
            &&& tracker.app is None ==> {
                &&& row.pid is None && row.process_name is None && row.exe_path is None
                &&& row.window_title is None && row.url is None && row.tab_title is None
            }
        }),
{
}

/// A settled window always becomes the foreground. A segment begins exactly if
/// its pid or its path is another one; looking at it again begins none.
pub proof fn law_segment_begins_with_another_process(
    tracker: TrackerView,
    app: Option<AppView>,
    at_ms: i64,
    later_ms: i64,
)
    ensures
        ({
            let (after, list) = foreground_applied(tracker, app, at_ms);
            let is_same = match (tracker.app, app) {
                (Some(x), Some(y)) => x.win_pid == y.win_pid && x.exe_path == y.exe_path,
                (None, None) => true,
                _ => false,
            };
            &&& after == (TrackerView { app, ..tracker })
            &&& is_same ==> list.len() == 0
            &&& !is_same ==> list == switch_statements(after, at_ms)
            &&& foreground_applied(after, app, later_ms) == (
                after,
                Seq::<StatementView>::empty(),
            )
        }),
{
}

/// The end leaves the tracker offline, with the foreground as it was, and opens
/// a segment that says so at that time.
pub proof fn law_end_is_offline(tracker: TrackerView, now_ms: i64)
    ensures
        ({
            let (after, list) = closed(tracker, now_ms);
            &&& after.state is Offline
            &&& after == (TrackerView { state: after.state, ..tracker })
            &&& list == switch_statements(after, now_ms)
        }),
{
}

/// A switch waits for the debounce time, in milliseconds and as an unsigned
/// number, from when it was noted: a timer signal from then on takes it, with
/// the window and the time that were noted, and one before then does nothing.
pub proof fn law_switch_waits_the_debounce_time(
    tracker: TrackerView,
    hwnd_addr: isize,
    at_ms: i64,
    now_ns: u64,
    signal_ns: u64,
)
    ensures
        ({
            let wait_ms = if tracker.debounce_ms >= 0 {
                tracker.debounce_ms as int
            } else {
                tracker.debounce_ms + 0x1_0000_0000_0000_0000
            };
            let deadline_ns = now_ns + wait_ms * 1000000;
            let (noted, armed) = dispatched(
                tracker,
                TrackerEvent::ForegroundChanged { hwnd_addr, at_ms },
                now_ns,
            );
            let (after, action) = dispatched(noted, TrackerEvent::CommitForeground, signal_ns);
            &&& armed == (ActionView::ArmTimer { deadline_ns })
            &&& noted == (TrackerView { pending: noted.pending, ..tracker })
            &&& noted.pending matches Some(p) && p.hwnd_addr == hwnd_addr && p.at_ms == at_ms
                && p.deadline_ns == deadline_ns
            &&& signal_ns >= deadline_ns ==> action == (ActionView::Snapshot { hwnd_addr, at_ms })
                && after == (TrackerView { pending: None, ..tracker })
            &&& signal_ns < deadline_ns ==> action == ActionView::Skip && after == noted
        }),
{
}

/// A timer signal takes what waits, if it has settled, and does nothing else. A
/// tick asks for the last input, a shutdown ends the loop, and neither they nor
/// reports change the tracker.
pub proof fn law_events_lead_to_their_actions(
    tracker: TrackerView,
    report: WebReportInfo,
    now_ns: u64,
)
    ensures
        dispatched(tracker, TrackerEvent::IdleTick, now_ns) == (tracker, ActionView::SampleInput),
        dispatched(tracker, TrackerEvent::Shutdown, now_ns) == (tracker, ActionView::Stop),
        dispatched(tracker, TrackerEvent::WebUpdate(report), now_ns).0 == tracker,
        tracker.pending is None ==> dispatched(tracker, TrackerEvent::CommitForeground, now_ns) == (
            tracker,
            ActionView::Skip,
        ),
        tracker.pending matches Some(p) ==> {
            let (after, action) = dispatched(tracker, TrackerEvent::CommitForeground, now_ns);
            &&& now_ns >= p.deadline_ns ==> action == (ActionView::Snapshot {
                hwnd_addr: p.hwnd_addr,
                at_ms: p.at_ms,
            }) && after == (TrackerView { pending: None, ..tracker })
            &&& now_ns < p.deadline_ns ==> action == ActionView::Skip && after == tracker
        },
{
}

/// A report is let through exactly if it is focused, has a pid, and that is the
/// pid of the foreground process; it goes through with its address, its title,
/// its pid and its time, and what it lacks of the first two is empty.
pub proof fn law_report_goes_through_whole(
    tracker: TrackerView,
    report: WebReportInfo,
    now_ns: u64,
)
    ensures
        ({
            let action = dispatched(tracker, TrackerEvent::WebUpdate(report), now_ns).1;
            let is_let = report.is_focused && report.browser_pid != 0 && (tracker.app matches Some(
                a,
            ) && a.win_pid == report.browser_pid);
            &&& is_let ==> {
                &&& action matches ActionView::WebUpdate { url, title, browser_pid, at_ms }
                &&& report.opt_url matches Some(u) ==> url == u@
                &&& report.opt_url is None ==> url.len() == 0
                &&& report.opt_title matches Some(t) ==> title == t@
                &&& report.opt_title is None ==> title.len() == 0
                &&& browser_pid == report.browser_pid && at_ms == report.at_ms
            }
            &&& !is_let ==> action == ActionView::Skip
        }),
{
}

/// The view of an action shows each of its parts.
pub proof fn law_action_views(
    hwnd_addr: isize,
    at_ms: i64,
    deadline_ns: u128,
    str_url: String,
    str_title: String,
    browser_pid: u32,
)
    ensures
        TrackerAction::Skip@ == ActionView::Skip && TrackerAction::Stop@ == ActionView::Stop,
        TrackerAction::SampleInput@ == ActionView::SampleInput,
        (TrackerAction::ArmTimer { deadline_ns })@ == (ActionView::ArmTimer {
            deadline_ns: deadline_ns as int,
        }),
        (TrackerAction::Snapshot { hwnd_addr, at_ms })@ == (ActionView::Snapshot {
            hwnd_addr,
            at_ms,
        }),
        (TrackerAction::WebUpdate { str_url, str_title, browser_pid, at_ms })@ == (
        ActionView::WebUpdate { url: str_url@, title: str_title@, browser_pid, at_ms }),
{
}

/// The view of a tracker shows its state, its foreground, the two settings that
/// it goes by, and a switch that waits.
pub proof fn law_tracker_view(tracker: UserTracker)
    ensures
        tracker@.idle_timeout_ms == tracker.config.idle_timeout_ms,
        tracker@.debounce_ms == tracker.config.foreground_debounce_ms,
        tracker@.state == tracker.state && tracker@.app == opt_app(tracker.opt_app_info),
        tracker@.pending is Some <==> tracker.opt_pending_fg is Some
            && tracker.opt_pending_timer is Some,
        tracker@.pending matches Some(p) ==> tracker.opt_pending_fg == Some((p.hwnd_addr, p.at_ms))
            && tracker.opt_pending_timer->0 == p.deadline_ns,
{
}

/// Only the latest of several foreground switches is ever committed: noting
/// one forgets the one before it.
pub proof fn law_later_switch_replaces_earlier(
    tracker: TrackerView,
    first: (isize, i64, u64),
    second: (isize, i64, u64),
)
    ensures
        switch_noted(
            switch_noted(tracker, first.0, first.1, first.2),
            second.0,
            second.1,
            second.2,
        ) == switch_noted(tracker, second.0, second.1, second.2),
{
}

/// A timer signal before the deadline of the latest switch, such as one that
/// an earlier switch asked for, does nothing; one at the deadline or later
/// commits the switch, once.
pub proof fn law_debounce(
    tracker: TrackerView,
    hwnd_addr: isize,
    at_ms: i64,
    now_ns: u64,
    signal_ns: u64,
    later_ns: u64,
)
    ensures
        ({
            let noted = switch_noted(tracker, hwnd_addr, at_ms, now_ns);
            let (after, action) = dispatched(noted, TrackerEvent::CommitForeground, signal_ns);
            if signal_ns < noted.pending->0.deadline_ns {
                after == noted && action == ActionView::Skip
            } else {
                &&& action == (ActionView::Snapshot { hwnd_addr, at_ms })
                &&& dispatched(after, TrackerEvent::CommitForeground, later_ns) == (
                    after,
                    ActionView::Skip,
                )
            }
        }),
{
}

/// Looking at the last input leaves the user active or idle, and writes
/// nothing unless that is news: a second look that comes to the same result
/// writes nothing.
pub proof fn law_idle_check_writes_on_change_only(
    tracker: TrackerView,
    now_ms: i64,
    last_input_ms: i64,
    next_now_ms: i64,
    next_last_input_ms: i64,
)
    ensures
        ({
            let (after, list) = idle_checked(tracker, now_ms, last_input_ms);
            let verdict = activity(now_ms, last_input_ms, tracker.idle_timeout_ms);
            let next = activity(next_now_ms, next_last_input_ms, tracker.idle_timeout_ms);
            &&& after.state == EventType::Active || after.state == EventType::Idle
            &&& list.len() == 0 <==> tracker.state == verdict
            &&& idle_checked(after, next_now_ms, next_last_input_ms).1.len() == 0 <==> verdict
                == next
        }),
{
}

} // verus!
