//! What the recorded segments add up to: a chain without gaps whose open end
//! shows what the tracker sees.

#[allow(unused_imports)]
use crate::common_struct::{
    event_code, event_of_code, AppView, EventType, TrackerEvent, WebReportInfo,
};
#[allow(unused_imports)]
use crate::db_handler::{
    after_statement, after_statements, is_selected, lacks_page, opened_row, web_statements,
    SegmentRow, StatementView,
};
#[allow(unused_imports)]
use crate::text::{opt_text, text_or_empty};
#[allow(unused_imports)]
use crate::tracker::{
    closed, dispatched, foreground_applied, idle_checked, report_counts, seeded,
    switch_statements, ActionView, TrackerView,
};
use vstd::prelude::*;

verus! {

/// Whether row `i` ends where the next one starts.
pub open spec fn is_joined(table: Seq<SegmentRow>, i: int) -> bool {
    table[i].end_ms == Some(table[i + 1].start_ms)
}

/// Whether each row ends where the next one starts and only the latest row is
/// open.
pub open spec fn is_linked(table: Seq<SegmentRow>) -> bool {
    &&& forall|i: int| 0 <= i < table.len() - 1 ==> #[trigger] is_joined(table, i)
    &&& table.len() > 0 ==> table.last().end_ms is None
}

/// Whether the latest row shows what the tracker sees: its state, and the pid
/// and path of the foreground process.
pub open spec fn is_mirrored(tracker: TrackerView, table: Seq<SegmentRow>) -> bool {
    &&& table.len() > 0
    &&& table.last().seg_state == event_code(tracker.state)
    &&& match tracker.app {
        Some(a) => table.last().pid == Some(a.win_pid as i64) && table.last().exe_path == Some(
            a.exe_path,
        ),
        None => table.last().pid is None && table.last().exe_path is None,
    }
}

/// The table after the present segment ended at `at_ms` and the next one
/// opened there.
pub open spec fn switched(tracker: TrackerView, table: Seq<SegmentRow>, at_ms: i64) -> Seq<
    SegmentRow,
> {
    after_statements(table, switch_statements(tracker, at_ms))
}

proof fn lemma_two_statements(table: Seq<SegmentRow>, first: StatementView, second: StatementView)
    ensures
        after_statements(table, seq![first, second]) == after_statement(
            after_statement(table, first),
            second,
        ),
{
    let list = seq![first, second];
    assert(list.skip(1) =~= seq![second]);
    assert(seq![second].skip(1) =~= Seq::<StatementView>::empty());
    reveal_with_fuel(after_statements, 3);
}

proof fn lemma_one_statement(table: Seq<SegmentRow>, only: StatementView)
    ensures
        after_statements(table, seq![only]) == after_statement(table, only),
{
    assert(seq![only].skip(1) =~= Seq::<StatementView>::empty());
    reveal_with_fuel(after_statements, 2);
}

/// Ending the latest row where a new one starts keeps the chain; rows before
/// the latest are not touched.
proof fn lemma_chain_grows(table: Seq<SegmentRow>, row: SegmentRow)
    requires
        is_linked(table),
        row.end_ms is None,
    ensures
        ({
            let after = after_statements(
                table,
                seq![StatementView::Update { end_ms: row.start_ms }, StatementView::Insert(row)],
            );
            &&& is_linked(after)
            &&& after.len() == table.len() + 1
            &&& after.last() == row
            &&& forall|i: int|
                0 <= i < table.len() - 1 ==> #[trigger] after[i] == table[i]
        }),
{
    let first = StatementView::Update { end_ms: row.start_ms };
    lemma_two_statements(table, first, StatementView::Insert(row));
    let ended = after_statement(table, first);
    let after = ended.push(row);
    assert forall|i: int| 0 <= i < after.len() - 1 implies #[trigger] is_joined(after, i) by {
        if i < table.len() - 1 {
            assert(is_joined(table, i));
            assert(after[i] == table[i]);
            assert(after[i + 1].start_ms == table[i + 1].start_ms);
        }
    }
}

/// A switch of segments keeps the chain and leaves every row before the latest
/// one as it was; the new row shows what the tracker sees, and a query whose
/// window reaches past its start finds it.
pub proof fn law_switch_keeps_chain(tracker: TrackerView, table: Seq<SegmentRow>, at_ms: i64)
    requires
        is_linked(table),
    ensures
        is_linked(switched(tracker, table, at_ms)),
        is_mirrored(tracker, switched(tracker, table, at_ms)),
        switched(tracker, table, at_ms).len() == table.len() + 1,
        switched(tracker, table, at_ms).last().start_ms == at_ms,
        forall|i: int|
            0 <= i < table.len() - 1 ==> #[trigger] switched(tracker, table, at_ms)[i] == table[i],
        forall|start_ms: i64, end_ms: i64|
            end_ms > at_ms ==> #[trigger] is_selected(
                switched(tracker, table, at_ms).last(),
                (end_ms, start_ms),
            ),
{
    lemma_chain_grows(table, opened_row(tracker.state, at_ms, tracker.app));
}

/// The latest row of a table.
pub open spec fn latest(table: Seq<SegmentRow>) -> Option<SegmentRow> {
    if table.len() == 0 {
        None
    } else {
        Some(table.last())
    }
}

/// The table after a page report was recorded.
pub open spec fn page_recorded(
    table: Seq<SegmentRow>,
    url: Seq<char>,
    title: Seq<char>,
    pid: u32,
    at_ms: i64,
) -> Seq<SegmentRow> {
    after_statements(table, web_statements(latest(table), url, title, pid, at_ms))
}

/// Recording a page keeps the chain and what the open row shows of the
/// process. If the open row is the browser's and the report has an address,
/// the open row shows that address afterwards.
pub proof fn law_page_keeps_chain(
    tracker: TrackerView,
    table: Seq<SegmentRow>,
    url: Seq<char>,
    title: Seq<char>,
    pid: u32,
    at_ms: i64,
)
    requires
        is_linked(table),
    ensures
        is_linked(page_recorded(table, url, title, pid, at_ms)),
        is_mirrored(tracker, table) ==> is_mirrored(
            tracker,
            page_recorded(table, url, title, pid, at_ms),
        ),
        table.len() > 0 && table.last().pid == Some(pid as i64) && url.len() > 0 ==> page_recorded(
            table,
            url,
            title,
            pid,
            at_ms,
        ).last().url == Some(url),
        url.len() == 0 || table.len() == 0 || table.last().pid != Some(pid as i64)
            ==> page_recorded(table, url, title, pid, at_ms) == table,
{
    let list = web_statements(latest(table), url, title, pid, at_ms);
    if url.len() == 0 || table.len() == 0 || table.last().pid != Some(pid as i64) {
    } else if lacks_page(table.last()) {
        let fill = StatementView::Fill { url, tab_title: title, pid };
        lemma_one_statement(table, fill);
        assert(list =~= seq![fill]);
        let after = after_statement(table, fill);
        assert(after.len() == table.len());
        assert forall|i: int| 0 <= i < after.len() - 1 implies #[trigger] is_joined(after, i) by {
            assert(is_joined(table, i));
            assert(after[i] == table[i]);
            assert(after[i + 1].start_ms == table[i + 1].start_ms);
        }
    } else if table.last().url == Some(url) {
    } else {
        let row = SegmentRow {
            start_ms: at_ms,
            end_ms: None,
            url: Some(url),
            tab_title: Some(title),
            ..table.last()
        };
        lemma_chain_grows(table, row);
        assert(list =~= seq![StatementView::Update { end_ms: at_ms }, StatementView::Insert(row)]);
    }
}

/// One turn of the tracker together with the writes that it asks for.
pub enum TrackerStep {
    Seed { now_ms: i64, last_input_ms: i64, app: Option<AppView> },
    Dispatch { event: TrackerEvent, now_ns: u64 },
    IdleCheck { now_ms: i64, last_input_ms: i64 },
    Foreground { app: Option<AppView>, at_ms: i64 },
    Close { now_ms: i64 },
}

/// The tracker and the table after a turn.
pub open spec fn after_step(tracker: TrackerView, table: Seq<SegmentRow>, step: TrackerStep) -> (
    TrackerView,
    Seq<SegmentRow>,
) {
    match step {
        TrackerStep::Seed { now_ms, last_input_ms, app } => {
            let (after, list) = seeded(tracker, now_ms, last_input_ms, app);
            (after, after_statements(table, list))
        },
        TrackerStep::Dispatch { event, now_ns } => {
            let (after, action) = dispatched(tracker, event, now_ns);
            match action {
                ActionView::WebUpdate { url, title, browser_pid, at_ms } => (
                    after,
                    page_recorded(table, url, title, browser_pid, at_ms),
                ),
                _ => (after, table),
            }
        },
        TrackerStep::IdleCheck { now_ms, last_input_ms } => {
            let (after, list) = idle_checked(tracker, now_ms, last_input_ms);
            (after, after_statements(table, list))
        },
        TrackerStep::Foreground { app, at_ms } => {
            let (after, list) = foreground_applied(tracker, app, at_ms);
            (after, after_statements(table, list))
        },
        TrackerStep::Close { now_ms } => {
            let (after, list) = closed(tracker, now_ms);
            (after, after_statements(table, list))
        },
    }
}

pub open spec fn after_steps(
    tracker: TrackerView,
    table: Seq<SegmentRow>,
    steps: Seq<TrackerStep>,
) -> (TrackerView, Seq<SegmentRow>)
    decreases steps.len(),
{
    if steps.len() == 0 {
        (tracker, table)
    } else {
        let (t, rows) = after_steps(tracker, table, steps.drop_last());
        after_step(t, rows, steps.last())
    }
}

/// Every turn keeps the chain. The first sample makes the open row show what
/// the tracker sees, and every turn keeps that.
pub proof fn law_step_keeps_chain(
    tracker: TrackerView,
    table: Seq<SegmentRow>,
    step: TrackerStep,
)
    requires
        is_linked(table),
    ensures
        is_linked(after_step(tracker, table, step).1),
        is_mirrored(tracker, table) || step is Seed ==> is_mirrored(
            after_step(tracker, table, step).0,
            after_step(tracker, table, step).1,
        ),
{
    let (after, rows) = after_step(tracker, table, step);
    match step {
        TrackerStep::Seed { now_ms, .. } => law_switch_keeps_chain(after, table, now_ms),
        TrackerStep::Dispatch { event, now_ns } => match dispatched(tracker, event, now_ns).1 {
            ActionView::WebUpdate { url, title, browser_pid, at_ms } => {
                law_page_keeps_chain(tracker, table, url, title, browser_pid, at_ms)
            },
            _ => {},
        },
        TrackerStep::IdleCheck { now_ms, last_input_ms } => {
            law_switch_keeps_chain(after, table, now_ms);
            law_switch_keeps_chain(after, table, last_input_ms);
        },
        TrackerStep::Foreground { at_ms, .. } => law_switch_keeps_chain(after, table, at_ms),
        TrackerStep::Close { now_ms } => law_switch_keeps_chain(after, table, now_ms),
    }
}

/// Whatever happens after the first sample, the recorded segments form a chain
/// without gaps whose open end shows the tracker's state and the pid and path
/// of its foreground process.
pub proof fn law_run_keeps_chain(
    tracker: TrackerView,
    table: Seq<SegmentRow>,
    steps: Seq<TrackerStep>,
)
    requires
        is_linked(table),
        steps.len() > 0,
        steps[0] is Seed,
    ensures
        is_linked(after_steps(tracker, table, steps).1),
        is_mirrored(
            after_steps(tracker, table, steps).0,
            after_steps(tracker, table, steps).1,
        ),
    decreases steps.len(),
{
    let before = steps.drop_last();
    let (t, rows) = after_steps(tracker, table, before);
    if before.len() > 0 {
        law_run_keeps_chain(tracker, table, before);
    } else {
        assert((t, rows) == (tracker, table));
    }
    law_step_keeps_chain(t, rows, steps.last());
}

/// A run that was closed leaves an open row that stands for being offline,
/// and a later run goes on from there: its first sample ends that row.
pub proof fn law_next_run_continues(
    tracker: TrackerView,
    table: Seq<SegmentRow>,
    closed_ms: i64,
    next: TrackerView,
    now_ms: i64,
    last_input_ms: i64,
    app: Option<AppView>,
)
    requires
        is_linked(table),
    ensures
        ({
            let offline = after_step(
                tracker,
                table,
                TrackerStep::Close { now_ms: closed_ms },
            ).1;
            let resumed = after_step(
                next,
                offline,
                TrackerStep::Seed { now_ms, last_input_ms, app },
            ).1;
            &&& is_linked(resumed)
            &&& event_of_code(offline.last().seg_state) == Some(EventType::Offline)
            &&& resumed.len() == offline.len() + 1
            &&& resumed[resumed.len() - 2] == (SegmentRow {
                end_ms: Some(now_ms),
                ..offline.last()
            })
        }),
{
    let offline = after_step(tracker, table, TrackerStep::Close { now_ms: closed_ms }).1;
    law_step_keeps_chain(tracker, table, TrackerStep::Close { now_ms: closed_ms });
    law_switch_keeps_chain(closed(tracker, closed_ms).0, table, closed_ms);
    let after = seeded(next, now_ms, last_input_ms, app).0;
    law_switch_keeps_chain(after, offline, now_ms);
    let first = StatementView::Update { end_ms: now_ms };
    let second = StatementView::Insert(opened_row(after.state, now_ms, after.app));
    lemma_two_statements(offline, first, second);
}

/// A page report that counts and has an address is what the open row shows
/// afterwards.
pub proof fn law_counted_report_is_recorded(
    tracker: TrackerView,
    table: Seq<SegmentRow>,
    report: WebReportInfo,
    now_ns: u64,
)
    requires
        is_linked(table),
        is_mirrored(tracker, table),
        report_counts(tracker, report),
        text_or_empty(opt_text(report.opt_url)).len() > 0,
    ensures
        after_step(
            tracker,
            table,
            TrackerStep::Dispatch { event: TrackerEvent::WebUpdate(report), now_ns },
        ).1.last().url == Some(text_or_empty(opt_text(report.opt_url))),
{
    law_page_keeps_chain(
        tracker,
        table,
        text_or_empty(opt_text(report.opt_url)),
        text_or_empty(opt_text(report.opt_title)),
        report.browser_pid,
        report.at_ms,
    );
}

/// A focused report of the foreground browser with an address is on the open
/// row afterwards: a row without an address, or with another one, then shows
/// the report's address and its title, which is empty only where the report has
/// none; a row with the same address is left as it was. A row without an
/// address is filled in place; for another address a row is added.
pub proof fn law_reported_page_is_on_the_open_row(
    tracker: TrackerView,
    table: Seq<SegmentRow>,
    report: WebReportInfo,
    now_ns: u64,
)
    requires
        table.len() > 0,
        report.is_focused && report.browser_pid != 0,
        tracker.app matches Some(a) && a.win_pid == report.browser_pid,
        table.last().pid == Some(report.browser_pid as i64),
        report.opt_url matches Some(url) && url@.len() > 0,
    ensures
        ({
            let (after, rows) = after_step(
                tracker,
                table,
                TrackerStep::Dispatch { event: TrackerEvent::WebUpdate(report), now_ns },
            );
            let url = report.opt_url->0@;
            let open = table.last();
            let is_bare = open.url matches Some(shown) ==> shown.len() == 0;
            &&& after == tracker
            &&& open.url == Some(url) ==> rows == table
            &&& open.url != Some(url) ==> {
                &&& rows.last().url == Some(url)
                &&& report.opt_title matches Some(title) ==> rows.last().tab_title == Some(title@)
                &&& report.opt_title is None ==> (rows.last().tab_title matches Some(title)
                    && title.len() == 0)
            }
            &&& is_bare ==> rows == table.drop_last().push(
                SegmentRow { url: rows.last().url, tab_title: rows.last().tab_title, ..open },
            )
            &&& !is_bare && open.url != Some(url) ==> rows == table.drop_last().push(
                SegmentRow { end_ms: Some(report.at_ms), ..open },
            ).push(
                SegmentRow {
                    start_ms: report.at_ms,
                    end_ms: None,
                    url: rows.last().url,
                    tab_title: rows.last().tab_title,
                    ..open
                },
            )
        }),
{
    let url = report.opt_url->0@;
    let title = text_or_empty(opt_text(report.opt_title));
    let pid = report.browser_pid;
    let open = table.last();
    if let Some(shown) = open.url {
        assert(shown.len() == 0 ==> shown =~= Seq::empty());
    }
    let list = web_statements(latest(table), url, title, pid, report.at_ms);
    if lacks_page(open) {
        let fill = StatementView::Fill { url, tab_title: title, pid };
        assert(list =~= seq![fill]);
        lemma_one_statement(table, fill);
    } else if open.url != Some(url) {
        let first = StatementView::Update { end_ms: report.at_ms };
        let second = StatementView::Insert(
            SegmentRow {
                start_ms: report.at_ms,
                end_ms: None,
                url: Some(url),
                tab_title: Some(title),
                ..open
            },
        );
        assert(list =~= seq![first, second]);
        lemma_two_statements(table, first, second);
    }
}

/// A report from a window that is not focused, without a pid, or from a
/// process that is not in the foreground changes nothing.
pub proof fn law_other_reports_are_dropped(
    tracker: TrackerView,
    table: Seq<SegmentRow>,
    report: WebReportInfo,
    now_ns: u64,
)
    requires
        !report.is_focused || report.browser_pid == 0 || (tracker.app is None || (
        tracker.app matches Some(a) && a.win_pid != report.browser_pid)),
    ensures
        after_step(
            tracker,
            table,
            TrackerStep::Dispatch { event: TrackerEvent::WebUpdate(report), now_ns },
        ) == (tracker, table),
{
}

/// The time that the ended segments of a table last, all together.
pub open spec fn ended_ms(table: Seq<SegmentRow>) -> int
    decreases table.len(),
{
    if table.len() == 0 {
        0
    } else {
        ended_ms(table.drop_last()) + match table.last().end_ms {
            Some(end_ms) => end_ms - table.last().start_ms,
            None => 0,
        }
    }
}

proof fn lemma_ended_prefix(table: Seq<SegmentRow>, n: int)
    requires
        is_linked(table),
        0 <= n < table.len(),
    ensures
        ended_ms(table.take(n)) == table[n].start_ms - table[0].start_ms,
    decreases n,
{
    if n > 0 {
        lemma_ended_prefix(table, n - 1);
        assert(table.take(n).drop_last() =~= table.take(n - 1));
        assert(is_joined(table, n - 1));
    }
}

/// All time since the first segment is accounted for: the ended segments
/// together last from the start of the first one to the start of the open one.
pub proof fn law_no_time_is_lost(table: Seq<SegmentRow>)
    requires
        is_linked(table),
        table.len() > 0,
    ensures
        ended_ms(table) == table.last().start_ms - table[0].start_ms,
{
    let n = table.len() - 1;
    lemma_ended_prefix(table, n);
    assert(table.drop_last() =~= table.take(n));
}

} // verus!
