//! The statements that record usage segments, and how stored rows read back.

use crate::bits::{low_32_bits, unsigned_bits};
use crate::common_struct::{AppSnapshotInfo, EventType, SegmentInfo, WebSnapshotInfo};
#[allow(unused_imports)]
use crate::common_struct::{
    event_code, event_of_code, opt_app, AppView, SegmentView, WebView,
};
use crate::text::{copy_or_empty, copy_text};
#[allow(unused_imports)]
use crate::text::{opt_text, text_or_empty};
use vstd::prelude::*;

verus! {

pub const SQL_CREATE_TABLE: &'static str =
    "CREATE TABLE IF NOT EXISTS usage_segments (
        id           INTEGER PRIMARY KEY AUTOINCREMENT,
        start_ms     INTEGER NOT NULL,
        end_ms       INTEGER,
        seg_state    INTEGER NOT NULL,
        pid          INTEGER,
        process_name TEXT,
        exe_path     TEXT,
        window_title TEXT,
        tab_title    TEXT,
        url          TEXT
    );";

pub const SQL_INSERT_USAGE_SEGMENT: &'static str =
    "INSERT INTO usage_segments
        (start_ms, end_ms, seg_state, pid, process_name, exe_path, window_title, tab_title, url)
        VALUES (?1, NULL, ?2, ?3, ?4, ?5, ?6, ?7, ?8)";

pub const SQL_UPDATE_USAGE_SEGMENT: &'static str =
    "UPDATE usage_segments SET end_ms = ? WHERE rowid = (SELECT MAX(rowid) FROM usage_segments);";

pub const SQL_UPDATE_FILL_LATEST_URL: &'static str =
    "UPDATE usage_segments SET url = ?1, tab_title = ?2
        WHERE rowid = (SELECT MAX(rowid) FROM usage_segments)
          AND pid = ?3
          AND (url IS NULL OR url = '')";

pub const SQL_SELECT_BY_TIME: &'static str =
    "SELECT id, start_ms, end_ms, seg_state, pid, process_name, exe_path, window_title, tab_title, url
        FROM usage_segments
        WHERE start_ms < ?1 AND (end_ms IS NULL OR end_ms > ?2) ORDER BY start_ms ASC";

pub const SQL_SELECT_LATEST: &'static str =
    "SELECT id, start_ms, end_ms, seg_state, pid, process_name, exe_path, window_title, tab_title, url
        FROM usage_segments
        WHERE rowid = (SELECT MAX(rowid) FROM usage_segments)";

/// A row of the table `usage_segments`, without the id that the database
/// gives it.
#[verifier::ext_equal]
pub struct SegmentRow {
    pub start_ms: i64,
    pub end_ms: Option<i64>,
    pub seg_state: i64,
    pub pid: Option<i64>,
    pub process_name: Option<Seq<char>>,
    pub exe_path: Option<Seq<char>>,
    pub window_title: Option<Seq<char>>,
    pub tab_title: Option<Seq<char>>,
    pub url: Option<Seq<char>>,
}

/// The values of a row to insert; its end stays open.
#[derive(Debug, Clone)]
pub struct NewSegment {
    pub start_ms: i64,
    pub seg_state: i64,
    pub pid: Option<i64>,
    pub process_name: Option<String>,
    pub exe_path: Option<String>,
    pub window_title: Option<String>,
    pub tab_title: Option<String>,
    pub url: Option<String>,
}

impl View for NewSegment {
    type V = SegmentRow;

    open spec fn view(&self) -> SegmentRow {
        SegmentRow {
            start_ms: self.start_ms,
            end_ms: None,
            seg_state: self.seg_state,
            pid: self.pid,
            process_name: opt_text(self.process_name),
            exe_path: opt_text(self.exe_path),
            window_title: opt_text(self.window_title),
            tab_title: opt_text(self.tab_title),
            url: opt_text(self.url),
        }
    }
}

/// A row as a query hands it out.
#[derive(Debug, Clone)]
pub struct UsageSegmentRowRaw {
    pub row_id: i64,
    pub seg_start: i64,
    pub seg_end: Option<i64>,
    pub seg_state: i64,
    pub pid: Option<i64>,
    pub process_name: Option<String>,
    pub exe_path: Option<String>,
    pub window_title: Option<String>,
    pub tab_title: Option<String>,
    pub url: Option<String>,
}

impl View for UsageSegmentRowRaw {
    type V = SegmentRow;

    open spec fn view(&self) -> SegmentRow {
        SegmentRow {
            start_ms: self.seg_start,
            end_ms: self.seg_end,
            seg_state: self.seg_state,
            pid: self.pid,
            process_name: opt_text(self.process_name),
            exe_path: opt_text(self.exe_path),
            window_title: opt_text(self.window_title),
            tab_title: opt_text(self.tab_title),
            url: opt_text(self.url),
        }
    }
}

/// A write to the table `usage_segments`.
#[derive(Debug, Clone)]
pub enum SegmentStatement {
    /// Ends the latest row.
    Update { end_ms: i64 },
    /// Adds a row.
    Insert(NewSegment),
    /// Sets the page of the latest row if it belongs to the process and has
    /// no page yet.
    Fill { url: String, tab_title: String, pid: u32 },
}

pub enum StatementView {
    Update { end_ms: i64 },
    Insert(SegmentRow),
    Fill { url: Seq<char>, tab_title: Seq<char>, pid: u32 },
}

impl View for SegmentStatement {
    type V = StatementView;

    open spec fn view(&self) -> StatementView {
        match self {
            SegmentStatement::Update { end_ms } => StatementView::Update { end_ms: *end_ms },
            SegmentStatement::Insert(row) => StatementView::Insert(row@),
            SegmentStatement::Fill { url, tab_title, pid } => StatementView::Fill {
                url: url@,
                tab_title: tab_title@,
                pid: *pid,
            },
        }
    }
}

pub open spec fn statements(list: Seq<SegmentStatement>) -> Seq<StatementView> {
    list.map_values(|s: SegmentStatement| s@)
}

impl SegmentStatement {
    /// The SQL text of the statement.
    pub fn sql(&self) -> (res: &'static str)
        ensures
            res@ == match self {
                SegmentStatement::Update { .. } => SQL_UPDATE_USAGE_SEGMENT@,
                SegmentStatement::Insert(_) => SQL_INSERT_USAGE_SEGMENT@,
                SegmentStatement::Fill { .. } => SQL_UPDATE_FILL_LATEST_URL@,
            },
    {
        match self {
            SegmentStatement::Update { .. } => SQL_UPDATE_USAGE_SEGMENT,
            SegmentStatement::Insert(_) => SQL_INSERT_USAGE_SEGMENT,
            SegmentStatement::Fill { .. } => SQL_UPDATE_FILL_LATEST_URL,
        }
    }
}

/// Whether a row still has no page.
pub open spec fn lacks_page(row: SegmentRow) -> bool {
    row.url is None || row.url == Some(Seq::<char>::empty())
}

/// Whether a fill statement for the process `pid` sets the page of `row`.
pub open spec fn takes_fill(row: SegmentRow, pid: u32) -> bool {
    row.pid == Some(pid as i64) && lacks_page(row)
}

/// The rows of `usage_segments`, in the order of their ids, after the SQL text
/// of a statement was executed. The latest row is the one with the largest id.
pub open spec fn after_statement(table: Seq<SegmentRow>, statement: StatementView) -> Seq<
    SegmentRow,
> {
    match statement {
        StatementView::Insert(row) => table.push(row),
        StatementView::Update { end_ms } => if table.len() == 0 {
            table
        } else {
            table.drop_last().push(SegmentRow { end_ms: Some(end_ms), ..table.last() })
        },
        StatementView::Fill { url, tab_title, pid } => if table.len() > 0 && takes_fill(
            table.last(),
            pid,
        ) {
            table.drop_last().push(
                SegmentRow { url: Some(url), tab_title: Some(tab_title), ..table.last() },
            )
        } else {
            table
        },
    }
}

pub open spec fn after_statements(table: Seq<SegmentRow>, list: Seq<StatementView>) -> Seq<
    SegmentRow,
>
    decreases list.len(),
{
    if list.len() == 0 {
        table
    } else {
        after_statements(after_statement(table, list[0]), list.skip(1))
    }
}

/// The row that opens a segment.
pub open spec fn opened_row(state: EventType, start_ms: i64, app: Option<AppView>) -> SegmentRow {
    match app {
        Some(a) => SegmentRow {
            start_ms,
            end_ms: None,
            seg_state: event_code(state),
            pid: Some(a.win_pid as i64),
            process_name: Some(a.process_name),
            exe_path: Some(a.exe_path),
            window_title: Some(a.window_title),
            tab_title: match a.web {
                Some(w) => Some(w.tab_title),
                None => None,
            },
            url: match a.web {
                Some(w) => Some(w.url),
                None => None,
            },
        },
        None => SegmentRow {
            start_ms,
            end_ms: None,
            seg_state: event_code(state),
            pid: None,
            process_name: None,
            exe_path: None,
            window_title: None,
            tab_title: None,
            url: None,
        },
    }
}

/// The statement that fills in the page of a snapshot, if it has one.
pub open spec fn fill_of(app: Option<AppView>) -> Option<StatementView> {
    match app {
        Some(a) => match a.web {
            Some(w) => Some(
                StatementView::Fill { url: w.url, tab_title: w.tab_title, pid: a.win_pid },
            ),
            None => None,
        },
        None => None,
    }
}

/// What a page report does, given the latest row. It is dropped if it has no
/// address or the latest row is not the browser's; it fills a row that has no
/// page yet; it changes nothing if the row already shows the address; and else
/// it ends the row and opens one like it for the new page.
pub open spec fn web_statements(
    latest: Option<SegmentRow>,
    url: Seq<char>,
    title: Seq<char>,
    pid: u32,
    at_ms: i64,
) -> Seq<StatementView> {
    if url.len() == 0 || latest is None || latest->0.pid != Some(pid as i64) {
        Seq::empty()
    } else if lacks_page(latest->0) {
        seq![StatementView::Fill { url, tab_title: title, pid }]
    } else if latest->0.url == Some(url) {
        Seq::empty()
    } else {
        seq![
            StatementView::Update { end_ms: at_ms },
            StatementView::Insert(
                SegmentRow {
                    start_ms: at_ms,
                    end_ms: None,
                    url: Some(url),
                    tab_title: Some(title),
                    ..latest->0
                },
            ),
        ]
    }
}

pub open spec fn opt_row(row: Option<UsageSegmentRowRaw>) -> Option<SegmentRow> {
    match row {
        Some(r) => Some(r@),
        None => None,
    }
}

/// The texts of the statements, on which the model of the table rests.
pub proof fn law_sql_texts()
    ensures
        SQL_INSERT_USAGE_SEGMENT@ == "INSERT INTO usage_segments
        (start_ms, end_ms, seg_state, pid, process_name, exe_path, window_title, tab_title, url)
        VALUES (?1, NULL, ?2, ?3, ?4, ?5, ?6, ?7, ?8)"@,
        SQL_UPDATE_USAGE_SEGMENT@
            == "UPDATE usage_segments SET end_ms = ? WHERE rowid = (SELECT MAX(rowid) FROM usage_segments);"@,
        SQL_UPDATE_FILL_LATEST_URL@ == "UPDATE usage_segments SET url = ?1, tab_title = ?2
        WHERE rowid = (SELECT MAX(rowid) FROM usage_segments)
          AND pid = ?3
          AND (url IS NULL OR url = '')"@,
        SQL_SELECT_BY_TIME@
            == "SELECT id, start_ms, end_ms, seg_state, pid, process_name, exe_path, window_title, tab_title, url
        FROM usage_segments
        WHERE start_ms < ?1 AND (end_ms IS NULL OR end_ms > ?2) ORDER BY start_ms ASC"@,
        SQL_SELECT_LATEST@
            == "SELECT id, start_ms, end_ms, seg_state, pid, process_name, exe_path, window_title, tab_title, url
        FROM usage_segments
        WHERE rowid = (SELECT MAX(rowid) FROM usage_segments)"@,
{
}

/// What the statements do to the table: an insert adds its row at the end, an
/// update sets the end of the latest row, and a fill sets address and title of
/// the latest row if that is the process's and has no address yet. Nothing
/// else changes.
pub proof fn law_statements_touch_the_latest_row(
    table: Seq<SegmentRow>,
    row: SegmentRow,
    end_ms: i64,
    url: Seq<char>,
    tab_title: Seq<char>,
    pid: u32,
)
    ensures
        after_statement(table, StatementView::Insert(row)) == table + seq![row],
        table.len() == 0 ==> after_statement(table, StatementView::Update { end_ms }) == table
            && after_statement(table, StatementView::Fill { url, tab_title, pid }) == table,
        table.len() > 0 ==> {
            let last = table.len() - 1;
            let open = table[last];
            &&& after_statement(table, StatementView::Update { end_ms }) == table.update(
                last,
                SegmentRow { end_ms: Some(end_ms), ..open },
            )
            &&& after_statement(table, StatementView::Fill { url, tab_title, pid }) == (if open.pid
                == Some(pid as i64) && (open.url matches Some(shown) ==> shown.len() == 0) {
                table.update(
                    last,
                    SegmentRow { url: Some(url), tab_title: Some(tab_title), ..open },
                )
            } else {
                table
            })
        },
{
    assert(after_statement(table, StatementView::Insert(row)) =~= table + seq![row]);
    if table.len() > 0 {
        let last = table.len() - 1;
        let open = table[last];
        assert(after_statement(table, StatementView::Update { end_ms }) =~= table.update(
            last,
            SegmentRow { end_ms: Some(end_ms), ..open },
        ));
        if let Some(shown) = open.url {
            assert(shown.len() == 0 ==> shown =~= Seq::empty());
        }
        if takes_fill(open, pid) {
            assert(after_statement(table, StatementView::Fill { url, tab_title, pid })
                =~= table.update(
                last,
                SegmentRow { url: Some(url), tab_title: Some(tab_title), ..open },
            ));
        }
    }
}

/// What a page report does, given the latest row `open`: nothing without an
/// address, for another process or where the row shows the address; a row
/// without an address is filled with address and title; any other row is ended
/// at the time of the report, where a row opens that differs in its times, its
/// address and its title alone.
pub proof fn law_page_report_statements(
    open: SegmentRow,
    url: Seq<char>,
    title: Seq<char>,
    pid: u32,
    at_ms: i64,
)
    ensures
        web_statements(None, url, title, pid, at_ms).len() == 0,
        ({
            let list = web_statements(Some(open), url, title, pid, at_ms);
            let is_own = url.len() > 0 && open.pid == Some(pid as i64);
            let is_bare = open.url matches Some(shown) ==> shown.len() == 0;
            &&& !is_own ==> list.len() == 0
            &&& is_own && is_bare ==> list.len() == 1 && list[0] == (StatementView::Fill {
                url,
                tab_title: title,
                pid,
            })
            &&& is_own && !is_bare && open.url == Some(url) ==> list.len() == 0
            &&& is_own && !is_bare && open.url != Some(url) ==> {
                &&& list.len() == 2
                &&& list[0] == (StatementView::Update { end_ms: at_ms })
                &&& list[1] matches StatementView::Insert(row)
                &&& row.start_ms == at_ms && row.end_ms is None
                &&& row.url == Some(url) && row.tab_title == Some(title)
                &&& row.seg_state == open.seg_state && row.pid == open.pid
                &&& row.process_name == open.process_name && row.exe_path == open.exe_path
                &&& row.window_title == open.window_title
            }
        }),
{
    if let Some(shown) = open.url {
        assert(shown.len() == 0 ==> shown =~= Seq::empty());
    }
}

/// The page of a snapshot is filled in with its address, its title and the
/// snapshot's pid; without a page there is nothing to fill.
pub proof fn law_fill_carries_the_page(app: AppView)
    ensures
        fill_of(None) is None,
        app.web is None ==> fill_of(Some(app)) is None,
        app.web matches Some(w) ==> fill_of(Some(app)) == Some(
            StatementView::Fill { url: w.url, tab_title: w.tab_title, pid: app.win_pid },
        ),
{
}

/// The views of statements and of rows show each of their fields; a row to
/// insert has no end.
pub proof fn law_row_views(added: NewSegment, found: UsageSegmentRowRaw)
    ensures
        SegmentStatement::Insert(added)@ == StatementView::Insert(added@),
        added@.start_ms == added.start_ms && added@.end_ms is None,
        added@.seg_state == added.seg_state && added@.pid == added.pid,
        added@.process_name is Some <==> added.process_name is Some,
        added.process_name matches Some(s) ==> added@.process_name == Some(s@),
        added@.exe_path is Some <==> added.exe_path is Some,
        added.exe_path matches Some(s) ==> added@.exe_path == Some(s@),
        added@.window_title is Some <==> added.window_title is Some,
        added.window_title matches Some(s) ==> added@.window_title == Some(s@),
        added@.tab_title is Some <==> added.tab_title is Some,
        added.tab_title matches Some(s) ==> added@.tab_title == Some(s@),
        added@.url is Some <==> added.url is Some,
        added.url matches Some(s) ==> added@.url == Some(s@),
        found@.start_ms == found.seg_start && found@.end_ms == found.seg_end,
        found@.seg_state == found.seg_state && found@.pid == found.pid,
        found@.process_name is Some <==> found.process_name is Some,
        found.process_name matches Some(s) ==> found@.process_name == Some(s@),
        found@.exe_path is Some <==> found.exe_path is Some,
        found.exe_path matches Some(s) ==> found@.exe_path == Some(s@),
        found@.window_title is Some <==> found.window_title is Some,
        found.window_title matches Some(s) ==> found@.window_title == Some(s@),
        found@.tab_title is Some <==> found.tab_title is Some,
        found.tab_title matches Some(s) ==> found@.tab_title == Some(s@),
        found@.url is Some <==> found.url is Some,
        found.url matches Some(s) ==> found@.url == Some(s@),
{
}

/// The views of statements show each of their parts, one statement for one, and
/// a latest row is missing only where there is none.
pub proof fn law_statement_views(
    list: Seq<SegmentStatement>,
    i: int,
    end_ms: i64,
    url: String,
    tab_title: String,
    pid: u32,
    found: UsageSegmentRowRaw,
)
    requires
        0 <= i < list.len(),
    ensures
        statements(list).len() == list.len() && statements(list)[i] == list[i]@,
        (SegmentStatement::Update { end_ms })@ == (StatementView::Update { end_ms }),
        (SegmentStatement::Fill { url, tab_title, pid })@ == (StatementView::Fill {
            url: url@,
            tab_title: tab_title@,
            pid,
        }),
        opt_row(None) is None && opt_row(Some(found)) == Some(found@),
{
}

/// Turns what is to be recorded into statements.
#[derive(Debug, Clone, Copy)]
pub struct DbHandlerWriter {}

impl DbHandlerWriter {
    /// The statement that opens a segment.
    pub fn register_segment(
        &self,
        state: EventType,
        start_ms: i64,
        opt_info: &Option<AppSnapshotInfo>,
    ) -> (res: SegmentStatement)
        ensures
            res@ == StatementView::Insert(opened_row(state, start_ms, opt_app(*opt_info))),
            res matches SegmentStatement::Insert(row) && row.start_ms == start_ms && (opt_info matches
                Some(info) ==> {
                &&& row.pid == Some(info.win_pid as i64)
                &&& row.process_name matches Some(name) && name@ == info.process_name@
                &&& row.exe_path matches Some(path) && path@ == info.exe_path@
                &&& row.window_title matches Some(title) && title@ == info.window_title@
            }),
    {
        let seg_state = state.seg_state();
        match opt_info {
            Some(info) => {
                let (tab_title, url) = match &info.opt_web_info {
                    Some(web) => (Some(web.tab_title.clone()), Some(web.url.clone())),
                    None => (None, None),
                };
                SegmentStatement::Insert(
                    NewSegment {
                        start_ms,
                        seg_state,
                        pid: Some(info.win_pid as i64),
                        process_name: Some(info.process_name.clone()),
                        exe_path: Some(info.exe_path.clone()),
                        window_title: Some(info.window_title.clone()),
                        tab_title,
                        url,
                    },
                )
            },
            None => SegmentStatement::Insert(
                NewSegment {
                    start_ms,
                    seg_state,
                    pid: None,
                    process_name: None,
                    exe_path: None,
                    window_title: None,
                    tab_title: None,
                    url: None,
                },
            ),
        }
    }

    /// The statement that ends the latest segment.
    pub fn update_segment(&self, end_ms: i64) -> (res: SegmentStatement)
        ensures
            res@ == (StatementView::Update { end_ms }),
    {
        SegmentStatement::Update { end_ms }
    }

    /// The statement that fills the page of `opt_info` onto the latest row;
    /// none where there is no app or no page to fill.
    pub fn fill_last_segment_web(&self, opt_info: &Option<AppSnapshotInfo>) -> (res: Option<
        SegmentStatement,
    >)
        ensures
            match res {
                Some(statement) => fill_of(opt_app(*opt_info)) == Some(statement@),
                None => fill_of(opt_app(*opt_info)) is None,
            },
    {
        match opt_info {
            Some(info) => match &info.opt_web_info {
                Some(web) => Some(
                    SegmentStatement::Fill {
                        url: web.url.clone(),
                        tab_title: web.tab_title.clone(),
                        pid: info.win_pid,
                    },
                ),
                None => None,
            },
            None => None,
        }
    }

    /// Whether a fill statement that changed `cnt_fill` rows filled one.
    pub fn was_filled(&self, cnt_fill: usize) -> (res: bool)
        ensures
            res == (cnt_fill == 1),
    {
        cnt_fill == 1
    }

    /// The statements for a page report, given the latest row.
    pub fn apply_web_update(
        &self,
        opt_latest: &Option<UsageSegmentRowRaw>,
        str_url: &String,
        str_title: &String,
        num_pid: u32,
        at_ms: i64,
    ) -> (res: Vec<SegmentStatement>)
        ensures
            statements(res@) == web_statements(
                opt_row(*opt_latest),
                str_url@,
                str_title@,
                num_pid,
                at_ms,
            ),
    {
        let mut vec_ret: Vec<SegmentStatement> = Vec::new();
        let ghost expected = web_statements(
            opt_row(*opt_latest),
            str_url@,
            str_title@,
            num_pid,
            at_ms,
        );
        if !str_url.as_str().is_empty() {
            if let Some(latest) = opt_latest {
                let flag_same_pid = match latest.pid {
                    Some(pid) => pid == num_pid as i64,
                    None => false,
                };
                let flag_same_url = match &latest.url {
                    Some(url) => *url == *str_url,
                    None => false,
                };
                let flag_no_page = match &latest.url {
                    Some(url) => url.as_str().is_empty(),
                    None => true,
                };
                assert(flag_no_page == lacks_page(latest@)) by {
                    if let Some(url) = latest.url {
                        assert(url@.len() == 0 ==> url@ =~= Seq::empty());
                    }
                }
                if flag_same_pid && flag_no_page {
                    vec_ret.push(
                        SegmentStatement::Fill {
                            url: str_url.clone(),
                            tab_title: str_title.clone(),
                            pid: num_pid,
                        },
                    );
                } else if flag_same_pid && !flag_same_url {
                    vec_ret.push(SegmentStatement::Update { end_ms: at_ms });
                    vec_ret.push(
                        SegmentStatement::Insert(
                            NewSegment {
                                start_ms: at_ms,
                                seg_state: latest.seg_state,
                                pid: latest.pid,
                                process_name: copy_text(&latest.process_name),
                                exe_path: copy_text(&latest.exe_path),
                                window_title: copy_text(&latest.window_title),
                                tab_title: Some(str_title.clone()),
                                url: Some(str_url.clone()),
                            },
                        ),
                    );
                }
            }
        }
        assert(statements(vec_ret@) =~= expected);
        vec_ret
    }
}

/// The pid that a stored number stands for: its low 32 bits.
pub open spec fn stored_pid(pid: Option<i64>) -> u32 {
    match pid {
        Some(p) => (p as int % 0x1_0000_0000) as u32,
        None => 0,
    }
}

/// The page that a row shows; none without an address.
pub open spec fn stored_page(row: SegmentRow) -> Option<WebView> {
    match row.url {
        Some(url) => if url.len() > 0 {
            Some(WebView { tab_title: text_or_empty(row.tab_title), url })
        } else {
            None
        },
        None => None,
    }
}

/// The app that a row shows.
pub open spec fn stored_app(row: SegmentRow) -> AppView {
    AppView {
        win_pid: stored_pid(row.pid),
        process_name: text_or_empty(row.process_name),
        exe_path: text_or_empty(row.exe_path),
        window_title: text_or_empty(row.window_title),
        web: stored_page(row),
    }
}

/// The segment that a row stands for: none if its state is unknown. A segment
/// without an end lasts until the end of the window that was asked for.
pub open spec fn stored_segment(row_id: i64, row: SegmentRow, window_end_ms: i64) -> Option<
    SegmentView,
> {
    match event_of_code(row.seg_state) {
        Some(event_type) => Some(
            SegmentView {
                row_id,
                event_type,
                start_ms: row.start_ms,
                end_ms: match row.end_ms {
                    Some(end_ms) => end_ms,
                    None => window_end_ms,
                },
                app: stored_app(row),
            },
        ),
        None => None,
    }
}

/// The segments that rows stand for, in order.
pub open spec fn stored_segments(rows: Seq<UsageSegmentRowRaw>, window_end_ms: i64) -> Seq<
    SegmentView,
>
    decreases rows.len(),
{
    if rows.len() == 0 {
        Seq::empty()
    } else {
        let before = stored_segments(rows.drop_last(), window_end_ms);
        match stored_segment(rows.last().row_id, rows.last()@, window_end_ms) {
            Some(segment) => before.push(segment),
            None => before,
        }
    }
}

/// Whether the select statement picks a row, given its parameters in order.
pub open spec fn is_selected(row: SegmentRow, params: (i64, i64)) -> bool {
    row.start_ms < params.0 && (row.end_ms matches Some(end_ms) ==> end_ms > params.1)
}

/// A page as it reads back: one without an address is none.
pub open spec fn addressed_page(web: Option<WebView>) -> Option<WebView> {
    match web {
        Some(w) => if w.url.len() > 0 {
            Some(w)
        } else {
            None
        },
        None => None,
    }
}

/// A row that opened a segment reads back as that segment, with the end of
/// the window for its end. A page without an address reads back as none, and a
/// missing app as one without a pid and without any text; all else reads back
/// as it was written.
pub proof fn law_opened_row_reads_back(
    state: EventType,
    start_ms: i64,
    app: Option<AppView>,
    row_id: i64,
    window_end_ms: i64,
)
    ensures
        stored_segment(row_id, opened_row(state, start_ms, app), window_end_ms) == Some(
            SegmentView {
                row_id,
                event_type: state,
                start_ms,
                end_ms: window_end_ms,
                app: match app {
                    Some(a) => AppView { web: addressed_page(a.web), ..a },
                    None => AppView {
                        win_pid: 0,
                        process_name: Seq::empty(),
                        exe_path: Seq::empty(),
                        window_title: Seq::empty(),
                        web: None,
                    },
                },
            },
        ),
{
    match app {
        Some(a) => {
            assert(stored_app(opened_row(state, start_ms, app)) =~= (AppView {
                web: addressed_page(a.web),
                ..a
            }));
        },
        None => {},
    }
}

/// A row reads back whole, whether it is open or ended: its id, its times, its
/// state and every text as they are, a missing text as the empty one, and the
/// low 32 bits of its pid. An open row ends with the window, and only a row
/// with an address shows a page. A row of another state than the four does not
/// read back.
pub proof fn law_row_reads_back_whole(row_id: i64, row: SegmentRow, window_end_ms: i64)
    ensures
        stored_segment(row_id, row, window_end_ms) is Some <==> 0 <= row.seg_state <= 3,
        stored_segment(row_id, row, window_end_ms) matches Some(segment) ==> {
            let app = segment.app;
            &&& segment.row_id == row_id && segment.start_ms == row.start_ms
            &&& row.end_ms matches Some(end_ms) ==> segment.end_ms == end_ms
            &&& row.end_ms is None ==> segment.end_ms == window_end_ms
            &&& segment.event_type is Active <==> row.seg_state == 0
            &&& segment.event_type is Idle <==> row.seg_state == 1
            &&& segment.event_type is Online <==> row.seg_state == 2
            &&& segment.event_type is Offline <==> row.seg_state == 3
            &&& row.pid matches Some(pid) ==> (pid - app.win_pid) % 0x1_0000_0000 == 0
            &&& row.pid is None ==> app.win_pid == 0
            &&& row.process_name matches Some(name) ==> app.process_name == name
            &&& row.process_name is None ==> app.process_name.len() == 0
            &&& row.exe_path matches Some(path) ==> app.exe_path == path
            &&& row.exe_path is None ==> app.exe_path.len() == 0
            &&& row.window_title matches Some(title) ==> app.window_title == title
            &&& row.window_title is None ==> app.window_title.len() == 0
            &&& app.web is Some <==> (row.url matches Some(url) && url.len() > 0)
            &&& app.web matches Some(page) ==> {
                &&& row.url == Some(page.url)
                &&& row.tab_title matches Some(title) ==> page.tab_title == title
                &&& row.tab_title is None ==> page.tab_title.len() == 0
            }
        },
{
}

/// A segment that was opened and then ended reads back as it was written, with
/// that end, whatever window is asked for.
pub proof fn law_ended_row_reads_back(
    state: EventType,
    start_ms: i64,
    app: AppView,
    end_ms: i64,
    row_id: i64,
    window_end_ms: i64,
)
    ensures
        ({
            let row = SegmentRow {
                end_ms: Some(end_ms),
                ..opened_row(state, start_ms, Some(app))
            };
            &&& stored_segment(row_id, row, window_end_ms) matches Some(segment)
            &&& segment.row_id == row_id && segment.event_type == state
            &&& segment.start_ms == start_ms && segment.end_ms == end_ms
            &&& segment.app.win_pid == app.win_pid
            &&& segment.app.process_name == app.process_name
            &&& segment.app.exe_path == app.exe_path
            &&& segment.app.window_title == app.window_title
            &&& app.web matches Some(w) ==> (w.url.len() > 0 ==> segment.app.web == app.web)
            &&& app.web matches Some(w) ==> (w.url.len() == 0 ==> segment.app.web is None)
            &&& app.web is None ==> segment.app.web is None
        }),
{
}

/// The window of a row's life does not change what it shows: two rows that
/// differ in their times alone show the same state and the same app.
pub proof fn law_times_do_not_change_the_app(
    row_id: i64,
    a: SegmentRow,
    b: SegmentRow,
    a_window_ms: i64,
    b_window_ms: i64,
)
    requires
        b == (SegmentRow { start_ms: b.start_ms, end_ms: b.end_ms, ..a }),
    ensures
        stored_segment(row_id, a, a_window_ms) is Some <==> stored_segment(
            row_id,
            b,
            b_window_ms,
        ) is Some,
        stored_segment(row_id, a, a_window_ms) matches Some(x) ==> (stored_segment(
            row_id,
            b,
            b_window_ms,
        ) matches Some(y) && x.app == y.app && x.event_type == y.event_type),
{
}

/// Rows read back one by one and in order: no row depends on another, and each
/// gives its segment or none.
pub proof fn law_rows_read_back_one_by_one(
    a: Seq<UsageSegmentRowRaw>,
    b: Seq<UsageSegmentRowRaw>,
    row: UsageSegmentRowRaw,
    window_end_ms: i64,
)
    ensures
        stored_segments(Seq::empty(), window_end_ms).len() == 0,
        stored_segments(seq![row], window_end_ms) == (match stored_segment(
            row.row_id,
            row@,
            window_end_ms,
        ) {
            Some(segment) => seq![segment],
            None => Seq::empty(),
        }),
        stored_segments(a + b, window_end_ms) == stored_segments(a, window_end_ms)
            + stored_segments(b, window_end_ms),
    decreases b.len(),
{
    assert(seq![row].drop_last() =~= Seq::empty());
    assert(seq![row].last() == row);
    assert(stored_segments(Seq::empty(), window_end_ms) =~= Seq::empty());
    assert(stored_segments(seq![row], window_end_ms) =~= (match stored_segment(
        row.row_id,
        row@,
        window_end_ms,
    ) {
        Some(segment) => seq![segment],
        None => Seq::empty(),
    }));
    if b.len() == 0 {
        assert(a + b =~= a);
        assert(stored_segments(a + b, window_end_ms) =~= stored_segments(a, window_end_ms)
            + stored_segments(b, window_end_ms));
    } else {
        law_rows_read_back_one_by_one(a, b.drop_last(), row, window_end_ms);
        assert((a + b).drop_last() =~= a + b.drop_last());
        assert((a + b).last() == b.last());
        assert(stored_segments(a + b, window_end_ms) =~= stored_segments(a, window_end_ms)
            + stored_segments(b, window_end_ms));
    }
}

/// A query returns only segments that overlap the window, and misses none
/// that does.
pub proof fn law_selected_rows_overlap(
    row_id: i64,
    row: SegmentRow,
    start_ms: i64,
    end_ms: i64,
)
    requires
        start_ms < end_ms,
        event_of_code(row.seg_state) is Some,
    ensures
        stored_segment(row_id, row, end_ms) matches Some(segment) && (is_selected(
            row,
            (end_ms, start_ms),
        ) <==> segment.start_ms < end_ms && segment.end_ms > start_ms),
{
}

/// Whether rows come in the order of their start.
pub open spec fn rows_in_order(rows: Seq<UsageSegmentRowRaw>) -> bool {
    forall|i: int, j: int|
        0 <= i <= j < rows.len() ==> #[trigger] rows[i].seg_start <= #[trigger] rows[j].seg_start
}

/// Whether segments come in the order of their start.
pub open spec fn segments_in_order(found: Seq<SegmentView>) -> bool {
    forall|i: int, j: int|
        0 <= i <= j < found.len() ==> #[trigger] found[i].start_ms <= #[trigger] found[j].start_ms
}

proof fn lemma_order_and_bound(rows: Seq<UsageSegmentRowRaw>, window_end_ms: i64)
    requires
        rows_in_order(rows),
    ensures
        segments_in_order(stored_segments(rows, window_end_ms)),
        forall|i: int|
            0 <= i < stored_segments(rows, window_end_ms).len()
                ==> #[trigger] stored_segments(rows, window_end_ms)[i].start_ms
                <= rows.last().seg_start,
    decreases rows.len(),
{
    if rows.len() > 0 {
        let init = rows.drop_last();
        lemma_order_and_bound(init, window_end_ms);
        assert(rows[rows.len() - 1] == rows.last());
        if init.len() > 0 {
            assert(init.last() == rows[rows.len() - 2]);
        }
    }
}

/// The segments of rows that are ordered by their start, as the select
/// statement hands them out, are ordered so too.
pub proof fn law_order_is_kept(rows: Seq<UsageSegmentRowRaw>, window_end_ms: i64)
    requires
        rows_in_order(rows),
    ensures
        segments_in_order(stored_segments(rows, window_end_ms)),
{
    lemma_order_and_bound(rows, window_end_ms);
}

/// Turns query results into segments.
#[derive(Debug, Clone, Copy)]
pub struct DbHandlerReader {}

impl DbHandlerReader {
    /// The parameters of the select statement for a window of time, in order.
    pub fn window_params(&self, start_ms: i64, end_ms: i64) -> (res: (i64, i64))
        ensures
            res == (end_ms, start_ms),
            forall|row: SegmentRow| #[trigger]
                is_selected(row, res) <==> row.start_ms < end_ms && (row.end_ms matches Some(e)
                    ==> e > start_ms),
    {
        (end_ms, start_ms)
    }

    /// The segments that the selected rows stand for. Rows of an unknown state
    /// are left out.
    pub fn query_by_time(&self, end_ms: i64, rows: &Vec<UsageSegmentRowRaw>) -> (res: Vec<
        SegmentInfo,
    >)
        ensures
            res@.map_values(|s: SegmentInfo| s@) == stored_segments(rows@, end_ms),
    {
        let mut vec_ret: Vec<SegmentInfo> = Vec::new();
        let mut i: usize = 0;
        assert(rows@.take(0) =~= Seq::empty());
        assert(vec_ret@.map_values(|s: SegmentInfo| s@) =~= Seq::empty());
        while i < rows.len()
            invariant
                i <= rows@.len(),
                vec_ret@.map_values(|s: SegmentInfo| s@) == stored_segments(
                    rows@.take(i as int),
                    end_ms,
                ),
            decreases rows@.len() - i,
        {
            let row = &rows[i];
            let ghost before = vec_ret@;
            proof {
                assert(rows@.take(i + 1).drop_last() =~= rows@.take(i as int));
                assert(rows@.take(i + 1).last() == rows@[i as int]);
            }
            if let Some(event_type) = EventType::from_seg_state(row.seg_state) {
                let opt_web_info = match &row.url {
                    Some(url) => if !url.as_str().is_empty() {
                        Some(
                            WebSnapshotInfo {
                                tab_title: copy_or_empty(&row.tab_title),
                                url: url.clone(),
                            },
                        )
                    } else {
                        None
                    },
                    None => None,
                };
                let win_pid: u32 = match row.pid {
                    Some(pid) => low_32_bits(unsigned_bits(pid)),
                    None => 0,
                };
                let raw_end_ms: i64 = match row.seg_end {
                    Some(seg_end) => seg_end,
                    None => end_ms,
                };
                let segment = SegmentInfo {
                    row_id: row.row_id,
                    event_type,
                    start_ms: row.seg_start,
                    end_ms: raw_end_ms,
                    app_snapshot_info: AppSnapshotInfo {
                        win_pid,
                        process_name: copy_or_empty(&row.process_name),
                        exe_path: copy_or_empty(&row.exe_path),
                        window_title: copy_or_empty(&row.window_title),
                        opt_web_info,
                    },
                };
                assert(Some(segment@) == stored_segment(row.row_id, row@, end_ms));
                vec_ret.push(segment);
                assert(vec_ret@.map_values(|s: SegmentInfo| s@) =~= before.map_values(
                    |s: SegmentInfo| s@,
                ).push(segment@));
            }
            i = i + 1;
        }
        assert(rows@.take(i as int) =~= rows@);
        vec_ret
    }
}

} // verus!
