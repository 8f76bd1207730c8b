use hourglass::common_struct::{AppSnapshotInfo, EventType, HgConfig, SegmentInfo, WebSnapshotInfo};
use hourglass::db_handler::{
    DbHandlerReader, DbHandlerWriter, SegmentStatement, UsageSegmentRowRaw, SQL_CREATE_TABLE,
    SQL_SELECT_BY_TIME, SQL_SELECT_LATEST,
};
use hourglass::tracker::UserTracker;
use rusqlite::Connection;

fn open() -> Connection {
    let conn = Connection::open_in_memory().unwrap();
    conn.execute_batch(SQL_CREATE_TABLE).unwrap();
    conn
}

fn execute(conn: &Connection, statement: &SegmentStatement) -> usize {
    let sql = statement.sql();
    match statement {
        SegmentStatement::Update { end_ms } => conn.execute(sql, (end_ms,)).unwrap(),
        SegmentStatement::Insert(row) => conn
            .execute(
                sql,
                (
                    row.start_ms,
                    row.seg_state,
                    row.pid,
                    row.process_name.as_deref(),
                    row.exe_path.as_deref(),
                    row.window_title.as_deref(),
                    row.tab_title.as_deref(),
                    row.url.as_deref(),
                ),
            )
            .unwrap(),
        SegmentStatement::Fill { url, tab_title, pid } => {
            conn.execute(sql, (url.as_str(), tab_title.as_str(), *pid)).unwrap()
        }
    }
}

fn execute_all(conn: &Connection, list: &[SegmentStatement]) {
    for statement in list {
        execute(conn, statement);
    }
}

fn raw_row(row: &rusqlite::Row) -> rusqlite::Result<UsageSegmentRowRaw> {
    Ok(UsageSegmentRowRaw {
        row_id: row.get(0)?,
        seg_start: row.get(1)?,
        seg_end: row.get(2)?,
        seg_state: row.get(3)?,
        pid: row.get(4)?,
        process_name: row.get(5)?,
        exe_path: row.get(6)?,
        window_title: row.get(7)?,
        tab_title: row.get(8)?,
        url: row.get(9)?,
    })
}

fn select(conn: &Connection, start_ms: i64, end_ms: i64) -> Vec<SegmentInfo> {
    let reader = DbHandlerReader {};
    let params = reader.window_params(start_ms, end_ms);
    let mut statement = conn.prepare(SQL_SELECT_BY_TIME).unwrap();
    let rows: Vec<UsageSegmentRowRaw> =
        statement.query_map(params, raw_row).unwrap().map(|r| r.unwrap()).collect();
    reader.query_by_time(end_ms, &rows)
}

fn latest(conn: &Connection) -> Option<UsageSegmentRowRaw> {
    let mut statement = conn.prepare(SQL_SELECT_LATEST).unwrap();
    let mut rows = statement.query_map([], raw_row).unwrap();
    rows.next().map(|r| r.unwrap())
}

fn spans(list: &[SegmentInfo]) -> Vec<(i64, i64, EventType, u32)> {
    list.iter().map(|s| (s.start_ms, s.end_ms, s.event_type, s.app_snapshot_info.win_pid)).collect()
}

fn app(win_pid: u32, web: Option<(&str, &str)>) -> Option<AppSnapshotInfo> {
    Some(AppSnapshotInfo {
        win_pid,
        process_name: "browser.exe".to_string(),
        exe_path: "C:\\browser.exe".to_string(),
        window_title: "window".to_string(),
        opt_web_info: web.map(|(tab_title, url)| WebSnapshotInfo {
            tab_title: tab_title.to_string(),
            url: url.to_string(),
        }),
    })
}

fn raw(seg_state: i64, seg_end: Option<i64>, pid: Option<i64>, url: Option<&str>) -> UsageSegmentRowRaw {
    UsageSegmentRowRaw {
        row_id: 5,
        seg_start: 10,
        seg_end,
        seg_state,
        pid,
        process_name: None,
        exe_path: None,
        window_title: None,
        tab_title: None,
        url: url.map(|s| s.to_string()),
    }
}

#[test]
fn a_registered_segment_reads_back() {
    let conn = open();
    let writer = DbHandlerWriter {};
    let info = app(u32::MAX, Some(("tab", "https://a.example")));
    execute(&conn, &writer.register_segment(EventType::Idle, 1000, &info));
    let found = select(&conn, 500, 2000);
    assert_eq!(found.len(), 1);
    assert_eq!(spans(&found), vec![(1000, 2000, EventType::Idle, u32::MAX)]);
    let shown = &found[0].app_snapshot_info;
    assert_eq!(shown.process_name, "browser.exe");
    assert_eq!(shown.exe_path, "C:\\browser.exe");
    assert_eq!(shown.window_title, "window");
    let web = shown.opt_web_info.as_ref().unwrap();
    assert_eq!((web.tab_title.as_str(), web.url.as_str()), ("tab", "https://a.example"));
}

#[test]
fn a_missing_app_reads_back_empty() {
    let conn = open();
    execute(&conn, &DbHandlerWriter {}.register_segment(EventType::Offline, 7, &None));
    let row = latest(&conn).unwrap();
    assert_eq!((row.pid, row.process_name, row.exe_path), (None, None, None));
    assert_eq!((row.window_title, row.tab_title, row.url), (None, None, None));
    let found = select(&conn, 0, 8);
    assert_eq!(spans(&found), vec![(7, 8, EventType::Offline, 0)]);
    assert_eq!(found[0].app_snapshot_info.process_name, "");
    assert!(found[0].app_snapshot_info.opt_web_info.is_none());
}

#[test]
fn a_page_without_an_address_does_not_read_back() {
    let conn = open();
    execute(&conn, &DbHandlerWriter {}.register_segment(EventType::Active, 1, &app(3, Some(("tab", "")))));
    let row = latest(&conn).unwrap();
    assert_eq!((row.tab_title.as_deref(), row.url.as_deref()), (Some("tab"), Some("")));
    assert!(select(&conn, 0, 9)[0].app_snapshot_info.opt_web_info.is_none());
}

#[test]
fn only_the_latest_segment_is_ended() {
    let conn = open();
    let writer = DbHandlerWriter {};
    assert_eq!(execute(&conn, &writer.update_segment(1)), 0);
    execute(&conn, &writer.register_segment(EventType::Active, 10, &None));
    execute(&conn, &writer.update_segment(20));
    execute(&conn, &writer.register_segment(EventType::Idle, 20, &None));
    execute(&conn, &writer.update_segment(35));
    assert_eq!(
        spans(&select(&conn, 0, 100)),
        vec![(10, 20, EventType::Active, 0), (20, 35, EventType::Idle, 0)]
    );
}

#[test]
fn windows_select_overlapping_segments() {
    let conn = open();
    let writer = DbHandlerWriter {};
    for start in [10, 20, 30] {
        execute(&conn, &writer.update_segment(start));
        execute(&conn, &writer.register_segment(EventType::Active, start, &None));
    }
    assert_eq!(spans(&select(&conn, 0, 10)), vec![]);
    assert_eq!(spans(&select(&conn, 0, 11)), vec![(10, 20, EventType::Active, 0)]);
    assert_eq!(spans(&select(&conn, 20, 30)), vec![(20, 30, EventType::Active, 0)]);
    assert_eq!(
        spans(&select(&conn, 19, 31)),
        vec![
            (10, 20, EventType::Active, 0),
            (20, 30, EventType::Active, 0),
            (30, 31, EventType::Active, 0)
        ]
    );
}

#[test]
fn rows_are_converted() {
    let reader = DbHandlerReader {};
    let rows = vec![
        raw(0, Some(15), Some(-1), Some("")),
        raw(4, None, Some(1), None),
        raw(-1, None, Some(1), None),
        raw(2, None, Some(0x1_0000_0005), Some("u")),
        raw(3, None, None, None),
    ];
    let found = reader.query_by_time(99, &rows);
    assert_eq!(
        spans(&found),
        vec![
            (10, 15, EventType::Active, u32::MAX),
            (10, 99, EventType::Online, 5),
            (10, 99, EventType::Offline, 0)
        ]
    );
    assert!(found.iter().all(|s| s.row_id == 5));
    assert!(found[0].app_snapshot_info.opt_web_info.is_none());
    let web = found[1].app_snapshot_info.opt_web_info.as_ref().unwrap();
    assert_eq!((web.tab_title.as_str(), web.url.as_str()), ("", "u"));
    assert!(found[2].app_snapshot_info.opt_web_info.is_none());
}

#[test]
fn only_a_blank_row_of_the_process_is_filled() {
    let conn = open();
    let writer = DbHandlerWriter {};
    assert!(writer.fill_last_segment_web(&None).is_none());
    assert!(writer.fill_last_segment_web(&app(3, None)).is_none());
    execute(&conn, &writer.register_segment(EventType::Active, 10, &app(3, None)));
    let other = writer.fill_last_segment_web(&app(4, Some(("t", "u")))).unwrap();
    assert!(!writer.was_filled(execute(&conn, &other)));
    let fill = writer.fill_last_segment_web(&app(3, Some(("t", "u")))).unwrap();
    assert!(writer.was_filled(execute(&conn, &fill)));
    let row = latest(&conn).unwrap();
    assert_eq!((row.tab_title.as_deref(), row.url.as_deref()), (Some("t"), Some("u")));
    let again = writer.fill_last_segment_web(&app(3, Some(("t2", "u2")))).unwrap();
    assert!(!writer.was_filled(execute(&conn, &again)));
    assert_eq!(latest(&conn).unwrap().url.as_deref(), Some("u"));
}

fn report(conn: &Connection, url: &str, title: &str, pid: u32, at_ms: i64) -> usize {
    let list = DbHandlerWriter {}.apply_web_update(
        &latest(conn),
        &url.to_string(),
        &title.to_string(),
        pid,
        at_ms,
    );
    execute_all(conn, &list);
    list.len()
}

#[test]
fn pages_fill_then_fork() {
    let conn = open();
    assert_eq!(report(&conn, "u1", "t1", 3, 5), 0);
    execute(&conn, &DbHandlerWriter {}.register_segment(EventType::Idle, 10, &app(3, None)));
    assert_eq!(report(&conn, "", "t0", 3, 11), 0);
    assert_eq!(report(&conn, "u1", "t1", 9, 12), 0);
    assert_eq!(report(&conn, "u1", "t1", 3, 13), 1);
    assert_eq!(report(&conn, "u1", "t1b", 3, 14), 0);
    assert_eq!(report(&conn, "u2", "t2", 3, 15), 2);
    let found = select(&conn, 0, 20);
    assert_eq!(spans(&found), vec![(10, 15, EventType::Idle, 3), (15, 20, EventType::Idle, 3)]);
    let pages: Vec<(String, String)> = found
        .iter()
        .map(|s| s.app_snapshot_info.opt_web_info.clone().unwrap())
        .map(|w| (w.tab_title, w.url))
        .collect();
    assert_eq!(pages[0], ("t1".to_string(), "u1".to_string()));
    assert_eq!(pages[1], ("t2".to_string(), "u2".to_string()));
    assert_eq!(found[1].app_snapshot_info.exe_path, "C:\\browser.exe");
    assert_eq!(found[1].app_snapshot_info.window_title, "window");
}

fn config() -> HgConfig {
    HgConfig {
        db_path: String::new(),
        pool_interval_ms: 1000,
        idle_timeout_ms: 100,
        idle_check_interval_ms: 10,
        foreground_debounce_ms: 0,
        web_receiver_udp_addr: String::new(),
    }
}

#[test]
fn runs_leave_a_chain_without_gaps() {
    let conn = open();
    for run in 0..2i64 {
        let base = 10_000 * (run + 1);
        let mut tracker = UserTracker::new(config());
        execute_all(&conn, &tracker.seed_initial(base, Ok(base - 5), app(3, None)).unwrap());
        execute_all(&conn, &tracker.apply_foreground(app(4, None), base + 50));
        execute_all(&conn, &tracker.apply_foreground(app(4, None), base + 60));
        report(&conn, "u", "t", 4, base + 70);
        report(&conn, "v", "t", 4, base + 80);
        execute_all(&conn, &tracker.on_idle_tick(base + 300, Ok(base + 90)).unwrap());
        execute_all(&conn, &tracker.on_idle_tick(base + 400, Ok(base + 399)).unwrap());
        execute_all(&conn, &tracker.close(base + 500));
    }
    let found = select(&conn, 0, 30_000);
    assert_eq!(found.len(), 12);
    for pair in found.windows(2) {
        assert_eq!(pair[0].end_ms, pair[1].start_ms);
    }
    let total: i64 = found[..11].iter().map(|s| s.end_ms - s.start_ms).sum();
    assert_eq!(total, found[11].start_ms - found[0].start_ms);
    assert_eq!(
        spans(&found[..6]),
        vec![
            (10_000, 10_050, EventType::Active, 3),
            (10_050, 10_080, EventType::Active, 4),
            (10_080, 10_090, EventType::Active, 4),
            (10_090, 10_400, EventType::Idle, 4),
            (10_400, 10_500, EventType::Active, 4),
            (10_500, 20_000, EventType::Offline, 4)
        ]
    );
    assert_eq!(latest(&conn).unwrap().seg_end, None);
}
