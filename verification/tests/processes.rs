use hourglass::log_format::short_target;
use hourglass::process_tree::{
    exe_name, is_browser_exe, lookup_browser_pid, snapshot_process_map, walk_ancestors,
    ProcessEntry, ProcessMap,
};
use hourglass::snapshot::{snapshot_from_hwnd, snapshot_from_parts, RawWindow};

fn units(s: &str) -> Vec<u16> {
    s.encode_utf16().collect()
}

fn entry(num_pid: u32, num_pid_parent: u32, exe: &str) -> ProcessEntry {
    let mut exe_units = units(exe);
    exe_units.resize(260, 0);
    ProcessEntry { num_pid, num_pid_parent, exe_units }
}

fn map_of(rows: &[(u32, u32, &str)]) -> Option<ProcessMap> {
    let mut map = ProcessMap::new();
    for (pid, parent, exe) in rows {
        map.insert(*pid, (*parent, exe.to_string()));
    }
    Some(map)
}

#[test]
fn names_end_at_the_first_zero() {
    let mut buf = units("chrome.exe");
    buf.push(0);
    buf.extend(units("junk"));
    assert_eq!(exe_name(&buf), "chrome.exe");
    assert_eq!(exe_name(&units("full")), "full");
    assert_eq!(exe_name(&[0, 65]), "");
    assert_eq!(exe_name(&[]), "");
}

#[test]
fn utf16_is_decoded() {
    assert_eq!(exe_name(&units("\u{e9}\u{1F600}x")), "\u{e9}\u{1F600}x");
    assert_eq!(exe_name(&[0x41, 0xD83D, 0x42]), "A\u{FFFD}B");
    assert_eq!(exe_name(&[0xDE00, 0xD83D]), "\u{FFFD}\u{FFFD}");
    assert_eq!(exe_name(&[0xD83D, 0xD83D, 0xDE00]), "\u{FFFD}\u{1F600}");
}

#[test]
fn later_entries_win() {
    let entries = vec![entry(1, 0, "a.exe"), entry(2, 1, "b.exe"), entry(1, 2, "c.exe")];
    let map = snapshot_process_map(&Some(entries)).unwrap();
    assert_eq!(map.len(), 2);
    assert_eq!(map[&1], (2, "c.exe".to_string()));
    assert_eq!(map[&2], (1, "b.exe".to_string()));
    assert!(snapshot_process_map(&None).is_none());
}

#[test]
fn browser_names() {
    assert!(is_browser_exe("chrome.exe"));
    assert!(is_browser_exe("MsEdge.EXE"));
    assert!(is_browser_exe("BRAVE.exe"));
    assert!(!is_browser_exe("chrome.exe "));
    assert!(!is_browser_exe("firefox.exe"));
    assert!(!is_browser_exe(""));
}

#[test]
fn topmost_browser_is_found() {
    let map = map_of(&[
        (100, 90, "web_receiver.exe"),
        (90, 80, "Chrome.exe"),
        (80, 70, "cmd.exe"),
        (70, 60, "chrome.exe"),
        (60, 0, "explorer.exe"),
    ]);
    assert_eq!(lookup_browser_pid(&map, 100), 70);
    assert_eq!(lookup_browser_pid(&map, 70), 0);
    assert_eq!(lookup_browser_pid(&map, 12345), 0);
    assert_eq!(lookup_browser_pid(&None, 100), 0);
}

#[test]
fn ancestors_are_listed_nearest_first() {
    let map = map_of(&[(5, 4, "web_receiver.exe"), (4, 3, "Brave.exe"), (3, 2, "cmd.exe")]).unwrap();
    let hops: Vec<(u32, u32, String, bool)> = walk_ancestors(&map, 5)
        .into_iter()
        .map(|h| (h.num_pid_cursor, h.num_pid_parent, h.str_parent_exe, h.flag_is_browser))
        .collect();
    assert_eq!(
        hops,
        vec![
            (5, 4, "Brave.exe".to_string(), true),
            (4, 3, "cmd.exe".to_string(), false),
            (3, 2, "<gone>".to_string(), false)
        ]
    );
    let cycle = map_of(&[(1, 2, "a"), (2, 1, "b")]).unwrap();
    assert_eq!(walk_ancestors(&cycle, 1).len(), 10);
    assert!(walk_ancestors(&cycle, 9).is_empty());
}

#[test]
fn own_name_does_not_count() {
    let map = map_of(&[(5, 4, "chrome.exe"), (4, 0, "explorer.exe")]);
    assert_eq!(lookup_browser_pid(&map, 5), 0);
}

#[test]
fn gone_parents_and_cycles_end_the_walk() {
    let gone = map_of(&[(5, 4, "web_receiver.exe")]);
    assert_eq!(lookup_browser_pid(&gone, 5), 0);
    let own_parent = map_of(&[(5, 5, "chrome.exe")]);
    assert_eq!(lookup_browser_pid(&own_parent, 5), 0);
    let cycle = map_of(&[(5, 6, "chrome.exe"), (6, 5, "cmd.exe")]);
    assert_eq!(lookup_browser_pid(&cycle, 5), 5);
}

#[test]
fn the_walk_is_capped() {
    let mut rows: Vec<(u32, u32, &str)> = Vec::new();
    for pid in 1..=12u32 {
        rows.push((pid, pid + 1, "cmd.exe"));
    }
    rows[10] = (11, 12, "chrome.exe");
    assert_eq!(lookup_browser_pid(&map_of(&rows), 1), 11);
    rows[10] = (11, 12, "cmd.exe");
    rows[11] = (12, 13, "chrome.exe");
    assert_eq!(lookup_browser_pid(&map_of(&rows), 1), 0);
}

fn window(title: &str, path: Option<&str>) -> RawWindow {
    let title_units = units(title);
    let num_title = title_units.len() as i32;
    let mut title_buf = title_units;
    title_buf.push(0);
    let path_units = units(path.unwrap_or(""));
    let num_path_units = path_units.len() as u32;
    let mut path_buf = path_units;
    path_buf.resize(32768, 0);
    RawWindow {
        hwnd_addr: 77,
        pid: 31,
        len_title: num_title,
        title_buf,
        num_title_copied: num_title,
        is_path_ok: path.is_some(),
        path_buf,
        num_path_units,
    }
}

#[test]
fn window_snapshot() {
    let info = snapshot_from_hwnd(&window("Editor \u{2013} a.txt", Some("/opt/tools/edit.bin"))).unwrap();
    assert_eq!(info.win_pid, 31);
    assert_eq!(info.window_title, "Editor \u{2013} a.txt");
    assert_eq!(info.exe_path, "/opt/tools/edit.bin");
    assert_eq!(info.process_name, "edit.bin");
    assert!(info.opt_web_info.is_none());
}

#[test]
fn window_snapshot_without_answers() {
    let info = snapshot_from_hwnd(&window("", None)).unwrap();
    assert_eq!(info.window_title, "");
    assert_eq!(info.exe_path, "<unknown>");
    assert_eq!(info.process_name, "<unknown>");
    let unnamed = snapshot_from_hwnd(&window("t", Some("/opt/.."))).unwrap();
    assert_eq!(unnamed.process_name, "<unknown>");
    assert_eq!(unnamed.exe_path, "/opt/..");
    for (path, name) in [("a/./", "a"), ("a/...", "..."), ("x.", "x."), ("/", "<unknown>"), ("./.", "<unknown>")] {
        let info = snapshot_from_hwnd(&window("t", Some(path))).unwrap();
        assert_eq!(info.process_name, name);
    }
    let mut not_copied = window("title", Some("edit.bin"));
    not_copied.num_title_copied = 0;
    let info = snapshot_from_hwnd(&not_copied).unwrap();
    assert_eq!(info.window_title, "");
    assert_eq!(info.process_name, "edit.bin");
}

#[test]
fn files_behind_backslashes_have_names() {
    for (path, name) in [
        ("C:\\x\\chrome.exe", "chrome.exe"),
        ("z:\\a.b", "a.b"),
        ("x\\tool.exe", "tool.exe"),
        ("\\tool.exe", "tool.exe"),
        ("\\\\?\\C:\\x\\chrome.exe", "chrome.exe"),
        ("\\\\server\\share\\tool.exe", "tool.exe"),
        ("\\\\server\\share\\bin\\tool.exe", "tool.exe"),
    ] {
        let info = snapshot_from_hwnd(&window("t", Some(path))).unwrap();
        assert_eq!(info.exe_path, path);
        assert!(info.process_name == name || info.process_name == path);
    }
}

#[test]
fn no_window_no_snapshot() {
    let mut raw = window("t", Some("edit.bin"));
    raw.hwnd_addr = 0;
    assert!(snapshot_from_hwnd(&raw).is_none());
    let mut raw = window("t", Some("edit.bin"));
    raw.pid = 0;
    assert!(snapshot_from_hwnd(&raw).is_none());
}

#[test]
fn snapshot_parts() {
    let named = snapshot_from_parts(4, "w".to_string(), "p".to_string(), Some("n".to_string()));
    assert_eq!(named.process_name, "n");
    assert_eq!(named.exe_path, "p");
    let unnamed = snapshot_from_parts(4, "w".to_string(), "p".to_string(), None);
    assert_eq!(unnamed.process_name, "<unknown>");
}

#[test]
fn log_targets_are_shortened() {
    assert_eq!(short_target("hg_surveillant::surveillant_tracker"), "surveillant_tracker");
    assert_eq!(short_target("a::b::c"), "c");
    assert_eq!(short_target("plain"), "plain");
    assert_eq!(short_target("a:::b"), "b");
    assert_eq!(short_target("a::"), "");
    assert_eq!(short_target("a:b"), "a:b");
    assert_eq!(short_target(""), "");
    for target in ["x::y", "::", ":::", "a::b:", "é::ü"] {
        assert_eq!(short_target(target), target.rsplit("::").next().unwrap());
    }
}
