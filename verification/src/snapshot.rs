//! What the system tells about a window, as a snapshot of its process.

use crate::common_struct::AppSnapshotInfo;
#[allow(unused_imports)]
use crate::common_struct::{opt_app, AppView};
use crate::text::{decode_utf16, file_name};
#[allow(unused_imports)]
use crate::text::{
    is_last_component, is_slash_path, law_slash_path_has_one_file_name, law_utf16_reads_back,
    opt_text, possible_file_name, utf16_text, utf16_units,
};
use vstd::prelude::*;

verus! {

/// Stands for a path or a name that the system does not tell.
pub const STR_UNKNOWN: &'static str = "<unknown>";

/// The answers of the system about a window.
#[derive(Debug, Clone)]
pub struct RawWindow {
    /// The handle of the window, 0 for none.
    pub hwnd_addr: isize,
    /// The pid of its process, 0 where unknown.
    pub pid: u32,
    /// The length that the system gives for the title.
    pub len_title: i32,
    /// The buffer that the title was copied to, and the number of units that
    /// were copied.
    pub title_buf: Vec<u16>,
    pub num_title_copied: i32,
    /// Whether the process could be opened and its path was copied.
    pub is_path_ok: bool,
    /// The buffer that the path was copied to, and the number of units.
    pub path_buf: Vec<u16>,
    pub num_path_units: u32,
}

/// Whether the counts of what was copied stay within the buffers.
pub open spec fn within_buffers(raw: RawWindow) -> bool {
    &&& raw.len_title > 0 ==> raw.num_title_copied <= raw.title_buf@.len()
    &&& raw.is_path_ok ==> raw.num_path_units <= raw.path_buf@.len()
}

/// The title of the window, empty where the system gives none.
pub open spec fn window_title(raw: RawWindow) -> Seq<char> {
    if raw.len_title > 0 && raw.num_title_copied > 0 {
        utf16_text(raw.title_buf@.take(raw.num_title_copied as int))
    } else {
        Seq::empty()
    }
}

/// The path of the process.
pub open spec fn process_path(raw: RawWindow) -> Seq<char> {
    if raw.is_path_ok {
        utf16_text(raw.path_buf@.take(raw.num_path_units as int))
    } else {
        STR_UNKNOWN@
    }
}

/// The snapshot of a process, given the last component of its path.
pub open spec fn snapshot_of(
    pid: u32,
    title: Seq<char>,
    path: Seq<char>,
    name: Option<Seq<char>>,
) -> AppView {
    AppView {
        win_pid: pid,
        process_name: match name {
            Some(n) => n,
            None => STR_UNKNOWN@,
        },
        exe_path: path,
        window_title: title,
        web: None,
    }
}

/// Puts a snapshot together; a path without a last component leaves the name
/// unknown.
pub fn snapshot_from_parts(
    pid: u32,
    str_window_title: String,
    str_process_path: String,
    opt_name: Option<String>,
) -> (res: AppSnapshotInfo)
    ensures
        res@ == snapshot_of(pid, str_window_title@, str_process_path@, opt_text(opt_name)),
{
    let process_name = match opt_name {
        Some(name) => name,
        None => STR_UNKNOWN.to_owned(),
    };
    AppSnapshotInfo {
        win_pid: pid,
        process_name,
        exe_path: str_process_path,
        window_title: str_window_title,
        opt_web_info: None,
    }
}

fn decode_prefix(buf: &Vec<u16>, num_units: usize) -> (res: String)
    requires
        num_units <= buf@.len(),
    ensures
        res@ == utf16_text(buf@.take(num_units as int)),
{
    assert(buf@.take(num_units as int) =~= buf@.subrange(0, num_units as int));
    decode_utf16(vstd::slice::slice_subrange(buf.as_slice(), 0, num_units))
}

/// Whether `app` can be the snapshot of a window's process: what the system told,
/// with one of the names that the path can have.
pub open spec fn possible_snapshot(raw: RawWindow, app: AppView) -> bool {
    exists|name: Option<Seq<char>>| #[trigger]
        possible_file_name(process_path(raw), name) && app == snapshot_of(
            raw.pid,
            window_title(raw),
            process_path(raw),
            name,
        )
}

/// A snapshot shows the whole path, however long: the text whose UTF-16 units
/// were copied, with U+FFFD for units that no text has. Its name is one that the
/// path can have. Where no path was copied, path and name are `<unknown>`.
pub proof fn law_snapshot_shows_the_whole_path(raw: RawWindow, app: AppView, path: Seq<char>)
    requires
        possible_snapshot(raw, app),
    ensures
        raw.is_path_ok && utf16_units(path).is_prefix_of(raw.path_buf@) && raw.num_path_units
            == utf16_units(path).len() ==> app.exe_path == path && (possible_file_name(
            path,
            Some(app.process_name),
        ) || (possible_file_name(path, None) && app.process_name == "<unknown>"@)),
        raw.is_path_ok ==> app.exe_path == utf16_text(
            raw.path_buf@.take(raw.num_path_units as int),
        ),
        !raw.is_path_ok ==> app.exe_path == "<unknown>"@ && app.process_name == "<unknown>"@,
{
    law_utf16_reads_back(path);
    if raw.is_path_ok && utf16_units(path).is_prefix_of(raw.path_buf@) && raw.num_path_units
        == utf16_units(path).len() {
        assert(raw.path_buf@.take(raw.num_path_units as int) =~= utf16_units(path));
    }
    if !raw.is_path_ok {
        let unknown = "<unknown>"@;
        reveal_strlit("<unknown>");
        assert(unknown.subrange(0, unknown.len() as int) =~= unknown);
        assert(is_last_component(unknown, 0, unknown.len() as int));
        assert(is_slash_path(unknown));
        assert(possible_file_name(unknown, Some(unknown)));
        let name = choose|name: Option<Seq<char>>| #[trigger]
            possible_file_name(process_path(raw), name) && app == snapshot_of(
                raw.pid,
                window_title(raw),
                process_path(raw),
                name,
            );
        law_slash_path_has_one_file_name(unknown, name, Some(unknown));
    }
}

/// A snapshot shows the whole title, however long: the text whose UTF-16 units
/// were copied, and the empty one where the system gives no length or copied
/// nothing. Its pid is the window's, and it shows no page.
pub proof fn law_snapshot_shows_the_whole_title(raw: RawWindow, app: AppView, title: Seq<char>)
    requires
        possible_snapshot(raw, app),
    ensures
        raw.len_title > 0 && utf16_units(title).is_prefix_of(raw.title_buf@) && raw.num_title_copied
            == utf16_units(title).len() ==> app.window_title == title,
        raw.len_title > 0 && raw.num_title_copied > 0 ==> app.window_title == utf16_text(
            raw.title_buf@.take(raw.num_title_copied as int),
        ),
        raw.len_title <= 0 || raw.num_title_copied <= 0 ==> app.window_title.len() == 0,
        app.win_pid == raw.pid && app.web is None,
{
    law_utf16_reads_back(title);
    if raw.len_title > 0 && utf16_units(title).is_prefix_of(raw.title_buf@) && raw.num_title_copied
        == utf16_units(title).len() {
        assert(raw.title_buf@.take(raw.num_title_copied as int) =~= utf16_units(title));
        if title.len() > 0 {
            assert(utf16_units(title).len() > 0);
        } else {
            assert(title =~= Seq::empty());
        }
    }
}

/// A snapshot that is put together holds each of its parts, and `<unknown>` for
/// a name that is missing.
pub proof fn law_snapshot_holds_its_parts(
    pid: u32,
    title: Seq<char>,
    path: Seq<char>,
    name: Option<Seq<char>>,
)
    ensures
        ({
            let app = snapshot_of(pid, title, path, name);
            &&& app.win_pid == pid && app.window_title == title && app.exe_path == path
            &&& name matches Some(n) ==> app.process_name == n
            &&& name is None ==> app.process_name == "<unknown>"@
            &&& app.web is None
        }),
{
}

/// The snapshot of a window's process; none where there is no window or its
/// process is unknown.
pub fn snapshot_from_hwnd(raw: &RawWindow) -> (res: Option<AppSnapshotInfo>)
    requires
        within_buffers(*raw),
    ensures
        if raw.hwnd_addr == 0 || raw.pid == 0 {
            res is None
        } else {
            &&& res matches Some(info)
            &&& possible_snapshot(*raw, info@)
            &&& info.win_pid == raw.pid && info.opt_web_info is None
            &&& forall|path: Seq<char>|
                raw.is_path_ok && raw.num_path_units == #[trigger] utf16_units(path).len()
                    && utf16_units(path).is_prefix_of(raw.path_buf@) ==> info.exe_path@ == path
            &&& forall|title: Seq<char>|
                raw.len_title > 0 && raw.num_title_copied == #[trigger] utf16_units(title).len()
                    && utf16_units(title).is_prefix_of(raw.title_buf@) ==> info.window_title@
                    == title
        },
{
    if raw.hwnd_addr == 0 {
        return None;
    }
    if raw.pid == 0 {
        return None;
    }
    let str_window_title = if raw.len_title > 0 && raw.num_title_copied > 0 {
        decode_prefix(&raw.title_buf, raw.num_title_copied as usize)
    } else {
        String::new()
    };
    let str_process_path = if raw.is_path_ok {
        decode_prefix(&raw.path_buf, raw.num_path_units as usize)
    } else {
        STR_UNKNOWN.to_owned()
    };
    let opt_name = file_name(str_process_path.as_str());
    assert(possible_file_name(process_path(*raw), opt_text(opt_name)));
    let info = snapshot_from_parts(raw.pid, str_window_title, str_process_path, opt_name);
    assert(possible_snapshot(*raw, info@));
    proof {
        assert forall|path: Seq<char>|
            raw.is_path_ok && raw.num_path_units == #[trigger] utf16_units(path).len()
                && utf16_units(path).is_prefix_of(raw.path_buf@) implies info.exe_path@ == path by {
            law_snapshot_shows_the_whole_path(*raw, info@, path);
        }
        assert forall|title: Seq<char>|
            raw.len_title > 0 && raw.num_title_copied == #[trigger] utf16_units(title).len()
                && utf16_units(title).is_prefix_of(raw.title_buf@) implies info.window_title@
            == title by {
            law_snapshot_shows_the_whole_title(*raw, info@, title);
        }
    }
    Some(info)
}

} // verus!
