//! Text helpers on std strings.

use vstd::prelude::*;

verus! {

pub open spec fn is_high_surrogate(unit: u16) -> bool {
    0xD800 <= unit <= 0xDBFF
}

pub open spec fn is_low_surrogate(unit: u16) -> bool {
    0xDC00 <= unit <= 0xDFFF
}

/// The text that UTF-16 units stand for; each surrogate without its partner
/// counts as one U+FFFD.
pub open spec fn utf16_text(units: Seq<u16>) -> Seq<char>
    decreases units.len(),
{
    if units.len() == 0 {
        Seq::empty()
    } else if is_high_surrogate(units[0]) && units.len() >= 2 && is_low_surrogate(units[1]) {
        let code = 0x10000 + (units[0] - 0xD800) * 0x400 + (units[1] - 0xDC00);
        seq![code as char] + utf16_text(units.skip(2))
    } else if is_high_surrogate(units[0]) || is_low_surrogate(units[0]) {
        seq!['\u{FFFD}'] + utf16_text(units.skip(1))
    } else {
        seq![units[0] as char] + utf16_text(units.skip(1))
    }
}

/// The UTF-16 units of a text.
pub open spec fn utf16_units(text: Seq<char>) -> Seq<u16>
    decreases text.len(),
{
    if text.len() == 0 {
        Seq::empty()
    } else {
        let code = text[0] as u32;
        let rest = utf16_units(text.skip(1));
        if code < 0x10000 {
            seq![code as u16] + rest
        } else {
            seq![
                (0xD800 + (code - 0x10000) / 0x400) as u16,
                (0xDC00 + (code - 0x10000) % 0x400) as u16,
            ] + rest
        }
    }
}

pub(crate) proof fn lemma_scalar_value(c: char)
    ensures
        c as u32 <= 0x10FFFF && !(0xD800 <= c as u32 <= 0xDFFF),
        c as u32 as char == c,
{
}

/// Every text comes back whole from its UTF-16 units.
pub proof fn law_utf16_reads_back(text: Seq<char>)
    ensures
        utf16_text(utf16_units(text)) == text,
    decreases text.len(),
{
    if text.len() > 0 {
        let units = utf16_units(text);
        let rest = utf16_units(text.skip(1));
        let code = text[0] as u32;
        law_utf16_reads_back(text.skip(1));
        lemma_scalar_value(text[0]);
        if code < 0x10000 {
            assert(units.skip(1) =~= rest);
            assert(units[0] == code);
            assert(!is_high_surrogate(units[0]) && !is_low_surrogate(units[0]));
            assert(units[0] as char == text[0]);
            assert(seq![text[0]] + text.skip(1) =~= text);
        } else {
            assert(units.skip(2) =~= rest);
            assert(is_high_surrogate(units[0]) && is_low_surrogate(units[1]));
            let back = 0x10000 + (units[0] - 0xD800) * 0x400 + (units[1] - 0xDC00);
            assert(back == code);
            assert(back as char == text[0]);
            assert(seq![text[0]] + text.skip(1) =~= text);
        }
    } else {
        assert(text =~= Seq::empty());
    }
}

pub open spec fn ascii_lower_char(c: char) -> char {
    if 'A' <= c <= 'Z' {
        (c as u32 + 32) as char
    } else {
        c
    }
}

/// `s` with the letters `A` to `Z` replaced by `a` to `z`.
pub open spec fn ascii_lower(s: Seq<char>) -> Seq<char> {
    s.map_values(|c: char| ascii_lower_char(c))
}

/// Calls `String::from_utf16_lossy`. Trusted: the result is the text of the
/// units, with U+FFFD in place of each unpaired surrogate.
#[verifier::external_body]
pub(crate) fn decode_utf16(units: &[u16]) -> (res: String)
    ensures
        res@ == utf16_text(units@),
{
    String::from_utf16_lossy(units)
}

/// Calls `str::to_ascii_lowercase`. Trusted: ASCII capital letters become
/// small ones and every other character stays.
#[verifier::external_body]
pub(crate) fn to_ascii_lowercase(s: &str) -> (res: String)
    ensures
        res@ == ascii_lower(s@),
{
    s.to_ascii_lowercase()
}

/// A character that separates the components of a path on some platform.
pub open spec fn is_separator(c: char) -> bool {
    c == '/' || c == '\\'
}

/// Whether a path begins with `\\?\`, after which a slash separates nothing.
pub open spec fn is_verbatim(path: Seq<char>) -> bool {
    path.len() >= 4 && path[0] == '\\' && path[1] == '\\' && path[2] == '?' && path[3] == '\\'
}

/// Whether two dots follow one another at `k`.
pub open spec fn is_double_dot(path: Seq<char>, k: int) -> bool {
    path[k] == '.' && path[k + 1] == '.'
}

/// Whether the characters from `i` up to `j` can be the last named component of
/// a path: they stand between separators (or after a drive's colon), hold no
/// slash and are neither `.` nor `..`, and nothing but separators and single
/// dots follows.
pub open spec fn is_last_component(path: Seq<char>, i: int, j: int) -> bool {
    &&& 0 <= i < j <= path.len()
    &&& i == 0 || is_separator(path[i - 1]) || path[i - 1] == ':'
    &&& j == path.len() || is_separator(path[j])
    &&& path.subrange(i, j) != seq!['.'] && path.subrange(i, j) != seq!['.', '.']
    &&& is_verbatim(path) || !path.subrange(i, j).contains('/')
    &&& forall|k: int| j <= k < path.len() ==> is_separator(#[trigger] path[k]) || path[k] == '.'
    &&& forall|k: int| j <= k < path.len() - 1 ==> !#[trigger] is_double_dot(path, k)
}

/// Whether every platform splits a path at its slashes alone: it holds neither
/// a backslash nor a colon, and does not begin with two slashes.
pub open spec fn is_slash_path(path: Seq<char>) -> bool {
    &&& !path.contains('\\') && !path.contains(':')
    &&& !(path.len() >= 2 && path[0] == '/' && path[1] == '/')
}

/// Whether a path without slashes ends in a backslash and, from `k` on, a part
/// that is neither `.` nor `..`.
pub open spec fn is_last_part(path: Seq<char>, k: int) -> bool {
    &&& 0 < k < path.len()
    &&& path[k - 1] == '\\'
    &&& !path.contains('/')
    &&& !path.skip(k).contains('\\')
    &&& path.skip(k) != seq!['.'] && path.skip(k) != seq!['.', '.']
}

/// Whether a drive's letter, its colon and a backslash stand at `i`.
pub open spec fn is_drive(path: Seq<char>, i: int) -> bool {
    &&& 0 <= i < path.len() - 2
    &&& ('A' <= path[i] <= 'Z' || 'a' <= path[i] <= 'z')
    &&& path[i + 1] == ':' && path[i + 2] == '\\'
}

/// Whether a path names, from `k` on, a file on a drive, such as `C:\x\a.exe`
/// or `\\?\C:\x\a.exe`.
pub open spec fn is_drive_file(path: Seq<char>, k: int) -> bool {
    &&& is_last_part(path, k)
    &&& (is_drive(path, 0) && 3 <= k) || (is_verbatim(path) && is_drive(path, 4) && 7 <= k)
}

/// Whether a path begins with `\\server\share\`, with backslashes at `s` and `t`
/// around the share's name. A server whose name begins with `?` or `.` is left
/// out: such a path is not one of a share.
pub open spec fn is_share(path: Seq<char>, s: int, t: int) -> bool {
    &&& 3 <= s && s + 2 <= t < path.len()
    &&& path[0] == '\\' && path[1] == '\\' && path[s] == '\\' && path[t] == '\\'
    &&& path[2] != '?' && path[2] != '.'
    &&& !path.subrange(2, s).contains('\\') && !path.subrange(s + 1, t).contains('\\')
}

/// Whether a path names, from `k` on, a file on a share, such as
/// `\\server\share\a.exe`.
pub open spec fn is_share_file(path: Seq<char>, k: int) -> bool {
    &&& is_last_part(path, k)
    &&& exists|s: int, t: int| #[trigger] is_share(path, s, t) && t < k
}

/// Whether a path that names neither a drive nor a share names, from `k` on, a
/// file, such as `x\a.exe` or `\x\a.exe`.
pub open spec fn is_plain_file(path: Seq<char>, k: int) -> bool {
    &&& is_last_part(path, k)
    &&& !path.contains(':') && !(path[0] == '\\' && path[1] == '\\')
}

/// What `Path::file_name` can give for `path`. A file on a drive, on a share or
/// on neither has a name on every platform: its last part where backslashes
/// separate, the whole path where they do not. A name is always a last named
/// component, and is not missed in a path that every platform splits alike.
pub open spec fn possible_file_name(path: Seq<char>, name: Option<Seq<char>>) -> bool {
    &&& forall|k: int| #[trigger]
        is_drive_file(path, k) ==> name == Some(path.skip(k)) || name == Some(path)
    &&& forall|k: int| #[trigger]
        is_share_file(path, k) ==> name == Some(path.skip(k)) || name == Some(path)
    &&& forall|k: int| #[trigger]
        is_plain_file(path, k) ==> name == Some(path.skip(k)) || name == Some(path)
    &&& match name {
        Some(n) => exists|i: int, j: int| #[trigger]
            is_last_component(path, i, j) && n == path.subrange(i, j),
        None => is_slash_path(path) ==> forall|i: int, j: int|
            !#[trigger] is_last_component(path, i, j),
    }
}

proof fn lemma_same_end(path: Seq<char>, i: int, j: int, k: int, l: int)
    requires
        is_slash_path(path),
        is_last_component(path, i, j),
        is_last_component(path, k, l),
    ensures
        l <= j,
{
    if j < l {
        let part = path.subrange(k, l);
        assert(!is_verbatim(path)) by {
            if is_verbatim(path) {
                assert(path.contains(path[0]));
            }
        }
        assert(path.contains(path[j]));
        assert(path[j] == '/');
        if k <= j {
            assert(part[j - k] == '/');
            assert(part.contains('/'));
        } else {
            assert(part[0] == path[k]);
            if part[0] == '/' {
                assert(part.contains('/'));
            }
            assert(path.contains(path[k]));
            assert(path[k] == '.');
            if l == k + 1 {
                assert(part =~= seq!['.']);
            } else {
                assert(part[1] == path[k + 1]);
                assert(path.contains(path[k + 1]));
                assert(!is_double_dot(path, k));
                assert(part[1] == '/');
                assert(part.contains('/'));
            }
        }
    }
}

proof fn lemma_same_start(path: Seq<char>, i: int, k: int, j: int)
    requires
        is_slash_path(path),
        is_last_component(path, i, j),
        is_last_component(path, k, j),
    ensures
        k <= i,
{
    if i < k {
        let part = path.subrange(i, j);
        assert(!is_verbatim(path)) by {
            if is_verbatim(path) {
                assert(path.contains(path[0]));
            }
        }
        assert(path.contains(path[k - 1]));
        assert(part[k - 1 - i] == '/');
        assert(part.contains('/'));
    }
}

/// A path that every platform splits alike has one file name, or none, on all
/// of them.
pub proof fn law_slash_path_has_one_file_name(
    path: Seq<char>,
    a: Option<Seq<char>>,
    b: Option<Seq<char>>,
)
    requires
        is_slash_path(path),
        possible_file_name(path, a),
        possible_file_name(path, b),
    ensures
        a == b,
{
    if a is Some && b is Some {
        let (i, j) = choose|i: int, j: int| #[trigger]
            is_last_component(path, i, j) && a->0 == path.subrange(i, j);
        let (k, l) = choose|k: int, l: int| #[trigger]
            is_last_component(path, k, l) && b->0 == path.subrange(k, l);
        lemma_same_end(path, i, j, k, l);
        lemma_same_end(path, k, l, i, j);
        lemma_same_start(path, i, k, j);
        lemma_same_start(path, k, i, j);
    }
}

pub open spec fn opt_text(s: Option<String>) -> Option<Seq<char>> {
    match s {
        Some(v) => Some(v@),
        None => None,
    }
}

/// An optional text is there where its view is, and reads the same; a missing
/// one reads as the empty text.
pub proof fn law_optional_text(s: Option<String>)
    ensures
        s is None ==> opt_text(s) is None && text_or_empty(opt_text(s)).len() == 0,
        s matches Some(v) ==> opt_text(s) == Some(v@) && text_or_empty(opt_text(s)) == v@,
{
}

/// Calls `std::path::Path::file_name`. Trusted: `possible_file_name`. Whether
/// backslashes and colons separate, and so which of the possible components of
/// a path with such characters is its last, depends on the platform and is not
/// stated; that a file on a drive, on a share or on neither has a name is.
#[verifier::external_body]
pub(crate) fn file_name(path: &str) -> (res: Option<String>)
    ensures
        possible_file_name(path@, opt_text(res)),
{
    std::path::Path::new(path).file_name().map(|s| s.to_string_lossy().to_string())
}

/// The text of an optional column, the empty text where it holds none.
pub open spec fn text_or_empty(s: Option<Seq<char>>) -> Seq<char> {
    match s {
        Some(v) => v,
        None => Seq::empty(),
    }
}

pub(crate) fn copy_or_empty(s: &Option<String>) -> (res: String)
    ensures
        res@ == text_or_empty(opt_text(*s)),
{
    match s {
        Some(v) => v.clone(),
        None => String::new(),
    }
}

pub(crate) fn copy_text(s: &Option<String>) -> (res: Option<String>)
    ensures
        opt_text(res) == opt_text(*s),
{
    match s {
        Some(v) => Some(v.clone()),
        None => None,
    }
}

} // verus!
