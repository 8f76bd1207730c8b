//! Which browser a process runs under.

use crate::text::{decode_utf16, to_ascii_lowercase};
#[allow(unused_imports)]
use crate::text::{
    ascii_lower, ascii_lower_char, law_utf16_reads_back, lemma_scalar_value, utf16_text, utf16_units,
};
use std::collections::HashMap;
use vstd::prelude::*;

verus! {

broadcast use vstd::std_specs::hash::group_hash_axioms;

/// Hard cap on the parents that are looked at.
pub const NUM_MAX_ANCESTRY_HOPS: usize = 10;

/// One process as the system lists it; the name is zero-terminated UTF-16.
#[derive(Debug, Clone)]
pub struct ProcessEntry {
    pub num_pid: u32,
    pub num_pid_parent: u32,
    pub exe_units: Vec<u16>,
}

/// The units before the first zero, all of them where there is none.
pub open spec fn before_zero(units: Seq<u16>) -> Seq<u16>
    decreases units.len(),
{
    if units.len() == 0 || units[0] == 0 {
        Seq::empty()
    } else {
        seq![units[0]] + before_zero(units.skip(1))
    }
}

/// A name reaches up to the first zero, or to the end of a buffer without one.
pub proof fn law_name_ends_at_the_first_zero(units: Seq<u16>, n: int)
    requires
        0 <= n <= units.len(),
        forall|i: int| 0 <= i < n ==> #[trigger] units[i] != 0,
        n == units.len() || units[n] == 0,
    ensures
        before_zero(units) == units.take(n),
    decreases n,
{
    if n == 0 {
        assert(units.take(0) =~= Seq::empty());
    } else {
        assert(units[0] != 0);
        assert forall|i: int| 0 <= i < n - 1 implies #[trigger] units.skip(1)[i] != 0 by {
            assert(units[i + 1] != 0);
        }
        law_name_ends_at_the_first_zero(units.skip(1), n - 1);
        assert(seq![units[0]] + units.skip(1).take(n - 1) =~= units.take(n));
    }
}

/// A text that was written to a buffer, with a zero after it or up to the
/// buffer's end, is the name that the buffer holds.
pub proof fn law_name_reads_back(units: Seq<u16>, text: Seq<char>)
    requires
        utf16_units(text).is_prefix_of(units),
        forall|i: int| 0 <= i < text.len() ==> #[trigger] text[i] != '\0',
        units.len() == utf16_units(text).len() || units[utf16_units(text).len() as int] == 0,
    ensures
        utf16_text(before_zero(units)) == text,
{
    let n = utf16_units(text).len() as int;
    lemma_no_zero(text);
    assert forall|i: int| 0 <= i < n implies #[trigger] units[i] != 0 by {
        assert(utf16_units(text)[i] != 0);
    }
    law_name_ends_at_the_first_zero(units, n);
    assert(units.take(n) =~= utf16_units(text));
    law_utf16_reads_back(text);
}

proof fn lemma_no_zero(text: Seq<char>)
    requires
        forall|i: int| 0 <= i < text.len() ==> #[trigger] text[i] != '\0',
    ensures
        forall|i: int| 0 <= i < utf16_units(text).len() ==> #[trigger] utf16_units(text)[i] != 0,
    decreases text.len(),
{
    if text.len() > 0 {
        assert forall|i: int| 0 <= i < text.skip(1).len() implies #[trigger] text.skip(1)[i]
            != '\0' by {
            assert(text[i + 1] != '\0');
        }
        lemma_no_zero(text.skip(1));
        let rest = utf16_units(text.skip(1));
        let head = utf16_units(text).len() - rest.len();
        assert(text[0] != '\0');
        lemma_scalar_value(text[0]);
        assert(text[0] as u32 != 0);
        assert forall|i: int| 0 <= i < utf16_units(text).len() implies #[trigger] utf16_units(
            text,
        )[i] != 0 by {
            if i >= head {
                assert(utf16_units(text)[i] == rest[i - head]);
            }
        }
    }
}

/// The file name that a zero-terminated UTF-16 buffer holds.
pub fn exe_name(units: &[u16]) -> (res: String)
    ensures
        res@ == utf16_text(before_zero(units@)),
{
    let mut num_len: usize = 0;
    assert(units@.skip(0) =~= units@);
    assert(units@.take(0) + before_zero(units@) =~= before_zero(units@));
    while num_len < units.len() && units[num_len] != 0
        invariant
            num_len <= units@.len(),
            units@.take(num_len as int) + before_zero(units@.skip(num_len as int))
                == before_zero(units@),
        decreases units@.len() - num_len,
    {
        proof {
            let rest = units@.skip(num_len as int);
            assert(rest.skip(1) =~= units@.skip(num_len + 1));
            assert(units@.take(num_len as int) + (seq![rest[0]] + before_zero(rest.skip(1)))
                =~= units@.take(num_len + 1) + before_zero(rest.skip(1)));
        }
        num_len = num_len + 1;
    }
    proof {
        assert(before_zero(units@.skip(num_len as int)) =~= Seq::empty());
        assert(units@.take(num_len as int) =~= before_zero(units@));
        assert(units@.take(num_len as int) =~= units@.subrange(0, num_len as int));
    }
    decode_utf16(vstd::slice::slice_subrange(units, 0, num_len))
}

/// A process table: each pid with its parent's pid and its own file name.
pub type ProcessMap = HashMap<u32, (u32, String)>;

pub open spec fn process_table(map: ProcessMap) -> Map<u32, (u32, Seq<char>)> {
    map@.map_values(|entry: (u32, String)| (entry.0, entry.1@))
}

/// The process table that a listing stands for; of two entries with one pid
/// the later one counts.
pub open spec fn table_of(entries: Seq<ProcessEntry>) -> Map<u32, (u32, Seq<char>)>
    decreases entries.len(),
{
    if entries.len() == 0 {
        Map::empty()
    } else {
        let last = entries.last();
        table_of(entries.drop_last()).insert(
            last.num_pid,
            (last.num_pid_parent, utf16_text(before_zero(last.exe_units@))),
        )
    }
}

/// A table lists exactly the pids of the listing, each with the parent and the
/// name of its last entry, whatever else is listed.
pub proof fn law_last_entry_counts(entries: Seq<ProcessEntry>, i: int, pid: u32)
    requires
        0 <= i < entries.len(),
        forall|j: int| i < j < entries.len() ==> #[trigger] entries[j].num_pid != entries[i].num_pid,
    ensures
        table_of(entries).contains_key(entries[i].num_pid),
        table_of(entries)[entries[i].num_pid].0 == entries[i].num_pid_parent,
        table_of(entries)[entries[i].num_pid].1 == utf16_text(before_zero(entries[i].exe_units@)),
        (forall|j: int| 0 <= j < entries.len() ==> #[trigger] entries[j].num_pid != pid)
            ==> !table_of(entries).contains_key(pid),
    decreases entries.len(),
{
    let init = entries.drop_last();
    assert(entries.last() == entries[entries.len() - 1]);
    if forall|j: int| 0 <= j < entries.len() ==> #[trigger] entries[j].num_pid != pid {
        lemma_unlisted(entries, pid);
    }
    if i < entries.len() - 1 {
        assert(entries[entries.len() - 1].num_pid != entries[i].num_pid);
        assert forall|j: int| i < j < init.len() implies #[trigger] init[j].num_pid
            != init[i].num_pid by {
            assert(entries[j].num_pid != entries[i].num_pid);
        }
        law_last_entry_counts(init, i, pid);
    }
}

proof fn lemma_unlisted(entries: Seq<ProcessEntry>, pid: u32)
    requires
        forall|j: int| 0 <= j < entries.len() ==> #[trigger] entries[j].num_pid != pid,
    ensures
        !table_of(entries).contains_key(pid),
    decreases entries.len(),
{
    if entries.len() > 0 {
        let init = entries.drop_last();
        assert(entries[entries.len() - 1].num_pid != pid);
        assert forall|j: int| 0 <= j < init.len() implies #[trigger] init[j].num_pid != pid by {
            assert(entries[j].num_pid != pid);
        }
        lemma_unlisted(init, pid);
    }
}

/// A process map shows each pid with its parent and its own name.
pub proof fn law_process_table_shows_the_map(map: ProcessMap, pid: u32)
    ensures
        process_table(map).contains_key(pid) <==> map@.contains_key(pid),
        map@.contains_key(pid) ==> process_table(map)[pid].0 == map@[pid].0 && process_table(
            map,
        )[pid].1 == map@[pid].1@,
{
}

/// Collects a listing of all processes; nothing where the listing failed.
pub fn snapshot_process_map(opt_entries: &Option<Vec<ProcessEntry>>) -> (res: Option<ProcessMap>)
    ensures
        match (opt_entries, res) {
            (Some(entries), Some(map)) => process_table(map) == table_of(entries@),
            (None, None) => true,
            _ => false,
        },
{
    match opt_entries {
        None => None,
        Some(entries) => {
            let mut map_pid_parent: ProcessMap = HashMap::new();
            let mut i: usize = 0;
            assert(entries@.take(0) =~= Seq::empty());
            assert(process_table(map_pid_parent) =~= Map::empty());
            while i < entries.len()
                invariant
                    i <= entries@.len(),
                    process_table(map_pid_parent) == table_of(entries@.take(i as int)),
                decreases entries@.len() - i,
            {
                let str_exe = exe_name(entries[i].exe_units.as_slice());
                let ghost before = process_table(map_pid_parent);
                let ghost row = (entries[i as int].num_pid_parent, str_exe@);
                map_pid_parent.insert(entries[i].num_pid, (entries[i].num_pid_parent, str_exe));
                proof {
                    assert(entries@.take(i + 1).drop_last() =~= entries@.take(i as int));
                    assert(process_table(map_pid_parent) =~= before.insert(
                        entries[i as int].num_pid,
                        row,
                    ));
                }
                i = i + 1;
            }
            assert(entries@.take(i as int) =~= entries@);
            Some(map_pid_parent)
        },
    }
}

/// Whether a file name, in whatever case, is that of a Chromium-family
/// browser.
pub open spec fn is_browser_name(name: Seq<char>) -> bool {
    let lower = ascii_lower(name);
    lower == "chrome.exe"@ || lower == "msedge.exe"@ || lower == "brave.exe"@
}

/// Whether two texts are the same but for the case of ASCII letters, of which
/// `lower` holds small ones only.
pub open spec fn reads_as(name: Seq<char>, lower: Seq<char>) -> bool {
    &&& name.len() == lower.len()
    &&& forall|i: int|
        0 <= i < name.len() ==> #[trigger] name[i] == lower[i] || ('A' <= name[i] <= 'Z' && name[i]
            as int + 32 == lower[i] as int)
}

/// The browsers are Chrome, Edge and Brave, by their file names in any case, and
/// no other name is one.
pub proof fn law_browser_names(name: Seq<char>)
    ensures
        is_browser_name(name) <==> reads_as(name, "chrome.exe"@) || reads_as(name, "msedge.exe"@)
            || reads_as(name, "brave.exe"@),
{
    reveal_strlit("chrome.exe");
    reveal_strlit("msedge.exe");
    reveal_strlit("brave.exe");
    lemma_reads_as(name, "chrome.exe"@);
    lemma_reads_as(name, "msedge.exe"@);
    lemma_reads_as(name, "brave.exe"@);
}

proof fn lemma_reads_as(name: Seq<char>, lower: Seq<char>)
    requires
        forall|i: int| 0 <= i < lower.len() ==> !('A' <= #[trigger] lower[i] <= 'Z'),
    ensures
        ascii_lower(name) == lower <==> reads_as(name, lower),
{
    let got = ascii_lower(name);
    if got == lower {
        assert forall|i: int| 0 <= i < name.len() implies #[trigger] name[i] == lower[i] || ('A'
            <= name[i] <= 'Z' && name[i] as int + 32 == lower[i] as int) by {
            assert(got[i] == ascii_lower_char(name[i]));
        }
    }
    if reads_as(name, lower) {
        assert forall|i: int| 0 <= i < name.len() implies #[trigger] got[i] == lower[i] by {
            assert(got[i] == ascii_lower_char(name[i]));
            assert(name[i] == lower[i] || ('A' <= name[i] <= 'Z' && name[i] as int + 32
                == lower[i] as int));
        }
        assert(got =~= lower);
    }
}

/// Whether a file name is that of a Chromium-family browser.
pub fn is_browser_exe(str_exe: &str) -> (res: bool)
    ensures
        res == is_browser_name(str_exe@),
{
    let str_lower = to_ascii_lowercase(str_exe);
    str_lower == "chrome.exe".to_owned() || str_lower == "msedge.exe".to_owned() || str_lower
        == "brave.exe".to_owned()
}

/// The parent of a process: none for a process that is not listed, whose
/// parent is 0 or which is its own parent.
pub open spec fn parent_of(table: Map<u32, (u32, Seq<char>)>, pid: u32) -> Option<u32> {
    if table.contains_key(pid) && table[pid].0 != 0 && table[pid].0 != pid {
        Some(table[pid].0)
    } else {
        None
    }
}

/// The `hops`-th parent above a process.
pub open spec fn ancestor(table: Map<u32, (u32, Seq<char>)>, pid: u32, hops: nat) -> Option<u32>
    decreases hops,
{
    if hops == 0 {
        Some(pid)
    } else {
        match ancestor(table, pid, (hops - 1) as nat) {
            Some(child) => parent_of(table, child),
            None => None,
        }
    }
}

pub open spec fn runs_browser(table: Map<u32, (u32, Seq<char>)>, pid: u32) -> bool {
    table.contains_key(pid) && is_browser_name(table[pid].1)
}

pub open spec fn is_browser_ancestor(
    table: Map<u32, (u32, Seq<char>)>,
    pid: u32,
    hops: nat,
) -> bool {
    ancestor(table, pid, hops) matches Some(p) && runs_browser(table, p)
}

/// The topmost browser at most `hops` parents above a process, 0 where there
/// is none.
pub open spec fn topmost_browser(table: Map<u32, (u32, Seq<char>)>, pid: u32, hops: nat) -> u32
    decreases hops,
{
    if hops == 0 {
        0
    } else if is_browser_ancestor(table, pid, hops) {
        ancestor(table, pid, hops)->0
    } else {
        topmost_browser(table, pid, (hops - 1) as nat)
    }
}

proof fn lemma_chain_end(table: Map<u32, (u32, Seq<char>)>, pid: u32, end: nat, hops: nat)
    requires
        end <= hops,
        ancestor(table, pid, end) is None,
    ensures
        ancestor(table, pid, hops) is None,
        topmost_browser(table, pid, hops) == topmost_browser(table, pid, end),
    decreases hops,
{
    if end < hops {
        lemma_chain_end(table, pid, end, (hops - 1) as nat);
    }
}

/// Stands for the name of a parent that is no longer listed.
pub const STR_GONE: &'static str = "<gone>";

/// One step of the walk from a process to its ancestors.
#[derive(Debug, Clone)]
pub struct AncestorHop {
    pub num_pid_cursor: u32,
    pub num_pid_parent: u32,
    pub str_parent_exe: String,
    pub flag_is_browser: bool,
}

/// Whether `hop` is the step from the `hops`-th ancestor of a process to the
/// next one.
pub open spec fn is_hop(
    table: Map<u32, (u32, Seq<char>)>,
    pid: u32,
    hops: nat,
    hop: AncestorHop,
) -> bool {
    &&& ancestor(table, pid, hops) == Some(hop.num_pid_cursor)
    &&& ancestor(table, pid, hops + 1) == Some(hop.num_pid_parent)
    &&& hop.str_parent_exe@ == (if table.contains_key(hop.num_pid_parent) {
        table[hop.num_pid_parent].1
    } else {
        STR_GONE@
    })
    &&& hop.flag_is_browser == runs_browser(table, hop.num_pid_parent)
}

/// The ancestors of a process, nearest first, as far as they are known and the
/// cap allows.
pub fn walk_ancestors(map: &ProcessMap, num_pid_self: u32) -> (res: Vec<AncestorHop>)
    ensures
        res@.len() <= NUM_MAX_ANCESTRY_HOPS,
        forall|k: int|
            0 <= k < res@.len() ==> is_hop(
                process_table(*map),
                num_pid_self,
                k as nat,
                #[trigger] res@[k],
            ),
        res@.len() == NUM_MAX_ANCESTRY_HOPS || ancestor(
            process_table(*map),
            num_pid_self,
            res@.len() + 1,
        ) is None,
        res@.len() <= 10,
        res@.len() > 0 ==> res@[0].num_pid_cursor == num_pid_self,
        forall|k: int|
            0 <= k < res@.len() ==> {
                let hop = #[trigger] res@[k];
                &&& map@.contains_key(hop.num_pid_cursor)
                &&& hop.num_pid_parent == map@[hop.num_pid_cursor].0
                &&& hop.num_pid_parent != 0 && hop.num_pid_parent != hop.num_pid_cursor
                &&& hop.flag_is_browser <==> map@.contains_key(hop.num_pid_parent) && (reads_as(
                    map@[hop.num_pid_parent].1@,
                    "chrome.exe"@,
                ) || reads_as(map@[hop.num_pid_parent].1@, "msedge.exe"@) || reads_as(
                    map@[hop.num_pid_parent].1@,
                    "brave.exe"@,
                ))
            },
        forall|k: int, l: int|
            0 <= k && l == k + 1 && l < res@.len() ==> (#[trigger] res@[l]).num_pid_cursor == (
            #[trigger] res@[k]).num_pid_parent,
        forall|k: int|
            0 <= k < res@.len() ==> {
                let hop = #[trigger] res@[k];
                if map@.contains_key(hop.num_pid_parent) {
                    hop.str_parent_exe@ == map@[hop.num_pid_parent].1@
                } else {
                    hop.str_parent_exe@ == "<gone>"@
                }
            },
        ({
            let top = if res@.len() == 0 {
                num_pid_self
            } else {
                res@.last().num_pid_parent
            };
            res@.len() == 10 || !map@.contains_key(top) || map@[top].0 == 0 || map@[top].0 == top
        }),
{
    let ghost table = process_table(*map);
    let mut vec_hops: Vec<AncestorHop> = Vec::new();
    let mut num_pid_cursor: u32 = num_pid_self;
    while vec_hops.len() < NUM_MAX_ANCESTRY_HOPS
        invariant
            vec_hops@.len() <= NUM_MAX_ANCESTRY_HOPS,
            table == process_table(*map),
            ancestor(table, num_pid_self, vec_hops@.len()) == Some(num_pid_cursor),
            forall|k: int|
                0 <= k < vec_hops@.len() ==> is_hop(
                    table,
                    num_pid_self,
                    k as nat,
                    #[trigger] vec_hops@[k],
                ),
            vec_hops@.len() == 0 ==> num_pid_cursor == num_pid_self,
            vec_hops@.len() > 0 ==> vec_hops@[0].num_pid_cursor == num_pid_self
                && vec_hops@.last().num_pid_parent == num_pid_cursor,
            forall|k: int|
                0 <= k < vec_hops@.len() ==> {
                    let hop = #[trigger] vec_hops@[k];
                    &&& map@.contains_key(hop.num_pid_cursor)
                    &&& hop.num_pid_parent == map@[hop.num_pid_cursor].0
                    &&& hop.num_pid_parent != 0 && hop.num_pid_parent != hop.num_pid_cursor
                    &&& hop.flag_is_browser <==> map@.contains_key(hop.num_pid_parent) && (reads_as(
                        map@[hop.num_pid_parent].1@,
                        "chrome.exe"@,
                    ) || reads_as(map@[hop.num_pid_parent].1@, "msedge.exe"@) || reads_as(
                        map@[hop.num_pid_parent].1@,
                        "brave.exe"@,
                    ))
                },
            forall|k: int, l: int|
                0 <= k && l == k + 1 && l < vec_hops@.len() ==> (
                #[trigger] vec_hops@[l]).num_pid_cursor == (#[trigger] vec_hops@[k]).num_pid_parent,
            forall|k: int|
                0 <= k < vec_hops@.len() ==> {
                    let hop = #[trigger] vec_hops@[k];
                    if map@.contains_key(hop.num_pid_parent) {
                        hop.str_parent_exe@ == map@[hop.num_pid_parent].1@
                    } else {
                        hop.str_parent_exe@ == "<gone>"@
                    }
                },
        decreases NUM_MAX_ANCESTRY_HOPS - vec_hops@.len(),
    {
        let num_pid_parent: u32 = match map.get(&num_pid_cursor) {
            Some(entry) => entry.0,
            None => 0,
        };
        if num_pid_parent == 0 || num_pid_parent == num_pid_cursor {
            assert(ancestor(table, num_pid_self, vec_hops@.len() + 1) is None);
            return vec_hops;
        }
        let (str_parent_exe, flag_is_browser) = match map.get(&num_pid_parent) {
            Some(entry) => (entry.1.clone(), is_browser_exe(entry.1.as_str())),
            None => (STR_GONE.to_owned(), false),
        };
        let hop = AncestorHop { num_pid_cursor, num_pid_parent, str_parent_exe, flag_is_browser };
        assert(is_hop(table, num_pid_self, vec_hops@.len(), hop));
        proof {
            if map@.contains_key(num_pid_parent) {
                law_browser_names(map@[num_pid_parent].1@);
            }
        }
        vec_hops.push(hop);
        num_pid_cursor = num_pid_parent;
    }
    vec_hops
}

/// The pid of the topmost browser-family ancestor of `num_pid_self`; 0 where
/// the processes are unknown or none of the ancestors is a browser.
pub fn lookup_browser_pid(opt_map: &Option<ProcessMap>, num_pid_self: u32) -> (res: u32)
    ensures
        match opt_map {
            Some(map) => res == topmost_browser(
                process_table(*map),
                num_pid_self,
                NUM_MAX_ANCESTRY_HOPS as nat,
            ),
            None => res == 0,
        },
{
    let map = match opt_map {
        Some(map) => map,
        None => return 0,
    };
    let ghost table = process_table(*map);
    let vec_hops = walk_ancestors(map, num_pid_self);
    let mut num_pid_browser: u32 = 0;
    let mut i: usize = 0;
    while i < vec_hops.len()
        invariant
            i <= vec_hops@.len(),
            forall|k: int|
                0 <= k < vec_hops@.len() ==> is_hop(
                    table,
                    num_pid_self,
                    k as nat,
                    #[trigger] vec_hops@[k],
                ),
            num_pid_browser == topmost_browser(table, num_pid_self, i as nat),
        decreases vec_hops@.len() - i,
    {
        assert(is_hop(table, num_pid_self, i as nat, vec_hops@[i as int]));
        if vec_hops[i].flag_is_browser {
            num_pid_browser = vec_hops[i].num_pid_parent;
        }
        i = i + 1;
    }
    proof {
        if vec_hops@.len() < NUM_MAX_ANCESTRY_HOPS {
            lemma_chain_end(
                table,
                num_pid_self,
                vec_hops@.len() + 1,
                NUM_MAX_ANCESTRY_HOPS as nat,
            );
        }
    }
    num_pid_browser
}

/// Whether each pid of `chain` is the listed parent of the one before it, other
/// than 0 and than that one itself.
pub open spec fn is_chain(table: Map<u32, (u32, Seq<char>)>, chain: Seq<u32>) -> bool {
    forall|i: int, j: int|
        0 <= i && j == i + 1 && j < chain.len() ==> {
            &&& table.contains_key(#[trigger] chain[i])
            &&& table[chain[i]].0 == #[trigger] chain[j]
            &&& chain[j] != 0 && chain[j] != chain[i]
        }
}

proof fn lemma_chain_is_ancestry(table: Map<u32, (u32, Seq<char>)>, chain: Seq<u32>, n: int)
    requires
        is_chain(table, chain),
        0 <= n < chain.len(),
    ensures
        ancestor(table, chain[0], n as nat) == Some(chain[n]),
    decreases n,
{
    if n > 0 {
        lemma_chain_is_ancestry(table, chain, n - 1);
        assert(chain[n - 1 + 1] == chain[n]);
    }
}

proof fn lemma_no_browser_above(
    table: Map<u32, (u32, Seq<char>)>,
    chain: Seq<u32>,
    m: int,
    n: int,
)
    requires
        is_chain(table, chain),
        0 <= m <= n < chain.len(),
        m > 0 ==> table.contains_key(chain[m]) && is_browser_name(table[chain[m]].1),
        forall|j: int|
            m < j < chain.len() ==> !(table.contains_key(#[trigger] chain[j]) && is_browser_name(
                table[chain[j]].1,
            )),
    ensures
        topmost_browser(table, chain[0], n as nat) == (if m > 0 {
            chain[m]
        } else {
            0
        }),
    decreases n,
{
    lemma_chain_is_ancestry(table, chain, n);
    if n > m {
        lemma_no_browser_above(table, chain, m, n - 1);
        assert(!(table.contains_key(chain[n]) && is_browser_name(table[chain[n]].1)));
    }
}

/// What is found goes by the listed names of the ancestors alone. Of the chain
/// of parents above a process, followed for ten parents or as far as it is
/// listed, it is the last one that is listed under a browser's name, whatever
/// the rest of the table holds; 0 where none is.
pub proof fn law_last_listed_browser_is_found(
    table: Map<u32, (u32, Seq<char>)>,
    chain: Seq<u32>,
    m: int,
)
    requires
        1 <= chain.len() <= 11,
        is_chain(table, chain),
        chain.len() == 11 || !table.contains_key(chain.last()) || table[chain.last()].0 == 0
            || table[chain.last()].0 == chain.last(),
        0 <= m < chain.len(),
        m > 0 ==> table.contains_key(chain[m]) && (reads_as(table[chain[m]].1, "chrome.exe"@)
            || reads_as(table[chain[m]].1, "msedge.exe"@) || reads_as(
            table[chain[m]].1,
            "brave.exe"@,
        )),
        forall|j: int|
            m < j < chain.len() ==> !(table.contains_key(#[trigger] chain[j]) && (reads_as(
                table[chain[j]].1,
                "chrome.exe"@,
            ) || reads_as(table[chain[j]].1, "msedge.exe"@) || reads_as(
                table[chain[j]].1,
                "brave.exe"@,
            ))),
    ensures
        topmost_browser(table, chain[0], NUM_MAX_ANCESTRY_HOPS as nat) == (if m > 0 {
            chain[m]
        } else {
            0
        }),
{
    let n = chain.len() - 1;
    law_browser_names(table[chain[m]].1);
    assert forall|j: int| m < j < chain.len() implies !(table.contains_key(#[trigger] chain[j])
        && is_browser_name(table[chain[j]].1)) by {
        law_browser_names(table[chain[j]].1);
    }
    lemma_no_browser_above(table, chain, m, n);
    lemma_chain_is_ancestry(table, chain, n);
    if n < 10 {
        assert(ancestor(table, chain[0], (n + 1) as nat) is None);
        lemma_chain_end(table, chain[0], (n + 1) as nat, 10);
    }
}

/// An ancestor within the cap that is listed under a browser's name is never
/// passed over: something is found.
pub proof fn law_listed_browser_is_not_missed(
    table: Map<u32, (u32, Seq<char>)>,
    chain: Seq<u32>,
)
    requires
        2 <= chain.len() <= 11,
        is_chain(table, chain),
        table.contains_key(chain.last()),
        reads_as(table[chain.last()].1, "chrome.exe"@) || reads_as(
            table[chain.last()].1,
            "msedge.exe"@,
        ) || reads_as(table[chain.last()].1, "brave.exe"@),
    ensures
        topmost_browser(table, chain[0], NUM_MAX_ANCESTRY_HOPS as nat) != 0,
{
    let n = chain.len() - 1;
    lemma_chain_is_ancestry(table, chain, n);
    law_browser_names(table[chain.last()].1);
    law_topmost_browser_wins(table, chain[0], NUM_MAX_ANCESTRY_HOPS as nat);
    assert(is_browser_ancestor(table, chain[0], n as nat));
}

/// The topmost browser ancestor wins: the pid found is that of a browser some
/// parents up and no browser stands above it within the cap, and 0 is found
/// only where there is no browser.
pub proof fn law_topmost_browser_wins(
    table: Map<u32, (u32, Seq<char>)>,
    pid: u32,
    hops: nat,
)
    ensures
        ({
            let found = topmost_browser(table, pid, hops);
            if found == 0 {
                forall|k: nat| 1 <= k <= hops ==> !#[trigger] is_browser_ancestor(table, pid, k)
            } else {
                exists|k: nat|
                    1 <= k <= hops && #[trigger] is_browser_ancestor(table, pid, k) && ancestor(
                        table,
                        pid,
                        k,
                    ) == Some(found) && (forall|j: nat|
                        k < j <= hops ==> !#[trigger] is_browser_ancestor(table, pid, j))
            }
        }),
    decreases hops,
{
    if hops > 0 {
        let below = (hops - 1) as nat;
        law_topmost_browser_wins(table, pid, below);
        if is_browser_ancestor(table, pid, hops) {
            assert(parent_of(table, ancestor(table, pid, below)->0) is Some);
            assert(ancestor(table, pid, hops)->0 != 0);
        } else if topmost_browser(table, pid, hops) != 0 {
            let k = choose|k: nat|
                1 <= k <= below && #[trigger] is_browser_ancestor(table, pid, k) && ancestor(
                    table,
                    pid,
                    k,
                ) == Some(topmost_browser(table, pid, below)) && (forall|j: nat|
                    k < j <= below ==> !#[trigger] is_browser_ancestor(table, pid, j));
            assert(is_browser_ancestor(table, pid, k));
        }
    }
}

} // verus!
