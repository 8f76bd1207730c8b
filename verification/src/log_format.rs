//! The header of a log line.

use vstd::prelude::*;
use vstd::string::StrSliceExecFns;

verus! {

/// Whether `::` stands at `i`.
pub open spec fn separator_at(target: Seq<char>, i: int) -> bool {
    0 <= i && i + 1 < target.len() && target[i] == ':' && target[i + 1] == ':'
}

/// Whether `short` is what follows the last `::` of `target`, or all of
/// `target` where it holds none.
pub open spec fn is_last_segment(target: Seq<char>, short: Seq<char>) -> bool {
    if exists|i: int| separator_at(target, i) {
        exists|i: int| #[trigger]
            separator_at(target, i) && short == target.skip(i + 2) && (forall|j: int|
                i < j ==> !#[trigger] separator_at(target, j))
    } else {
        short == target
    }
}

/// What follows the last `::` is that alone: behind `prefix` and `::`, a segment
/// without `::` that does not begin with a colon is what is shown, and a target
/// without `::` is shown whole.
pub proof fn law_last_segment_is_shown(
    target: Seq<char>,
    prefix: Seq<char>,
    segment: Seq<char>,
    short: Seq<char>,
)
    requires
        is_last_segment(target, short),
        forall|i: int, j: int|
            0 <= i && j == i + 1 && j < segment.len() ==> !(#[trigger] segment[i] == ':'
                && #[trigger] segment[j] == ':'),
    ensures
        target == prefix + seq![':', ':'] + segment && (segment.len() == 0 || segment[0] != ':')
            ==> short == segment,
        target == segment ==> short == target,
{
    if target == segment {
        assert forall|i: int| !#[trigger] separator_at(target, i) by {
            assert(separator_at(target, i) ==> segment[i] == ':' && segment[i + 1] == ':');
        }
    } else if target == prefix + seq![':', ':'] + segment && (segment.len() == 0 || segment[0]
        != ':') {
        let n = prefix.len() as int;
        assert(target[n] == ':' && target[n + 1] == ':');
        assert(separator_at(target, n));
        assert forall|j: int| n < j implies !#[trigger] separator_at(target, j) by {
            if separator_at(target, j) {
                if j == n + 1 {
                    assert(target[n + 2] == segment[0]);
                } else {
                    assert(target[j] == segment[j - n - 2]);
                    assert(target[j + 1] == segment[j - n - 1]);
                }
            }
        }
        assert(target.skip(n + 2) =~= segment);
    }
}

/// The last segment of a module path.
pub fn short_target(str_target: &str) -> (res: &str)
    ensures
        is_last_segment(str_target@, res@),
{
    let num_len = str_target.unicode_len();
    let mut i: usize = num_len;
    assert(str_target@.subrange(0, num_len as int) =~= str_target@);
    while i >= 2
        invariant
            i <= num_len,
            num_len == str_target@.len(),
            str_target@.subrange(0, num_len as int) == str_target@,
            forall|j: int| i - 1 <= j ==> !#[trigger] separator_at(str_target@, j),
        decreases i,
    {
        if str_target.get_char(i - 1) == ':' && str_target.get_char(i - 2) == ':' {
            assert(separator_at(str_target@, i - 2));
            assert(str_target@.skip(i as int) =~= str_target@.subrange(i as int, num_len as int));
            return str_target.substring_char(i, num_len);
        }
        i = i - 1;
    }
    str_target
}

} // verus!
