//! What the control group and the file system say of an instance's resources.
//!
//! A value that cannot be read is missing; it is never taken from elsewhere.
use vstd::prelude::*;
use crate::text;

verus! {

/// What follows a prefix in the first line that begins with it.
pub open spec fn behind(lines: Seq<Seq<char>>, prefix: Seq<char>) -> Option<Seq<char>>
    decreases lines.len(),
{
    if lines.len() == 0 {
        None
    } else {
        match text::without_prefix(lines[0], prefix) {
            Some(rest) => Some(rest),
            None => behind(lines.skip(1), prefix),
        }
    }
}

/// What follows a prefix in the first line that begins with it.
pub fn find_behind(raw: &str, prefix: &str) -> (r: Option<String>)
    ensures
        r.deep_view() == behind(text::lines(raw@), prefix@),
{
    let lines = text::split_lines(raw);
    let ghost all = lines.deep_view();
    assert(all.skip(0) =~= all);
    for i in 0..lines.len()
        invariant
            all == lines.deep_view(),
            all == text::lines(raw@),
            behind(all, prefix@) == behind(all.skip(i as int), prefix@),
    {
        assert(all.skip(i as int)[0] == lines@[i as int]@);
        if let Some(rest) = text::strip_prefix(lines[i].as_str(), prefix) {
            return Some(rest);
        }
        assert(all.skip(i as int).skip(1) =~= all.skip(i + 1));
    }
    None
}

/// The number behind a prefix, in the first line that begins with it.
pub open spec fn number_behind(raw: Seq<char>, prefix: Seq<char>) -> Option<u64> {
    match behind(text::lines(raw), prefix) {
        Some(rest) => text::number(text::trim(rest)),
        None => None,
    }
}

/// The number behind a prefix, in the first line that begins with it.
pub fn read_behind(raw: &str, prefix: &str) -> (r: Option<u64>)
    ensures
        r == number_behind(raw@, prefix@),
{
    match find_behind(raw, prefix) {
        Some(rest) => text::parse_u64(text::trimmed(rest.as_str()).as_str()),
        None => None,
    }
}

/// The processor time in microseconds that `cpu.stat` states, found by its key.
pub fn parse_usage_usec(raw: &str) -> (r: Option<u64>)
    ensures
        r == number_behind(raw@, "usage_usec "@),
{
    read_behind(raw, "usage_usec ")
}

/// The limit that `memory.max` states; nothing where there is no limit.
pub open spec fn memory_limit(raw: Seq<char>) -> Option<u64> {
    if text::trim(raw) == "max"@ {
        None
    } else {
        text::number(text::trim(raw))
    }
}

/// The limit that `memory.max` states; nothing where there is no limit.
pub fn parse_mem_max(raw: &str) -> (r: Option<u64>)
    ensures
        r == memory_limit(raw@),
{
    let t = text::trimmed(raw);
    if text::same(t.as_str(), "max") {
        return None;
    }
    text::parse_u64(t.as_str())
}

/// The used and the total bytes that `df` states in its second line.
pub open spec fn disk(raw: Seq<char>) -> (Option<u64>, Option<u64>) {
    let lines = text::lines(raw);
    if lines.len() < 2 || text::words(lines[1]).len() < 4 {
        (None, None)
    } else {
        let cols = text::words(lines[1]);
        (text::number(cols[2]), text::number(cols[1]))
    }
}

/// The used and the total bytes that `df -B1 /` states: a header line, then the file
/// system, the total, the used and the free bytes.
pub fn parse_df(raw: &str) -> (r: (Option<u64>, Option<u64>))
    ensures
        r == disk(raw@),
{
    let lines = text::split_lines(raw);
    assert(lines.deep_view().len() == lines@.len());
    if lines.len() < 2 {
        return (None, None);
    }
    assert(lines.deep_view()[1] == lines@[1]@);
    let cols = text::split_words(lines[1].as_str());
    assert(cols.deep_view().len() == cols@.len());
    if cols.len() < 4 {
        return (None, None);
    }
    assert(cols.deep_view()[1] == cols@[1]@);
    assert(cols.deep_view()[2] == cols@[2]@);
    (text::parse_u64(cols[2].as_str()), text::parse_u64(cols[1].as_str()))
}

/// The processor time between two readings. The counter only goes up; where it does
/// not, nothing was used.
pub fn used_between(before: u64, after: u64) -> (r: u64)
    ensures
        r == if after >= before {
            after - before
        } else {
            0
        },
{
    if after >= before {
        after - before
    } else {
        0
    }
}

} // verus!
