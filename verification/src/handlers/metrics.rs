//! The use of processor, memory and disk, from what the system says of it.
//!
//! The control group counts first, since the system's own files describe the host.
use vstd::prelude::*;
use crate::commands::instance_stats;
use crate::text;

verus! {

/// The processor time in microseconds that `cpu.stat` states.
pub fn parse_cpu_stat_usec(raw: &str) -> (r: Option<u64>)
    ensures
        r == instance_stats::number_behind(raw@, "usage_usec "@),
{
    instance_stats::read_behind(raw, "usage_usec ")
}

/// The first line that begins with a prefix.
pub open spec fn line_with(lines: Seq<Seq<char>>, prefix: Seq<char>) -> Option<Seq<char>>
    decreases lines.len(),
{
    if lines.len() == 0 {
        None
    } else if text::begins(lines[0], prefix) {
        Some(lines[0])
    } else {
        line_with(lines.skip(1), prefix)
    }
}

/// The first line that begins with a prefix.
fn find_line(raw: &str, prefix: &str) -> (r: Option<String>)
    ensures
        r.deep_view() == line_with(text::lines(raw@), prefix@),
{
    let lines = text::split_lines(raw);
    let ghost all = lines.deep_view();
    assert(all.skip(0) =~= all);
    for i in 0..lines.len()
        invariant
            all == lines.deep_view(),
            all == text::lines(raw@),
            line_with(all, prefix@) == line_with(all.skip(i as int), prefix@),
    {
        assert(all.skip(i as int)[0] == lines@[i as int]@);
        if text::starts_with(lines[i].as_str(), prefix) {
            return Some(lines[i].clone());
        }
        assert(all.skip(i as int).skip(1) =~= all.skip(i + 1));
    }
    None
}

/// The numbers among words.
pub open spec fn numbers(words: Seq<Seq<char>>) -> Seq<u64>
    decreases words.len(),
{
    if words.len() == 0 {
        Seq::empty()
    } else {
        match text::number(words.last()) {
            Some(n) => numbers(words.drop_last()).push(n),
            None => numbers(words.drop_last()),
        }
    }
}

/// A number in a row; zero where there is none.
pub open spec fn at_or_zero(v: Seq<u64>, i: int) -> int {
    if 0 <= i < v.len() {
        v[i] as int
    } else {
        0
    }
}

/// The processor time of a row of counters without idle and waiting time: those of
/// users, of nice processes, of the system, of interrupts and of other guests.
pub open spec fn busy(v: Seq<u64>) -> int {
    v[0] + v[1] + v[2] + at_or_zero(v, 5) + at_or_zero(v, 6) + at_or_zero(v, 7)
}

/// The counters of the line for all processors.
pub open spec fn counters(raw: Seq<char>) -> Option<Seq<u64>> {
    match line_with(text::lines(raw), "cpu "@) {
        Some(line) => if text::words(line).len() > 0 {
            Some(numbers(text::words(line).skip(1)))
        } else {
            Some(Seq::empty())
        },
        None => None,
    }
}

/// The processor time in ticks that `/proc/stat` states; nothing where it is too large
/// for 64 bits.
pub open spec fn busy_ticks(raw: Seq<char>) -> Option<u64> {
    match counters(raw) {
        Some(v) => if v.len() >= 4 && busy(v) <= u64::MAX {
            Some(busy(v) as u64)
        } else {
            None
        },
        None => None,
    }
}

/// A number in a row; zero where there is none.
fn number_at(v: &Vec<u64>, i: usize) -> (r: u64)
    ensures
        r == at_or_zero(v@, i as int),
{
    if i < v.len() {
        v[i]
    } else {
        0
    }
}

/// The processor time in ticks that `/proc/stat` states, without idle and waiting
/// time.
pub fn parse_proc_stat_busy_ticks(raw: &str) -> (r: Option<u64>)
    ensures
        r == busy_ticks(raw@),
{
    let line = match find_line(raw, "cpu ") {
        Some(l) => l,
        None => {
            return None;
        },
    };
    let words = text::split_words(line.as_str());
    let ghost all = words.deep_view();
    let mut v: Vec<u64> = Vec::new();
    assert(all.len() == words@.len());
    if words.len() == 0 {
        return None;
    }
    let ghost rest = all.skip(1);
    assert(rest.take(0) =~= Seq::empty());
    for i in 1..words.len()
        invariant
            all == words.deep_view(),
            rest == all.skip(1),
            words@.len() > 0,
            v@ == numbers(rest.take(i - 1)),
    {
        assert(rest.take(i as int).drop_last() =~= rest.take(i - 1));
        assert(rest.take(i as int).last() == words@[i as int]@);
        if let Some(n) = text::parse_u64(words[i].as_str()) {
            v.push(n);
        }
    }
    assert(rest.take(words@.len() - 1) =~= rest);
    if v.len() < 4 {
        return None;
    }
    let sum: u128 = v[0] as u128 + v[1] as u128 + v[2] as u128 + number_at(&v, 5) as u128 + number_at(
        &v,
        6,
    ) as u128 + number_at(&v, 7) as u128;
    if sum <= u64::MAX as u128 {
        Some(sum as u64)
    } else {
        None
    }
}

/// The number that `/proc/meminfo` states for a key, in kilobytes.
pub open spec fn meminfo(raw: Seq<char>, key: Seq<char>) -> Option<u64> {
    match line_with(text::lines(raw), key + ":"@) {
        Some(line) => if text::words(line).len() > 1 {
            text::number(text::words(line)[1])
        } else {
            None
        },
        None => None,
    }
}

/// The number that `/proc/meminfo` states for a key, in kilobytes.
pub fn parse_meminfo_kb(raw: &str, key: &str) -> (r: Option<u64>)
    ensures
        r == meminfo(raw@, key@),
{
    match find_line(raw, text::cat2(key, ":").as_str()) {
        Some(line) => {
            let words = text::split_words(line.as_str());
            assert(words.deep_view().len() == words@.len());
            if words.len() > 1 {
                assert(words.deep_view()[1] == words@[1]@);
                text::parse_u64(words[1].as_str())
            } else {
                None
            }
        },
        None => None,
    }
}

/// The number that a line states for a key.
pub open spec fn stated(line: Seq<char>, key: Seq<char>) -> Option<u64> {
    let words = text::words(line);
    if words.len() > 1 && words[0] == key {
        text::number(words[1])
    } else {
        None
    }
}

/// The number that the first of the lines states for a key.
pub open spec fn first_stated(lines: Seq<Seq<char>>, key: Seq<char>) -> Option<u64>
    decreases lines.len(),
{
    if lines.len() == 0 {
        None
    } else {
        match stated(lines[0], key) {
            Some(n) => Some(n),
            None => first_stated(lines.skip(1), key),
        }
    }
}

/// The number that `memory.stat` states for a key.
pub fn parse_memory_stat_key(raw: &str, key: &str) -> (r: Option<u64>)
    ensures
        r == first_stated(text::lines(raw@), key@),
{
    let lines = text::split_lines(raw);
    let ghost all = lines.deep_view();
    assert(all.skip(0) =~= all);
    for i in 0..lines.len()
        invariant
            all == lines.deep_view(),
            all == text::lines(raw@),
            first_stated(all, key@) == first_stated(all.skip(i as int), key@),
    {
        assert(all.skip(i as int)[0] == lines@[i as int]@);
        let words = text::split_words(lines[i].as_str());
        assert(words.deep_view().len() == words@.len());
        if words.len() > 1 {
            assert(words.deep_view()[0] == words@[0]@);
            assert(words.deep_view()[1] == words@[1]@);
            if text::same(words[0].as_str(), key) {
                if let Some(n) = text::parse_u64(words[1].as_str()) {
                    return Some(n);
                }
            }
        }
        assert(all.skip(i as int).skip(1) =~= all.skip(i + 1));
    }
    None
}

/// The limit that a file of the control group states; nothing where there is none, or
/// where it is so large that it means none.
pub open spec fn limit(raw: Seq<char>) -> Option<u64> {
    if text::trim(raw) == "max"@ {
        None
    } else {
        match text::number(text::trim(raw)) {
            Some(n) => if n >= u64::MAX / 2 {
                None
            } else {
                Some(n)
            },
            None => None,
        }
    }
}

/// The limit that a file of the control group states.
pub fn read_cgroup_limit(raw: &str) -> (r: Option<u64>)
    ensures
        r == limit(raw@),
{
    let t = text::trimmed(raw);
    if text::same(t.as_str(), "max") {
        return None;
    }
    match text::parse_u64(t.as_str()) {
        Some(n) => if n >= u64::MAX / 2 {
            None
        } else {
            Some(n)
        },
        None => None,
    }
}

/// The number that a file states.
pub open spec fn whole(raw: Option<Seq<char>>) -> Option<u64> {
    match raw {
        Some(s) => text::number(text::trim(s)),
        None => None,
    }
}

/// The number that a file states.
fn read_whole(raw: &Option<String>) -> (r: Option<u64>)
    ensures
        r == whole(raw.deep_view()),
{
    match raw {
        Some(s) => text::parse_u64(text::trimmed(s.as_str()).as_str()),
        None => None,
    }
}

/// The files of a control group that tell about memory.
#[derive(Debug)]
pub struct MemoryGroup {
    pub current: Option<String>,
    pub stat: Option<String>,
    pub max: Option<String>,
}

/// The use of memory in a group, in kilobytes: what is used without the files that are
/// only cached, and the limit, where one is set.
pub open spec fn group_memory(current: u64, g: MemoryGroup, cached_key: Seq<char>, host: Option<u64>) -> (
    Option<u64>,
    Option<u64>,
) {
    let cached = match g.stat {
        Some(s) => match first_stated(text::lines(s@), cached_key) {
            Some(n) => n,
            None => 0,
        },
        None => 0,
    };
    let used = if current >= cached {
        (current - cached) / 1024
    } else {
        0
    };
    (
        Some(used as u64),
        match g.max {
            Some(m) => match limit(m@) {
                Some(b) => Some(b / 1024),
                None => host,
            },
            None => host,
        },
    )
}

/// The use of memory in a group.
fn read_group(current: u64, g: &MemoryGroup, cached_key: &str, host: Option<u64>) -> (r: (
    Option<u64>,
    Option<u64>,
))
    ensures
        r == group_memory(current, *g, cached_key@, host),
{
    let cached: u64 = match &g.stat {
        Some(s) => match parse_memory_stat_key(s.as_str(), cached_key) {
            Some(n) => n,
            None => 0,
        },
        None => 0,
    };
    let used: u64 = if current >= cached {
        (current - cached) / 1024
    } else {
        0
    };
    let total: Option<u64> = match &g.max {
        Some(m) => match read_cgroup_limit(m.as_str()) {
            Some(b) => Some(b / 1024),
            None => host,
        },
        None => host,
    };
    (Some(used), total)
}

/// What a file states for a key, where there is a file.
pub open spec fn meminfo_in(raw: Option<Seq<char>>, key: Seq<char>) -> Option<u64> {
    match raw {
        Some(s) => meminfo(s, key),
        None => None,
    }
}

/// The used and the total memory in kilobytes: of the group in its new or its old
/// layout, or else of the host.
pub open spec fn memory(host: Option<Seq<char>>, v2: MemoryGroup, v1: MemoryGroup) -> (
    Option<u64>,
    Option<u64>,
) {
    let total = meminfo_in(host, "MemTotal"@);
    match whole(v2.current.deep_view()) {
        Some(current) => group_memory(current, v2, "inactive_file"@, total),
        None => match whole(v1.current.deep_view()) {
            Some(usage) => group_memory(usage, v1, "total_inactive_file"@, total),
            None => (
                match (total, meminfo_in(host, "MemAvailable"@)) {
                    (Some(t), Some(a)) => Some(
                        if t >= a {
                            (t - a) as u64
                        } else {
                            0
                        },
                    ),
                    _ => None,
                },
                total,
            ),
        },
    }
}

/// The used and the total memory in kilobytes.
pub fn read_memory(meminfo: &Option<String>, v2: &MemoryGroup, v1: &MemoryGroup) -> (r: (
    Option<u64>,
    Option<u64>,
))
    ensures
        r == memory(meminfo.deep_view(), *v2, *v1),
{
    let total: Option<u64> = match meminfo {
        Some(s) => parse_meminfo_kb(s.as_str(), "MemTotal"),
        None => None,
    };
    if let Some(current) = read_whole(&v2.current) {
        return read_group(current, v2, "inactive_file", total);
    }
    if let Some(usage) = read_whole(&v1.current) {
        return read_group(usage, v1, "total_inactive_file", total);
    }
    let available: Option<u64> = match meminfo {
        Some(s) => parse_meminfo_kb(s.as_str(), "MemAvailable"),
        None => None,
    };
    let used: Option<u64> = match total {
        Some(t) => match available {
            Some(a) => Some(
                if t >= a {
                    t - a
                } else {
                    0
                },
            ),
            None => None,
        },
        None => None,
    };
    (used, total)
}

/// The processor time that was used, in the unit of its source.
#[derive(Clone, Copy, Debug, PartialEq, Eq, Structural)]
pub enum CpuUsage {
    Micros(u64),
    Nanos(u64),
    Ticks(u64),
}

/// The processor time that was used: of the group in its new or its old layout, or
/// else of the host.
pub open spec fn cpu_usage(
    cpu_stat: Option<Seq<char>>,
    v1: Option<Seq<char>>,
    v1_other: Option<Seq<char>>,
    proc_stat: Option<Seq<char>>,
) -> Option<CpuUsage> {
    if cpu_stat is Some && instance_stats::number_behind(cpu_stat->0, "usage_usec "@) is Some {
        Some(CpuUsage::Micros(instance_stats::number_behind(cpu_stat->0, "usage_usec "@)->0))
    } else if whole(v1) is Some {
        Some(CpuUsage::Nanos(whole(v1)->0))
    } else if whole(v1_other) is Some {
        Some(CpuUsage::Nanos(whole(v1_other)->0))
    } else if proc_stat is Some && busy_ticks(proc_stat->0) is Some {
        Some(CpuUsage::Ticks(busy_ticks(proc_stat->0)->0))
    } else {
        None
    }
}

/// The processor time that was used.
pub fn read_cpu_usage(
    cpu_stat: &Option<String>,
    v1: &Option<String>,
    v1_other: &Option<String>,
    proc_stat: &Option<String>,
) -> (r: Option<CpuUsage>)
    ensures
        r == cpu_usage(
            cpu_stat.deep_view(),
            v1.deep_view(),
            v1_other.deep_view(),
            proc_stat.deep_view(),
        ),
{
    if let Some(s) = cpu_stat {
        if let Some(n) = parse_cpu_stat_usec(s.as_str()) {
            return Some(CpuUsage::Micros(n));
        }
    }
    if let Some(n) = read_whole(v1) {
        return Some(CpuUsage::Nanos(n));
    }
    if let Some(n) = read_whole(v1_other) {
        return Some(CpuUsage::Nanos(n));
    }
    if let Some(s) = proc_stat {
        if let Some(n) = parse_proc_stat_busy_ticks(s.as_str()) {
            return Some(CpuUsage::Ticks(n));
        }
    }
    None
}

/// The used and the total bytes of a file system; nothing where it has none, or more
/// than 64 bits count.
pub open spec fn disk(frsize: u64, bsize: u64, blocks: u64, bfree: u64) -> (
    Option<u64>,
    Option<u64>,
) {
    let size = if frsize > 0 {
        frsize
    } else {
        bsize
    };
    let total = blocks * size;
    let used = if blocks >= bfree {
        (blocks - bfree) * size
    } else {
        0
    };
    if 0 < total <= u64::MAX {
        (Some(used as u64), Some(total as u64))
    } else {
        (None, None)
    }
}

/// The used and the total bytes of a file system, from the size and the number of its
/// blocks.
pub fn disk_usage(frsize: u64, bsize: u64, blocks: u64, bfree: u64) -> (r: (
    Option<u64>,
    Option<u64>,
))
    ensures
        r == disk(frsize, bsize, blocks, bfree),
{
    let size: u64 = if frsize > 0 {
        frsize
    } else {
        bsize
    };
    match blocks.checked_mul(size) {
        Some(total) => {
            if total == 0 {
                return (None, None);
            }
            let taken: u64 = if blocks >= bfree {
                blocks - bfree
            } else {
                0
            };
            assert(taken * size <= blocks * size) by (nonlinear_arith)
                requires
                    taken <= blocks,
            ;
            let used: u64 = taken * size;
            (Some(used), Some(total))
        },
        None => (None, None),
    }
}

/// The memory that a container uses is never read from the machine around it, and
/// neither is its limit where it has one.
pub proof fn container_memory_is_its_own(
    host: Option<Seq<char>>,
    other: Option<Seq<char>>,
    v2: MemoryGroup,
    v1: MemoryGroup,
)
    requires
        whole(v2.current.deep_view()) is Some || whole(v1.current.deep_view()) is Some,
    ensures
        memory(host, v2, v1).0 == memory(other, v2, v1).0,
        memory(host, v2, v1).0 is Some,
        memory(None, v2, v1).1 is Some ==> memory(host, v2, v1).1 == memory(None, v2, v1).1,
{
}

} // verus!
