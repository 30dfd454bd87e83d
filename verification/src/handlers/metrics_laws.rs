//! What the figures of an instance say.
use vstd::prelude::*;
use crate::commands::instance_stats;
use crate::handlers::metrics;
use crate::handlers::metrics::{CpuUsage, MemoryGroup};
use crate::text;

verus! {

/// The first line that begins with the prefix counts.
pub proof fn the_first_line_counts(lines: Seq<Seq<char>>, prefix: Seq<char>, i: int)
    requires
        0 <= i <= lines.len(),
        forall|j: int| 0 <= j < i ==> !text::begins(#[trigger] lines[j], prefix),
        i < lines.len() ==> text::begins(lines[i], prefix),
    ensures
        i < lines.len() ==> metrics::line_with(lines, prefix) == Some(lines[i])
            && instance_stats::behind(lines, prefix) == Some(lines[i].skip(prefix.len() as int)),
        i == lines.len() ==> metrics::line_with(lines, prefix) is None && instance_stats::behind(
            lines,
            prefix,
        ) is None,
    decreases i,
{
    if i > 0 {
        assert(!text::begins(lines[0], prefix));
        let rest = lines.skip(1);
        assert forall|j: int| 0 <= j < i - 1 implies !text::begins(#[trigger] rest[j], prefix) by {
            assert(rest[j] == lines[j + 1]);
        }
        the_first_line_counts(rest, prefix, i - 1);
    }
}

/// The number behind a prefix is the one on the first line that begins with it, whatever
/// white space is around it.
pub proof fn numbers_stand_behind_their_names(raw: Seq<char>, prefix: Seq<char>, i: int)
    requires
        0 <= i < text::lines(raw).len(),
        forall|j: int| 0 <= j < i ==> !text::begins(#[trigger] text::lines(raw)[j], prefix),
        text::begins(text::lines(raw)[i], prefix),
    ensures
        instance_stats::number_behind(raw, prefix) == text::number(
            text::trim(text::lines(raw)[i].skip(prefix.len() as int)),
        ),
{
    the_first_line_counts(text::lines(raw), prefix, i);
}

/// The numbers among the words, in their order.
pub proof fn words_that_are_numbers_count(words: Seq<Seq<char>>, w: Seq<char>)
    ensures
        metrics::numbers(Seq::empty()).len() == 0,
        text::number(w) matches Some(n) ==> metrics::numbers(words.push(w)) == metrics::numbers(
            words,
        ).push(n),
        text::number(w) is None ==> metrics::numbers(words.push(w)) == metrics::numbers(words),
{
    assert(words.push(w).drop_last() =~= words);
}

/// The busy time of the processor is what it spent for users, nice users, the system,
/// interrupts and what was stolen; idle and waiting time do not count, and figures that are
/// missing are nought.
pub proof fn idle_time_is_not_busy(v: Seq<u64>)
    requires
        v.len() >= 8,
    ensures
        metrics::busy(v) == v[0] + v[1] + v[2] + v[5] + v[6] + v[7],
        metrics::busy(v.take(4)) == v[0] + v[1] + v[2],
{
}

/// The busy time is read from the line of all processors; without it, or with too few
/// figures, there is none.
pub proof fn busy_time_is_read(raw: Seq<char>, i: int)
    requires
        0 <= i <= text::lines(raw).len(),
        forall|j: int| 0 <= j < i ==> !text::begins(#[trigger] text::lines(raw)[j], "cpu "@),
        i < text::lines(raw).len() ==> text::begins(text::lines(raw)[i], "cpu "@) && text::words(
            text::lines(raw)[i],
        ).len() > 0,
    ensures
        i == text::lines(raw).len() ==> metrics::busy_ticks(raw) is None,
        i < text::lines(raw).len() ==> {
            let v = metrics::numbers(text::words(text::lines(raw)[i]).skip(1));
            &&& v.len() < 4 ==> metrics::busy_ticks(raw) is None
            &&& v.len() >= 4 && metrics::busy(v) <= u64::MAX ==> metrics::busy_ticks(raw) == Some(
                metrics::busy(v) as u64,
            )
        },
{
    the_first_line_counts(text::lines(raw), "cpu "@, i);
}

/// A figure of the host is the second word of the first line that begins with its name and a
/// colon.
pub proof fn figures_of_the_host_are_read(raw: Seq<char>, key: Seq<char>, i: int)
    requires
        0 <= i <= text::lines(raw).len(),
        forall|j: int| 0 <= j < i ==> !text::begins(#[trigger] text::lines(raw)[j], key + ":"@),
        i < text::lines(raw).len() ==> text::begins(text::lines(raw)[i], key + ":"@),
    ensures
        i == text::lines(raw).len() ==> metrics::meminfo(raw, key) is None,
        i < text::lines(raw).len() && text::words(text::lines(raw)[i]).len() > 1
            ==> metrics::meminfo(raw, key) == text::number(text::words(text::lines(raw)[i])[1]),
{
    the_first_line_counts(text::lines(raw), key + ":"@, i);
}

/// A figure of a group is the number behind its name, on the first line that has both.
pub proof fn figures_of_a_group_are_read(lines: Seq<Seq<char>>, key: Seq<char>, i: int, n: u64)
    requires
        0 <= i < lines.len(),
        forall|j: int|
            0 <= j < i ==> text::words(#[trigger] lines[j]).len() <= 1 || text::words(lines[j])[0]
                != key || text::number(text::words(lines[j])[1]) is None,
        text::words(lines[i]).len() > 1,
        text::words(lines[i])[0] == key,
        text::number(text::words(lines[i])[1]) == Some(n),
    ensures
        metrics::first_stated(lines, key) == Some(n),
    decreases i,
{
    if i > 0 {
        let rest = lines.skip(1);
        assert(text::words(lines[0]).len() <= 1 || text::words(lines[0])[0] != key || text::number(
            text::words(lines[0])[1],
        ) is None);
        assert forall|j: int| 0 <= j < i - 1 implies text::words(#[trigger] rest[j]).len() <= 1
            || text::words(rest[j])[0] != key || text::number(text::words(rest[j])[1]) is None by {
            assert(rest[j] == lines[j + 1]);
        }
        figures_of_a_group_are_read(rest, key, i - 1, n);
    }
}

/// A limit is a number; `max` is none, and so is a number that stands for none.
pub proof fn limits_are_read(raw: Seq<char>, n: u64)
    ensures
        text::trim(raw) == "max"@ ==> metrics::limit(raw) is None && instance_stats::memory_limit(
            raw,
        ) is None,
        text::number(text::trim(raw)) == Some(n) && n < 0x7fff_ffff_ffff_ffff ==> metrics::limit(
            raw,
        ) == Some(n),
        text::number(text::trim(raw)) == Some(n) && n >= 0x7fff_ffff_ffff_ffff ==> metrics::limit(
            raw,
        ) is None,
        text::number(text::trim(raw)) == Some(n) ==> instance_stats::memory_limit(raw) == Some(n),
        text::number(text::trim(raw)) is None ==> metrics::limit(raw) is None
            && instance_stats::memory_limit(raw) is None,
{
    reveal_strlit("max");
    assert("max"@[0] == 'm');
}

/// What a group cached and does not use.
pub open spec fn cached(g: MemoryGroup, key: Seq<char>) -> u64 {
    if g.stat is Some && metrics::first_stated(text::lines(g.stat->0@), key) is Some {
        metrics::first_stated(text::lines(g.stat->0@), key)->0
    } else {
        0
    }
}

/// The memory of an instance is told in kibibytes: what its group uses without the files that
/// it only cached, out of the limit of the group, or else of what the host has. The older kind
/// of group counts where there is none of the newer kind.
pub proof fn memory_is_told(host: Option<Seq<char>>, v2: MemoryGroup, v1: MemoryGroup, used: u64, bytes: u64)
    ensures
        v2.current is Some && text::number(text::trim(v2.current->0@)) == Some(used) && used >= cached(
            v2,
            "inactive_file"@,
        ) ==> metrics::memory(host, v2, v1).0 == Some(
            ((used - cached(v2, "inactive_file"@)) / 1024) as u64,
        ),
        v2.current is Some && text::number(text::trim(v2.current->0@)) == Some(used) && v2.max is Some
            && metrics::limit(v2.max->0@) == Some(bytes) ==> metrics::memory(host, v2, v1).1 == Some(
            bytes / 1024,
        ),
        v2.current is Some && text::number(text::trim(v2.current->0@)) == Some(used) && v2.max is None
            && host is Some ==> metrics::memory(host, v2, v1).1 == metrics::meminfo(
            host->0,
            "MemTotal"@,
        ),
        v2.current is None && v1.current is Some && text::number(text::trim(v1.current->0@)) == Some(
            used,
        ) && used >= cached(v1, "total_inactive_file"@) ==> metrics::memory(host, v2, v1).0 == Some(
            ((used - cached(v1, "total_inactive_file"@)) / 1024) as u64,
        ),
        v2.current is None && v1.current is Some && text::number(text::trim(v1.current->0@)) == Some(
            used,
        ) && v1.max is Some && metrics::limit(v1.max->0@) == Some(bytes) ==> metrics::memory(
            host,
            v2,
            v1,
        ).1 == Some(bytes / 1024),
{
}

/// Without a group, the memory is that of the host: what is not available of its total.
pub proof fn memory_of_the_host_is_told(host: Seq<char>, v2: MemoryGroup, v1: MemoryGroup, total: u64, available: u64)
    requires
        v2.current is None,
        v1.current is None,
        metrics::meminfo(host, "MemTotal"@) == Some(total),
    ensures
        metrics::memory(Some(host), v2, v1).1 == Some(total),
        metrics::meminfo(host, "MemAvailable"@) == Some(available) && available <= total
            ==> metrics::memory(Some(host), v2, v1).0 == Some((total - available) as u64),
        metrics::meminfo(host, "MemAvailable"@) is None ==> metrics::memory(Some(host), v2, v1).0 is None,
{
}

/// The time of the processor is taken from the first source that tells it, in its own unit.
pub proof fn processor_time_is_told(
    cpu_stat: Seq<char>,
    v1: Seq<char>,
    other: Seq<char>,
    proc_stat: Seq<char>,
    n: u64,
)
    ensures
        instance_stats::number_behind(cpu_stat, "usage_usec "@) == Some(n) ==> metrics::cpu_usage(
            Some(cpu_stat),
            Some(v1),
            Some(other),
            Some(proc_stat),
        ) == Some(CpuUsage::Micros(n)),
        text::number(text::trim(v1)) == Some(n) ==> metrics::cpu_usage(
            None,
            Some(v1),
            Some(other),
            Some(proc_stat),
        ) == Some(CpuUsage::Nanos(n)),
        text::number(text::trim(other)) == Some(n) ==> metrics::cpu_usage(
            None,
            None,
            Some(other),
            Some(proc_stat),
        ) == Some(CpuUsage::Nanos(n)),
        metrics::busy_ticks(proc_stat) == Some(n) ==> metrics::cpu_usage(
            None,
            None,
            None,
            Some(proc_stat),
        ) == Some(CpuUsage::Ticks(n)),
        metrics::cpu_usage(None, None, None, None) is None,
{
}

/// The room of a file system is its blocks, what is used of it those that are not free; a
/// file system without blocks tells nothing.
pub proof fn room_is_told(size: u64, blocks: u64, free: u64)
    requires
        0 < size,
        blocks * size <= u64::MAX,
    ensures
        blocks > 0 && free <= blocks ==> metrics::disk(size, 0, blocks, free) == (
            Some(((blocks - free) * size) as u64),
            Some((blocks * size) as u64),
        ),
        blocks > 0 && free <= blocks ==> metrics::disk(0, size, blocks, free) == metrics::disk(
            size,
            0,
            blocks,
            free,
        ),
        metrics::disk(size, size, 0, 0) == (None::<u64>, None::<u64>),
{
    assert(blocks > 0 ==> blocks * size > 0) by (nonlinear_arith)
        requires
            0 < size,
    ;
    assert(0 * size == 0) by (nonlinear_arith);
}

/// The room that a listing tells is on its second line: what is used in the third column, all
/// of it in the second.
pub proof fn listings_of_room_are_read(raw: Seq<char>)
    ensures
        text::lines(raw).len() >= 2 && text::words(text::lines(raw)[1]).len() >= 4
            ==> instance_stats::disk(raw) == (
            text::number(text::words(text::lines(raw)[1])[2]),
            text::number(text::words(text::lines(raw)[1])[1]),
        ),
        text::lines(raw).len() < 2 ==> instance_stats::disk(raw) == (None::<u64>, None::<u64>),
{
}

} // verus!
