//! What running commands promises, at once and in the background.
use vstd::prelude::*;
use crate::digest;
use crate::handlers::exec;
use crate::handlers::exec::{ExecEnd, ResultView};
use crate::handlers::runner;
use crate::handlers::runner::{RunStatus, RunView, Stream};
use crate::handlers::task;
use crate::handlers::task::TaskView;
use crate::text;

verus! {

/// A command gets the time that it asks for, from one millisecond to half an hour, and a
/// minute where it asks for none.
pub proof fn time_is_granted(asked: u64)
    ensures
        runner::time_limit(None) == 60_000,
        1 <= asked <= 1_800_000 ==> runner::time_limit(Some(asked)) == asked,
        asked == 0 ==> runner::time_limit(Some(asked)) == 1,
        asked > 1_800_000 ==> runner::time_limit(Some(asked)) == 1_800_000,
{
}

/// A directory is the one that is named; an empty name names none.
pub proof fn directories_are_named(dir: Seq<char>)
    ensures
        runner::named_dir(None) is None,
        dir.len() > 0 ==> runner::named_dir(Some(dir)) == Some(dir),
        dir.len() == 0 ==> runner::named_dir(Some(dir)) is None,
{
}

/// What a command writes is kept behind what it has written, up to the limit of sixteen
/// mebibytes; that something was dropped is told, once and for all, and nothing else changes.
pub proof fn output_is_kept(v: RunView, bytes: Seq<u8>)
    requires
        v.stdout.len() <= 16_777_216,
        v.stderr.len() <= 16_777_216,
    ensures
        ({
            let w = runner::wrote(v, Stream::Stdout, bytes);
            &&& w.stdout.is_prefix_of(v.stdout + bytes)
            &&& v.stdout.len() + bytes.len() <= 16_777_216 ==> w.stdout == v.stdout + bytes
                && w.stdout_truncated == v.stdout_truncated
            &&& v.stdout.len() + bytes.len() > 16_777_216 ==> w.stdout.len() == 16_777_216
                && w.stdout_truncated
            &&& w == RunView { stdout: w.stdout, stdout_truncated: w.stdout_truncated, ..v }
        }),
        ({
            let w = runner::wrote(v, Stream::Stderr, bytes);
            &&& w.stderr.is_prefix_of(v.stderr + bytes)
            &&& v.stderr.len() + bytes.len() <= 16_777_216 ==> w.stderr == v.stderr + bytes
                && w.stderr_truncated == v.stderr_truncated
            &&& v.stderr.len() + bytes.len() > 16_777_216 ==> w.stderr.len() == 16_777_216
                && w.stderr_truncated
            &&& w == RunView { stderr: w.stderr, stderr_truncated: w.stderr_truncated, ..v }
        }),
{
    assert(runner::capped(v.stdout + bytes).is_prefix_of(v.stdout + bytes));
    assert(runner::capped(v.stderr + bytes).is_prefix_of(v.stderr + bytes));
}

/// What is shown of a task: how it stands by name, its outputs as text, whether either was
/// cut, how it ended, and how long it took, or has taken so far.
pub proof fn tasks_are_shown_as_they_stand(id: Seq<char>, s: RunView, now: u64)
    requires
        s.started_at <= now,
    ensures
        ({
            let r = task::shown(id, s, now);
            &&& r.task_id == id
            &&& r.status == (if s.status == RunStatus::Running {
                "running"@
            } else if s.status == RunStatus::Completed {
                "completed"@
            } else {
                "failed"@
            })
            &&& r.stdout == digest::lossy_text(s.stdout)
            &&& r.stderr == digest::lossy_text(s.stderr)
            &&& r.exit_code == s.exit_code
            &&& r.timed_out == s.timed_out
            &&& r.truncated == (s.stdout_truncated || s.stderr_truncated)
            &&& r.error == s.spawn_error
            &&& s.duration_ms is Some ==> Some(r.duration_ms) == s.duration_ms
            &&& s.duration_ms is None ==> r.duration_ms == now - s.started_at
        }),
{
}

/// Time that runs backwards counts as none.
pub proof fn durations_are_measured(from: u64, to: u64)
    ensures
        from <= to ==> runner::between(from, to) == to - from,
        from > to ==> runner::between(from, to) == 0,
{
}

/// A task that is found is the last of its name, and one that is not found has no namesake.
pub proof fn tasks_are_found_by_id(tasks: Seq<TaskView>, id: Seq<char>)
    ensures
        -1 <= task::place(tasks, id) < tasks.len(),
        ({
            let i = task::place(tasks, id);
            &&& i >= 0 ==> tasks[i].id == id && task::state_of(tasks, id) == Some(tasks[i].state)
            &&& i < 0 ==> task::state_of(tasks, id) is None
        }),
        forall|j: int|
            #![trigger tasks[j]]
            task::place(tasks, id) < j < tasks.len() ==> tasks[j].id != id,
    decreases tasks.len(),
{
    if tasks.len() > 0 && tasks.last().id != id {
        let front = tasks.drop_last();
        tasks_are_found_by_id(front, id);
        assert forall|j: int| task::place(tasks, id) < j < tasks.len() implies (
        #[trigger] tasks[j]).id != id by {
            if j < tasks.len() - 1 {
                assert(front[j] == tasks[j]);
            }
        }
    }
}

/// A change of one task is what is found of it afterwards, and of the others nothing changes.
pub proof fn other_tasks_are_left_alone(
    tasks: Seq<TaskView>,
    id: Seq<char>,
    state: RunView,
    other: Seq<char>,
)
    requires
        task::place(tasks, id) >= 0,
    ensures
        ({
            let i = task::place(tasks, id);
            let after = tasks.update(i, TaskView { state, ..tasks[i] });
            &&& task::state_of(after, id) == Some(state)
            &&& other != id ==> task::state_of(after, other) == task::state_of(tasks, other)
        }),
    decreases tasks.len(),
{
    let i = task::place(tasks, id);
    tasks_are_found_by_id(tasks, id);
    let after = tasks.update(i, TaskView { state, ..tasks[i] });
    if tasks.last().id == id {
        assert(after.drop_last() =~= tasks.drop_last());
    } else {
        let front = tasks.drop_last();
        other_tasks_are_left_alone(front, id, state, other);
        assert(after.drop_last() =~= front.update(i, TaskView { state, ..front[i] }));
    }
}

/// A task that comes in takes the place of its namesakes and stands last; the others keep
/// their order.
pub proof fn namesakes_give_way(front: Seq<TaskView>, t: TaskView, id: Seq<char>)
    ensures
        task::without(Seq::empty(), id).len() == 0,
        t.id == id ==> task::without(front.push(t), id) == task::without(front, id),
        t.id != id ==> task::without(front.push(t), id) == task::without(front, id).push(t),
{
    assert(front.push(t).drop_last() =~= front);
}

/// A new task runs from now on, has written nothing and has not ended.
pub proof fn new_tasks_run(tasks: Seq<TaskView>, id: Seq<char>, now: u64)
    ensures
        ({
            let t = task::with_task(tasks, id, now).last();
            &&& t.id == id
            &&& t.created_at == now
            &&& t.state.status == RunStatus::Running
            &&& t.state.stdout.len() == 0
            &&& t.state.stderr.len() == 0
            &&& !t.state.stdout_truncated
            &&& !t.state.stderr_truncated
            &&& t.state.exit_code is None
            &&& !t.state.timed_out
            &&& t.state.spawn_error is None
            &&& t.state.started_at == now
            &&& t.state.duration_ms is None
        }),
        tasks.len() < 2000 ==> task::with_task(tasks, id, now).drop_last() == task::without(
            tasks,
            id,
        ),
{
    let all = task::with_task(tasks, id, now);
    assert(all.drop_last() =~= task::without(task::evicted(tasks), id));
}

/// The task that gives way to a new one is the oldest of those that have ended, and the first
/// of these where several are as old; where all run there is none.
pub proof fn the_oldest_gives_way(tasks: Seq<TaskView>)
    ensures
        match task::oldest_done(tasks) {
            Some(i) => {
                &&& 0 <= i < tasks.len()
                &&& tasks[i].state.status != RunStatus::Running
                &&& forall|j: int|
                    #![trigger tasks[j]]
                    0 <= j < tasks.len() && tasks[j].state.status != RunStatus::Running
                        ==> tasks[i].created_at <= tasks[j].created_at && (tasks[i].created_at
                        == tasks[j].created_at ==> i <= j)
            },
            None => forall|j: int|
                0 <= j < tasks.len() ==> (#[trigger] tasks[j]).state.status == RunStatus::Running,
        },
    decreases tasks.len(),
{
    if tasks.len() > 0 {
        let front = tasks.drop_last();
        the_oldest_gives_way(front);
        assert forall|j: int| 0 <= j < front.len() implies #[trigger] tasks[j] == front[j] by {}
        match task::oldest_done(front) {
            Some(best) => {
                assert(front[best] == tasks[best]);
            },
            None => {},
        }
    }
}

/// Tasks give way one at a time, and only while there are two thousand or more.
pub proof fn tasks_give_way_while_there_are_too_many(tasks: Seq<TaskView>, i: int)
    ensures
        tasks.len() < 2000 ==> task::evicted(tasks) == tasks,
        tasks.len() >= 2000 && task::oldest_done(tasks) == Some(i) ==> task::evicted(tasks)
            == task::evicted(tasks.remove(i)),
        tasks.len() >= 2000 && task::oldest_done(tasks) is None ==> task::evicted(tasks) == tasks,
{
    the_oldest_gives_way(tasks);
}

/// A command that ended is answered with what it wrote, up to the limit of either output, and
/// with its exit code; one whose time ran out is answered with nothing but that it did.
pub proof fn ends_are_reported(end: ExecEnd, duration_ms: u64)
    ensures
        end is TimedOut ==> exec::outcome(end, duration_ms) == (ResultView {
            stdout: Seq::empty(),
            stderr: "command timed out after "@ + text::dec(end->limit_ms as nat) + "ms"@,
            exit_code: None,
            timed_out: true,
            truncated: false,
            duration_ms,
        }),
        end is Finished && end->stdout@.len() <= 16_777_216 && end->stderr@.len() <= 16_777_216
            ==> exec::outcome(end, duration_ms) == (ResultView {
            stdout: digest::lossy_text(end->stdout@),
            stderr: digest::lossy_text(end->stderr@),
            exit_code: end->exit_code,
            timed_out: false,
            truncated: false,
            duration_ms,
        }),
        end is Finished ==> {
            let r = exec::outcome(end, duration_ms);
            &&& end->stdout@.len() > 16_777_216 ==> r.truncated && r.stdout == digest::lossy_text(
                end->stdout@.take(16_777_216),
            )
            &&& end->stderr@.len() > 16_777_216 ==> r.truncated && r.stderr == digest::lossy_text(
                end->stderr@.take(16_777_216),
            )
            &&& r.exit_code == end->exit_code
            &&& r.duration_ms == duration_ms
            &&& !r.timed_out
        },
{
}

} // verus!
