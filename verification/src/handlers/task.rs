//! Commands that run in the background, to be asked after.
use vstd::prelude::*;
use crate::cli::connection;
use crate::digest;
use crate::errors;
use crate::errors::{AppCommandError, AppErrorCode, AppErrorView};
use crate::handlers::runner;
use crate::handlers::runner::{ExecRequest, RunState, RunStatus, RunView, Stream};
use crate::text;

verus! {

/// How many tasks are kept.
pub const MAX_TASKS: usize = 2000;

/// The task that a command became.
#[derive(Debug, PartialEq, Eq)]
pub struct SubmitResult {
    pub task_id: String,
}

/// What is known of a task.
#[derive(Debug, PartialEq, Eq)]
pub struct TaskSnapshot {
    pub task_id: String,
    pub status: &'static str,
    pub stdout: String,
    pub stderr: String,
    pub exit_code: Option<i32>,
    pub timed_out: bool,
    pub truncated: bool,
    pub error: Option<String>,
    pub duration_ms: u64,
}

/// The content of a `TaskSnapshot`.
#[verifier::ext_equal]
pub struct SnapshotView {
    pub task_id: Seq<char>,
    pub status: Seq<char>,
    pub stdout: Seq<char>,
    pub stderr: Seq<char>,
    pub exit_code: Option<i32>,
    pub timed_out: bool,
    pub truncated: bool,
    pub error: Option<Seq<char>>,
    pub duration_ms: u64,
}

impl View for TaskSnapshot {
    type V = SnapshotView;

    open spec fn view(&self) -> SnapshotView {
        SnapshotView {
            task_id: self.task_id@,
            status: self.status@,
            stdout: self.stdout@,
            stderr: self.stderr@,
            exit_code: self.exit_code,
            timed_out: self.timed_out,
            truncated: self.truncated,
            error: self.error.deep_view(),
            duration_ms: self.duration_ms,
        }
    }
}

/// The name of a status.
pub open spec fn status_name(s: RunStatus) -> Seq<char> {
    match s {
        RunStatus::Running => "running"@,
        RunStatus::Completed => "completed"@,
        RunStatus::Failed => "failed"@,
    }
}

/// The name of a status.
pub fn status_str(s: RunStatus) -> (r: &'static str)
    ensures
        r@ == status_name(s),
{
    match s {
        RunStatus::Running => "running",
        RunStatus::Completed => "completed",
        RunStatus::Failed => "failed",
    }
}

/// What is known of a command at a time.
pub open spec fn shown(id: Seq<char>, s: RunView, now: u64) -> SnapshotView {
    SnapshotView {
        task_id: id,
        status: status_name(s.status),
        stdout: digest::lossy_text(s.stdout),
        stderr: digest::lossy_text(s.stderr),
        exit_code: s.exit_code,
        timed_out: s.timed_out,
        truncated: s.stdout_truncated || s.stderr_truncated,
        error: s.spawn_error,
        duration_ms: match s.duration_ms {
            Some(d) => d,
            None => runner::between(s.started_at, now),
        },
    }
}

/// What is known of a command at a time.
pub fn snapshot(task_id: String, state: &RunState, now: u64) -> (r: TaskSnapshot)
    ensures
        r@ == shown(task_id@, state@, now),
{
    TaskSnapshot {
        task_id,
        status: status_str(state.status),
        stdout: digest::from_utf8_lossy(state.stdout.as_slice()),
        stderr: digest::from_utf8_lossy(state.stderr.as_slice()),
        exit_code: state.exit_code,
        timed_out: state.timed_out,
        truncated: state.truncated(),
        error: text::copied(&state.spawn_error),
        duration_ms: state.elapsed_ms(now),
    }
}

/// A task.
#[derive(Debug)]
pub struct TaskEntry {
    id: String,
    created_at: u64,
    state: RunState,
}

/// The content of a `TaskEntry`.
#[verifier::ext_equal]
pub struct TaskView {
    pub id: Seq<char>,
    pub created_at: u64,
    pub state: RunView,
}

impl View for TaskEntry {
    type V = TaskView;

    closed spec fn view(&self) -> TaskView {
        TaskView { id: self.id@, created_at: self.created_at, state: self.state@ }
    }
}

impl DeepView for TaskEntry {
    type V = TaskView;

    open spec fn deep_view(&self) -> TaskView {
        self@
    }
}

/// Whether a task still runs.
pub open spec fn runs(t: TaskView) -> bool {
    t.state.status == RunStatus::Running
}

/// The oldest task that no longer runs.
pub open spec fn oldest_done(tasks: Seq<TaskView>) -> Option<int>
    decreases tasks.len(),
{
    if tasks.len() == 0 {
        None
    } else {
        let i = tasks.len() - 1;
        match oldest_done(tasks.drop_last()) {
            None => if runs(tasks.last()) {
                None
            } else {
                Some(i)
            },
            Some(best) => if !runs(tasks.last()) && tasks.last().created_at < tasks[best].created_at {
                Some(i)
            } else {
                Some(best)
            },
        }
    }
}

/// The oldest task that no longer runs is one.
proof fn oldest_is_done(tasks: Seq<TaskView>)
    ensures
        match oldest_done(tasks) {
            Some(i) => 0 <= i < tasks.len() && !runs(tasks[i]) && forall|j: int|
                0 <= j < tasks.len() && !runs(tasks[j]) ==> tasks[i].created_at <= (
                #[trigger] tasks[j]).created_at,
            None => forall|j: int| 0 <= j < tasks.len() ==> runs(#[trigger] tasks[j]),
        },
    decreases tasks.len(),
{
    if tasks.len() > 0 {
        let front = tasks.drop_last();
        oldest_is_done(front);
        assert forall|j: int| 0 <= j < tasks.len() - 1 implies tasks[j] == front[j] by {}
        match oldest_done(tasks) {
            Some(i) => {
                assert forall|j: int| 0 <= j < tasks.len() && !runs(
                    #[trigger] tasks[j],
                ) implies tasks[i].created_at <= tasks[j].created_at by {
                    if j < tasks.len() - 1 {
                        assert(front[j] == tasks[j]);
                    }
                }
            },
            None => {
                assert forall|j: int| 0 <= j < tasks.len() implies runs(#[trigger] tasks[j]) by {
                    if j < tasks.len() - 1 {
                        assert(front[j] == tasks[j]);
                    }
                }
            },
        }
    }
}

/// The tasks that are kept when there is no room for another: those that no longer run
/// go, the oldest first, until there is room.
pub open spec fn evicted(tasks: Seq<TaskView>) -> Seq<TaskView>
    decreases tasks.len(),
{
    if tasks.len() < MAX_TASKS {
        tasks
    } else {
        match oldest_done(tasks) {
            Some(i) => if 0 <= i < tasks.len() {
                evicted(tasks.remove(i))
            } else {
                tasks
            },
            None => tasks,
        }
    }
}

/// The tasks without one.
pub open spec fn without(tasks: Seq<TaskView>, id: Seq<char>) -> Seq<TaskView>
    decreases tasks.len(),
{
    if tasks.len() == 0 {
        tasks
    } else if tasks.last().id == id {
        without(tasks.drop_last(), id)
    } else {
        without(tasks.drop_last(), id).push(tasks.last())
    }
}

/// The state of a task.
pub open spec fn state_of(tasks: Seq<TaskView>, id: Seq<char>) -> Option<RunView>
    decreases tasks.len(),
{
    if tasks.len() == 0 {
        None
    } else if tasks.last().id == id {
        Some(tasks.last().state)
    } else {
        state_of(tasks.drop_last(), id)
    }
}

/// A command that was just started.
pub open spec fn started(now: u64) -> RunView {
    RunView {
        status: RunStatus::Running,
        stdout: Seq::empty(),
        stderr: Seq::empty(),
        stdout_truncated: false,
        stderr_truncated: false,
        exit_code: None,
        timed_out: false,
        spawn_error: None,
        started_at: now,
        duration_ms: None,
    }
}

/// The tasks after one was submitted.
pub open spec fn with_task(tasks: Seq<TaskView>, id: Seq<char>, now: u64) -> Seq<TaskView> {
    without(evicted(tasks), id).push(TaskView { id, created_at: now, state: started(now) })
}

/// The position of a task; negative where there is none.
pub open spec fn place(tasks: Seq<TaskView>, id: Seq<char>) -> int
    decreases tasks.len(),
{
    if tasks.len() == 0 {
        -1
    } else if tasks.last().id == id {
        tasks.len() - 1
    } else {
        place(tasks.drop_last(), id)
    }
}

/// The tasks.
pub struct TaskStore {
    tasks: Vec<TaskEntry>,
}

impl View for TaskStore {
    type V = Seq<TaskView>;

    closed spec fn view(&self) -> Seq<TaskView> {
        self.tasks.deep_view()
    }
}

/// Whether no task holds more output than is kept.
pub open spec fn all_within_bounds(tasks: Seq<TaskView>) -> bool {
    forall|i: int| 0 <= i < tasks.len() ==> runner::within_bounds((#[trigger] tasks[i]).state)
}

/// Taking tasks away keeps the rest within bounds.
proof fn evicted_is_part(tasks: Seq<TaskView>)
    ensures
        evicted(tasks).len() <= tasks.len(),
        forall|i: int| 0 <= i < evicted(tasks).len() ==> tasks.contains(#[trigger] evicted(tasks)[i]),
    decreases tasks.len(),
{
    if tasks.len() >= MAX_TASKS {
        if let Some(i) = oldest_done(tasks) {
            if 0 <= i < tasks.len() {
                let rest = tasks.remove(i);
                evicted_is_part(rest);
                assert forall|j: int| 0 <= j < evicted(tasks).len() implies tasks.contains(
                    #[trigger] evicted(tasks)[j],
                ) by {
                    let k = choose|k: int| 0 <= k < rest.len() && rest[k] == evicted(rest)[j];
                    if k < i {
                        assert(tasks[k] == rest[k]);
                    } else {
                        assert(tasks[k + 1] == rest[k]);
                    }
                }
            }
        }
    }
}

/// The tasks without one are among the tasks.
proof fn without_is_part(tasks: Seq<TaskView>, id: Seq<char>)
    ensures
        without(tasks, id).len() <= tasks.len(),
        forall|i: int|
            0 <= i < without(tasks, id).len() ==> tasks.contains(#[trigger] without(tasks, id)[i]),
    decreases tasks.len(),
{
    if tasks.len() > 0 {
        let front = tasks.drop_last();
        without_is_part(front, id);
        assert forall|i: int| 0 <= i < without(tasks, id).len() implies tasks.contains(
            #[trigger] without(tasks, id)[i],
        ) by {
            let t = without(tasks, id)[i];
            if i < without(front, id).len() {
                assert(t == without(front, id)[i]);
                let k = choose|k: int| 0 <= k < front.len() && front[k] == t;
                assert(tasks[k] == t);
            } else {
                assert(tasks[tasks.len() - 1] == t);
            }
        }
    }
}

/// Where a task stands.
proof fn place_is_right(tasks: Seq<TaskView>, id: Seq<char>)
    ensures
        -1 <= place(tasks, id) < tasks.len(),
        place(tasks, id) >= 0 ==> tasks[place(tasks, id)].id == id && state_of(tasks, id) == Some(
            tasks[place(tasks, id)].state,
        ),
        place(tasks, id) < 0 ==> state_of(tasks, id) is None,
    decreases tasks.len(),
{
    if tasks.len() > 0 && tasks.last().id != id {
        place_is_right(tasks.drop_last(), id);
    }
}

impl TaskStore {
    /// No tasks.
    pub fn new() -> (r: TaskStore)
        ensures
            r@ == Seq::<TaskView>::empty(),
    {
        let tasks: Vec<TaskEntry> = Vec::new();
        assert(tasks.deep_view() =~= Seq::empty());
        TaskStore { tasks }
    }

    /// The oldest task that no longer runs.
    fn find_oldest_done(&self) -> (r: Option<usize>)
        ensures
            match r {
                Some(i) => i < self@.len() && oldest_done(self@) == Some(i as int),
                None => oldest_done(self@) is None,
            },
    {
        let ghost all = self@;
        let mut best: Option<usize> = None;
        for i in 0..self.tasks.len()
            invariant
                all == self.tasks.deep_view(),
                match best {
                    Some(b) => b < i && oldest_done(all.take(i as int)) == Some(b as int),
                    None => oldest_done(all.take(i as int)) is None,
                },
        {
            assert(all.take(i + 1).drop_last() =~= all.take(i as int));
            assert(all.take(i + 1).last() == self.tasks@[i as int]@);
            if self.tasks[i].state.status != RunStatus::Running {
                let older = match best {
                    None => true,
                    Some(b) => {
                        assert(all.take(i as int)[b as int] == self.tasks@[b as int]@);
                        self.tasks[i].created_at < self.tasks[b].created_at
                    },
                };
                if older {
                    best = Some(i);
                }
            }
        }
        assert(all.take(all.len() as int) =~= all);
        best
    }

    /// Makes room for another task.
    pub fn evict_if_needed(&mut self)
        ensures
            final(self)@ == evicted(old(self)@),
    {
        let ghost start = self@;
        let mut go_on = true;
        while go_on
            invariant
                start == old(self)@,
                if go_on {
                    evicted(start) == evicted(self@)
                } else {
                    evicted(start) == self@
                },
            decreases self.tasks@.len(), go_on as int,
        {
            assert(self@.len() == self.tasks@.len());
            if self.tasks.len() < MAX_TASKS {
                go_on = false;
            } else {
                match self.find_oldest_done() {
                    Some(i) => {
                        let ghost before = self@;
                        let _ = self.tasks.remove(i);
                        assert(self@ =~= before.remove(i as int));
                    },
                    None => {
                        go_on = false;
                    },
                }
            }
        }
    }

    /// Takes a task out.
    fn drop_task(&mut self, id: &str)
        ensures
            final(self)@ == without(old(self)@, id@),
    {
        let ghost all = self@;
        let mut rest: Vec<TaskEntry> = Vec::new();
        std::mem::swap(&mut rest, &mut self.tasks);
        let mut out: Vec<TaskEntry> = Vec::new();
        let ghost mut done: int = 0;
        assert(out.deep_view() =~= without(all.take(0), id@));
        assert(all.skip(0) =~= all);
        while rest.len() > 0
            invariant
                0 <= done <= all.len(),
                rest.deep_view() == all.skip(done),
                out.deep_view() == without(all.take(done), id@),
            decreases rest@.len(),
        {
            let ghost before = rest.deep_view();
            let ghost kept = out.deep_view();
            let e = rest.remove(0);
            assert(before[0] == e@);
            assert(rest.deep_view() =~= before.skip(1));
            assert(before.skip(1) =~= all.skip(done + 1));
            assert(all.take(done + 1).drop_last() =~= all.take(done));
            assert(all.take(done + 1).last() == all[done]);
            assert(all[done] == before[0]);
            if !text::same(e.id.as_str(), id) {
                out.push(e);
                assert(out.deep_view() =~= kept.push(all[done]));
            }
            proof {
                done = done + 1;
            }
        }
        assert(rest.deep_view().len() == 0);
        assert(all.take(done) =~= all);
        self.tasks = out;
    }

    /// Takes a task in, under an id. `now` is the time in milliseconds.
    pub fn submit_as(&mut self, req: &ExecRequest, task_id: String, now: u64) -> (r: Result<
        SubmitResult,
        AppCommandError,
    >)
        requires
            all_within_bounds(old(self)@),
        ensures
            all_within_bounds(final(self)@),
            if text::trim(req.command@).len() == 0 {
                &&& r matches Err(e) && e@ == (AppErrorView {
                    code: AppErrorCode::InvalidInput,
                    message: "command must not be empty"@,
                })
                &&& final(self)@ == old(self)@
            } else {
                &&& r matches Ok(s) && s.task_id == task_id
                &&& final(self)@ == with_task(old(self)@, task_id@, now)
            },
    {
        if req.is_blank() {
            return Err(errors::invalid_input("command must not be empty"));
        }
        let ghost start = self@;
        self.evict_if_needed();
        let ghost mid = self@;
        self.drop_task(task_id.as_str());
        let ghost before = self@;
        self.tasks.push(
            TaskEntry {
                id: task_id.clone(),
                created_at: now,
                state: RunState::new_running(now),
            },
        );
        assert(self@ =~= before.push(TaskView { id: task_id@, created_at: now, state: started(now) }));
        proof {
            evicted_is_part(start);
            without_is_part(mid, task_id@);
            assert forall|i: int| 0 <= i < self@.len() implies runner::within_bounds(
                (#[trigger] self@[i]).state,
            ) by {
                if i < before.len() {
                    assert(before[i] == self@[i]);
                    let k = choose|k: int| 0 <= k < mid.len() && mid[k] == before[i];
                    assert(mid[k] == evicted(start)[k]);
                    let n = choose|n: int| 0 <= n < start.len() && start[n] == mid[k];
                    assert(runner::within_bounds(start[n].state));
                }
            }
        }
        Ok(SubmitResult { task_id })
    }

    /// Takes a task in, under a fresh id.
    pub fn submit(&mut self, req: &ExecRequest, now: u64) -> (r: Result<
        SubmitResult,
        AppCommandError,
    >)
        requires
            all_within_bounds(old(self)@),
        ensures
            all_within_bounds(final(self)@),
            if text::trim(req.command@).len() == 0 {
                &&& r matches Err(e) && e@ == (AppErrorView {
                    code: AppErrorCode::InvalidInput,
                    message: "command must not be empty"@,
                })
                &&& final(self)@ == old(self)@
            } else {
                &&& r matches Ok(s) && s.task_id@.len() == 36 && connection::uuid_accepted(
                    s.task_id@,
                ) && final(self)@ == with_task(
                    old(self)@,
                    s.task_id@,
                    now,
                )
            },
    {
        let id = connection::new_uuid();
        self.submit_as(req, id, now)
    }

    /// Where a task stands.
    fn find(&self, id: &str) -> (r: Option<usize>)
        ensures
            match r {
                Some(i) => i < self@.len() && place(self@, id@) == i,
                None => place(self@, id@) < 0,
            },
    {
        let ghost all = self@;
        let mut i: usize = self.tasks.len();
        assert(all.take(i as int) =~= all);
        while i > 0
            invariant
                all == self.tasks.deep_view(),
                all == self@,
                i <= self.tasks@.len(),
                place(all, id@) == place(all.take(i as int), id@),
            decreases i,
        {
            assert(all.take(i as int).last() == self.tasks@[i - 1]@);
            assert(all.take(i as int).drop_last() =~= all.take(i - 1));
            if text::same(self.tasks[i - 1].id.as_str(), id) {
                return Some(i - 1);
            }
            i = i - 1;
        }
        None
    }

    /// What is known of a task.
    pub fn get(&self, task_id: &str, now: u64) -> (r: Result<TaskSnapshot, AppCommandError>)
        ensures
            match state_of(self@, task_id@) {
                Some(s) => r matches Ok(x) && x@ == shown(task_id@, s, now),
                None => r matches Err(e) && e@ == (AppErrorView {
                    code: AppErrorCode::NotFound,
                    message: "task "@ + task_id@
                        + " not found (unknown id, or lost to a server restart)"@,
                }),
            },
    {
        proof {
            place_is_right(self@, task_id@);
        }
        match self.find(task_id) {
            Some(i) => {
                assert(self@[i as int] == self.tasks@[i as int]@);
                Ok(snapshot(task_id.to_owned(), &self.tasks[i].state, now))
            },
            None => Err(
                AppCommandError {
                    code: AppErrorCode::NotFound,
                    message: text::cat3(
                        "task ",
                        task_id,
                        " not found (unknown id, or lost to a server restart)",
                    ),
                },
            ),
        }
    }

    /// Takes what the command of a task has written.
    pub fn take_output(&mut self, task_id: &str, which: Stream, bytes: &[u8])
        requires
            all_within_bounds(old(self)@),
        ensures
            all_within_bounds(final(self)@),
            place(old(self)@, task_id@) < 0 ==> final(self)@ == old(self)@,
            place(old(self)@, task_id@) >= 0 ==> {
                let i = place(old(self)@, task_id@);
                final(self)@ == old(self)@.update(
                    i,
                    TaskView {
                        state: runner::wrote(old(self)@[i].state, which, bytes@),
                        ..old(self)@[i]
                    },
                )
            },
    {
        proof {
            place_is_right(self@, task_id@);
        }
        if let Some(i) = self.find(task_id) {
            let ghost before = self@;
            let mut t = self.tasks.remove(i);
            assert(before[i as int] == t@);
            t.state.take_output(which, bytes);
            let ghost now = t@;
            self.tasks.insert(i, t);
            assert(self@ =~= before.update(i as int, now));
        }
    }

    /// The command of a task has ended, or was ended.
    pub fn complete(&mut self, task_id: &str, exit_code: Option<i32>, timed_out: bool, now: u64)
        requires
            all_within_bounds(old(self)@),
        ensures
            all_within_bounds(final(self)@),
            place(old(self)@, task_id@) < 0 ==> final(self)@ == old(self)@,
            place(old(self)@, task_id@) >= 0 ==> {
                let i = place(old(self)@, task_id@);
                final(self)@ == old(self)@.update(
                    i,
                    TaskView {
                        state: RunView {
                            status: RunStatus::Completed,
                            exit_code,
                            timed_out,
                            duration_ms: Some(
                                runner::between(old(self)@[i].state.started_at, now),
                            ),
                            ..old(self)@[i].state
                        },
                        ..old(self)@[i]
                    },
                )
            },
    {
        proof {
            place_is_right(self@, task_id@);
        }
        if let Some(i) = self.find(task_id) {
            let ghost before = self@;
            let mut t = self.tasks.remove(i);
            assert(before[i as int] == t@);
            t.state.complete(exit_code, timed_out, now);
            let ghost after = t@;
            self.tasks.insert(i, t);
            assert(self@ =~= before.update(i as int, after));
        }
    }

    /// The command of a task could not be started.
    pub fn fail(&mut self, task_id: &str, error: String, now: u64)
        requires
            all_within_bounds(old(self)@),
        ensures
            all_within_bounds(final(self)@),
            place(old(self)@, task_id@) < 0 ==> final(self)@ == old(self)@,
            place(old(self)@, task_id@) >= 0 ==> {
                let i = place(old(self)@, task_id@);
                final(self)@ == old(self)@.update(
                    i,
                    TaskView {
                        state: RunView {
                            status: RunStatus::Failed,
                            spawn_error: Some(error@),
                            duration_ms: Some(
                                runner::between(old(self)@[i].state.started_at, now),
                            ),
                            ..old(self)@[i].state
                        },
                        ..old(self)@[i]
                    },
                )
            },
    {
        proof {
            place_is_right(self@, task_id@);
        }
        if let Some(i) = self.find(task_id) {
            let ghost before = self@;
            let mut t = self.tasks.remove(i);
            assert(before[i as int] == t@);
            t.state.fail(error, now);
            let ghost after = t@;
            self.tasks.insert(i, t);
            assert(self@ =~= before.update(i as int, after));
        }
    }
}

/// A task that runs is never evicted.
pub proof fn running_tasks_are_kept(tasks: Seq<TaskView>, t: TaskView)
    requires
        tasks.contains(t),
        runs(t),
    ensures
        evicted(tasks).contains(t),
    decreases tasks.len(),
{
    if tasks.len() >= MAX_TASKS {
        oldest_is_done(tasks);
        if let Some(i) = oldest_done(tasks) {
            let k = choose|k: int| 0 <= k < tasks.len() && tasks[k] == t;
            let rest = tasks.remove(i);
            if k < i {
                assert(rest[k] == t);
            } else {
                assert(rest[k - 1] == t);
            }
            running_tasks_are_kept(rest, t);
        }
    }
}

/// Eviction makes room, unless every task that is left runs.
pub proof fn eviction_makes_room(tasks: Seq<TaskView>)
    ensures
        evicted(tasks).len() < MAX_TASKS || forall|i: int|
            0 <= i < evicted(tasks).len() ==> runs(#[trigger] evicted(tasks)[i]),
    decreases tasks.len(),
{
    if tasks.len() >= MAX_TASKS {
        oldest_is_done(tasks);
        if let Some(i) = oldest_done(tasks) {
            eviction_makes_room(tasks.remove(i));
        }
    }
}

/// Where there is room, nothing is evicted.
pub proof fn nothing_is_evicted_early(tasks: Seq<TaskView>)
    requires
        tasks.len() < MAX_TASKS,
    ensures
        evicted(tasks) == tasks,
{
}

/// A task that was submitted is found, and runs.
pub proof fn submitted_tasks_are_found(tasks: Seq<TaskView>, id: Seq<char>, now: u64)
    ensures
        state_of(with_task(tasks, id, now), id) == Some(started(now)),
{
}

} // verus!
