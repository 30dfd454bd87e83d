//! A command that runs, and what it has written so far.
use vstd::prelude::*;
use crate::text;

verus! {

/// The most that is kept of each output stream, in bytes.
pub const MAX_OUTPUT_BYTES: usize = 16_777_216;

/// The time that a command gets in milliseconds, where none is asked for.
pub const DEFAULT_TIMEOUT_MS: u64 = 60_000;

/// The most time that a command gets in milliseconds.
pub const MAX_TIMEOUT_MS: u64 = 1_800_000;

/// A command to be run by the shell.
#[derive(Debug)]
pub struct ExecRequest {
    pub command: String,
    pub cwd: Option<String>,
    pub stdin: Option<String>,
    pub env: Vec<(String, String)>,
    pub timeout_ms: Option<u64>,
}

/// The time that a command gets: what is asked for within bounds, or the usual.
pub open spec fn time_limit(asked: Option<u64>) -> u64 {
    match asked {
        Some(t) => if t < 1 {
            1
        } else if t > MAX_TIMEOUT_MS {
            MAX_TIMEOUT_MS
        } else {
            t
        },
        None => DEFAULT_TIMEOUT_MS,
    }
}

/// The time that a command gets, in milliseconds.
pub fn limit_time(asked: Option<u64>) -> (r: u64)
    ensures
        r == time_limit(asked),
        1 <= r <= MAX_TIMEOUT_MS,
{
    match asked {
        Some(t) => if t < 1 {
            1
        } else if t > MAX_TIMEOUT_MS {
            MAX_TIMEOUT_MS
        } else {
            t
        },
        None => DEFAULT_TIMEOUT_MS,
    }
}

/// A directory that is named.
pub open spec fn named_dir(cwd: Option<Seq<char>>) -> Option<Seq<char>> {
    match cwd {
        Some(d) => if d.len() > 0 {
            Some(d)
        } else {
            None
        },
        None => None,
    }
}

/// The directory that a command runs in, where one is named.
pub fn working_dir(cwd: &Option<String>) -> (r: Option<&str>)
    ensures
        r.deep_view() == named_dir(cwd.deep_view()),
{
    match cwd {
        Some(d) => if d.as_str().is_empty() {
            None
        } else {
            Some(d.as_str())
        },
        None => None,
    }
}

impl ExecRequest {
    /// Whether there is no command.
    pub fn is_blank(&self) -> (r: bool)
        ensures
            r == (text::trim(self.command@).len() == 0),
    {
        text::trimmed(self.command.as_str()).as_str().is_empty()
    }

    /// The time that the command gets, in milliseconds.
    pub fn timeout(&self) -> (r: u64)
        ensures
            r == time_limit(self.timeout_ms),
    {
        limit_time(self.timeout_ms)
    }
}

/// How far a command has come.
#[derive(Clone, Copy, Debug, PartialEq, Eq, Structural)]
pub enum RunStatus {
    Running,
    /// It has ended, or was ended.
    Completed,
    /// It could not be started.
    Failed,
}

/// The output streams of a command.
#[derive(Clone, Copy, Debug, PartialEq, Eq, Structural)]
pub enum Stream {
    Stdout,
    Stderr,
}

/// What is known of a command.
#[derive(Debug)]
pub struct RunState {
    pub status: RunStatus,
    pub stdout: Vec<u8>,
    pub stderr: Vec<u8>,
    pub stdout_truncated: bool,
    pub stderr_truncated: bool,
    pub exit_code: Option<i32>,
    pub timed_out: bool,
    /// Why it could not be started.
    pub spawn_error: Option<String>,
    /// When it was started, in milliseconds.
    pub started_at: u64,
    /// How long it took; nothing while it runs.
    pub duration_ms: Option<u64>,
}

/// The content of a `RunState`.
#[verifier::ext_equal]
pub struct RunView {
    pub status: RunStatus,
    pub stdout: Seq<u8>,
    pub stderr: Seq<u8>,
    pub stdout_truncated: bool,
    pub stderr_truncated: bool,
    pub exit_code: Option<i32>,
    pub timed_out: bool,
    pub spawn_error: Option<Seq<char>>,
    pub started_at: u64,
    pub duration_ms: Option<u64>,
}

impl View for RunState {
    type V = RunView;

    open spec fn view(&self) -> RunView {
        RunView {
            status: self.status,
            stdout: self.stdout@,
            stderr: self.stderr@,
            stdout_truncated: self.stdout_truncated,
            stderr_truncated: self.stderr_truncated,
            exit_code: self.exit_code,
            timed_out: self.timed_out,
            spawn_error: self.spawn_error.deep_view(),
            started_at: self.started_at,
            duration_ms: self.duration_ms,
        }
    }
}

/// The time between two times; none where the clock went back.
pub open spec fn between(from: u64, to: u64) -> u64 {
    if to >= from {
        (to - from) as u64
    } else {
        0
    }
}

/// The front part of a row of bytes that is kept.
pub open spec fn capped(bytes: Seq<u8>) -> Seq<u8> {
    if bytes.len() <= MAX_OUTPUT_BYTES {
        bytes
    } else {
        bytes.take(MAX_OUTPUT_BYTES as int)
    }
}

/// Whether no stream holds more than is kept.
pub open spec fn within_bounds(v: RunView) -> bool {
    v.stdout.len() <= MAX_OUTPUT_BYTES && v.stderr.len() <= MAX_OUTPUT_BYTES
}

/// A command that has written more.
pub open spec fn wrote(v: RunView, which: Stream, bytes: Seq<u8>) -> RunView {
    match which {
        Stream::Stdout => RunView {
            stdout: capped(v.stdout + bytes),
            stdout_truncated: v.stdout_truncated || v.stdout.len() + bytes.len()
                > MAX_OUTPUT_BYTES,
            ..v
        },
        Stream::Stderr => RunView {
            stderr: capped(v.stderr + bytes),
            stderr_truncated: v.stderr_truncated || v.stderr.len() + bytes.len()
                > MAX_OUTPUT_BYTES,
            ..v
        },
    }
}

/// Adds to a row of bytes as much as is kept, and tells whether something was not.
fn append_capped(target: &mut Vec<u8>, bytes: &[u8]) -> (r: bool)
    requires
        old(target)@.len() <= MAX_OUTPUT_BYTES,
    ensures
        final(target)@ == capped(old(target)@ + bytes@),
        r == (old(target)@.len() + bytes@.len() > MAX_OUTPUT_BYTES),
{
    let ghost before = target@;
    let room: usize = MAX_OUTPUT_BYTES - target.len();
    let n: usize = if bytes.len() <= room {
        bytes.len()
    } else {
        room
    };
    for i in 0..n
        invariant
            n <= bytes@.len(),
            target@ == before + bytes@.take(i as int),
    {
        target.push(bytes[i]);
        assert(target@ =~= before + bytes@.take(i + 1));
    }
    assert(target@ =~= capped(before + bytes@));
    n < bytes.len()
}

/// The time between two times.
fn elapsed(from: u64, to: u64) -> (r: u64)
    ensures
        r == between(from, to),
{
    if to >= from {
        to - from
    } else {
        0
    }
}

impl RunState {
    /// A command that was just started. `now` is the time in milliseconds.
    pub fn new_running(now: u64) -> (r: RunState)
        ensures
            r@ == (RunView {
                status: RunStatus::Running,
                stdout: Seq::empty(),
                stderr: Seq::empty(),
                stdout_truncated: false,
                stderr_truncated: false,
                exit_code: None,
                timed_out: false,
                spawn_error: None,
                started_at: now,
                duration_ms: None,
            }),
            within_bounds(r@),
    {
        RunState {
            status: RunStatus::Running,
            stdout: Vec::new(),
            stderr: Vec::new(),
            stdout_truncated: false,
            stderr_truncated: false,
            exit_code: None,
            timed_out: false,
            spawn_error: None,
            started_at: now,
            duration_ms: None,
        }
    }

    /// Whether some output was not kept.
    pub fn truncated(&self) -> (r: bool)
        ensures
            r == (self@.stdout_truncated || self@.stderr_truncated),
    {
        self.stdout_truncated || self.stderr_truncated
    }

    /// How long the command took, or has taken so far.
    pub fn elapsed_ms(&self, now: u64) -> (r: u64)
        ensures
            r == match self@.duration_ms {
                Some(d) => d,
                None => between(self@.started_at, now),
            },
    {
        match self.duration_ms {
            Some(d) => d,
            None => elapsed(self.started_at, now),
        }
    }

    /// Takes what the command has written.
    pub fn take_output(&mut self, which: Stream, bytes: &[u8])
        requires
            within_bounds(old(self)@),
        ensures
            final(self)@ == wrote(old(self)@, which, bytes@),
            within_bounds(final(self)@),
    {
        match which {
            Stream::Stdout => {
                let cut = append_capped(&mut self.stdout, bytes);
                self.stdout_truncated = self.stdout_truncated || cut;
            },
            Stream::Stderr => {
                let cut = append_capped(&mut self.stderr, bytes);
                self.stderr_truncated = self.stderr_truncated || cut;
            },
        }
    }

    /// The command could not be started.
    pub fn fail(&mut self, error: String, now: u64)
        ensures
            final(self)@ == (RunView {
                status: RunStatus::Failed,
                spawn_error: Some(error@),
                duration_ms: Some(between(old(self)@.started_at, now)),
                ..old(self)@
            }),
    {
        self.status = RunStatus::Failed;
        self.spawn_error = Some(error);
        self.duration_ms = Some(elapsed(self.started_at, now));
    }

    /// The command has ended, or was ended.
    pub fn complete(&mut self, exit_code: Option<i32>, timed_out: bool, now: u64)
        ensures
            final(self)@ == (RunView {
                status: RunStatus::Completed,
                exit_code,
                timed_out,
                duration_ms: Some(between(old(self)@.started_at, now)),
                ..old(self)@
            }),
    {
        self.exit_code = exit_code;
        self.timed_out = timed_out;
        self.status = RunStatus::Completed;
        self.duration_ms = Some(elapsed(self.started_at, now));
    }
}

/// A stream as it is kept is the front part of all that was written, and it is marked
/// where it is not all: two writes are one write of both.
pub proof fn kept_output_is_the_front(v: RunView, a: Seq<u8>, b: Seq<u8>, which: Stream)
    requires
        within_bounds(v),
    ensures
        wrote(wrote(v, which, a), which, b) == wrote(v, which, a + b),
{
    match which {
        Stream::Stdout => {
            assert(capped(capped(v.stdout + a) + b) =~= capped(v.stdout + (a + b)));
        },
        Stream::Stderr => {
            assert(capped(capped(v.stderr + a) + b) =~= capped(v.stderr + (a + b)));
        },
    }
}

/// What is written to one stream leaves the other as it is.
pub proof fn streams_are_apart(v: RunView, bytes: Seq<u8>)
    ensures
        wrote(v, Stream::Stdout, bytes).stderr == v.stderr,
        wrote(v, Stream::Stdout, bytes).stderr_truncated == v.stderr_truncated,
        wrote(v, Stream::Stderr, bytes).stdout == v.stdout,
        wrote(v, Stream::Stderr, bytes).stdout_truncated == v.stdout_truncated,
{
}

} // verus!
