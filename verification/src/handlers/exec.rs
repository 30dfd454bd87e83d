//! A command that is run while the caller waits.
use vstd::prelude::*;
use crate::digest;
use crate::errors;
use crate::errors::{AppCommandError, AppErrorCode, AppErrorView};
use crate::handlers::runner;
use crate::text;

verus! {

/// A command to be run by the shell.
#[derive(Debug)]
pub struct ExecParams {
    pub command: String,
    pub cwd: Option<String>,
    pub stdin: Option<String>,
    pub env: Vec<(String, String)>,
    pub timeout_ms: Option<u64>,
}

/// What came of a command.
#[derive(Debug, PartialEq, Eq)]
pub struct ExecResult {
    pub stdout: String,
    pub stderr: String,
    /// Nothing where the command was ended by a signal or for its time.
    pub exit_code: Option<i32>,
    pub timed_out: bool,
    pub truncated: bool,
    pub duration_ms: u64,
}

/// The content of an `ExecResult`.
#[verifier::ext_equal]
pub struct ResultView {
    pub stdout: Seq<char>,
    pub stderr: Seq<char>,
    pub exit_code: Option<i32>,
    pub timed_out: bool,
    pub truncated: bool,
    pub duration_ms: u64,
}

impl View for ExecResult {
    type V = ResultView;

    open spec fn view(&self) -> ResultView {
        ResultView {
            stdout: self.stdout@,
            stderr: self.stderr@,
            exit_code: self.exit_code,
            timed_out: self.timed_out,
            truncated: self.truncated,
            duration_ms: self.duration_ms,
        }
    }
}

/// How a command is run: in which directory, and for how long at most.
#[derive(Debug, PartialEq, Eq)]
pub struct ExecPlan {
    pub cwd: Option<String>,
    pub timeout_ms: u64,
}

/// How a command is run; an error where there is no command.
pub fn plan_exec(params: &ExecParams) -> (r: Result<ExecPlan, AppCommandError>)
    ensures
        if text::trim(params.command@).len() == 0 {
            r matches Err(e) && e@ == (AppErrorView {
                code: AppErrorCode::InvalidInput,
                message: "command must not be empty"@,
            })
        } else {
            r matches Ok(p) && p.cwd.deep_view() == runner::named_dir(params.cwd.deep_view())
                && p.timeout_ms == runner::time_limit(params.timeout_ms)
        },
{
    if text::trimmed(params.command.as_str()).as_str().is_empty() {
        return Err(errors::invalid_input("command must not be empty"));
    }
    Ok(
        ExecPlan {
            cwd: text::owned(runner::working_dir(&params.cwd)),
            timeout_ms: runner::limit_time(params.timeout_ms),
        },
    )
}

/// The text of what is kept of an output stream, and whether that is not all.
pub fn clamp_output(bytes: Vec<u8>) -> (r: (String, bool))
    ensures
        r.0@ == digest::lossy_text(runner::capped(bytes@)),
        r.1 == (bytes@.len() > runner::MAX_OUTPUT_BYTES),
{
    if bytes.len() > runner::MAX_OUTPUT_BYTES {
        let mut bytes = bytes;
        let ghost all = bytes@;
        bytes.truncate(runner::MAX_OUTPUT_BYTES);
        assert(bytes@ =~= all.take(runner::MAX_OUTPUT_BYTES as int));
        (digest::from_utf8_lossy(bytes.as_slice()), true)
    } else {
        (digest::from_utf8_lossy(bytes.as_slice()), false)
    }
}

/// How a command ended.
#[derive(Debug)]
pub enum ExecEnd {
    Finished { stdout: Vec<u8>, stderr: Vec<u8>, exit_code: Option<i32> },
    /// It was ended after so many milliseconds.
    TimedOut { limit_ms: u64 },
}

/// What came of a command.
pub open spec fn outcome(end: ExecEnd, duration_ms: u64) -> ResultView {
    match end {
        ExecEnd::Finished { stdout, stderr, exit_code } => ResultView {
            stdout: digest::lossy_text(runner::capped(stdout@)),
            stderr: digest::lossy_text(runner::capped(stderr@)),
            exit_code,
            timed_out: false,
            truncated: stdout@.len() > runner::MAX_OUTPUT_BYTES || stderr@.len()
                > runner::MAX_OUTPUT_BYTES,
            duration_ms,
        },
        ExecEnd::TimedOut { limit_ms } => ResultView {
            stdout: Seq::empty(),
            stderr: "command timed out after "@ + text::dec(limit_ms as nat) + "ms"@,
            exit_code: None,
            timed_out: true,
            truncated: false,
            duration_ms,
        },
    }
}

/// What came of a command.
pub fn exec_result(end: ExecEnd, duration_ms: u64) -> (r: ExecResult)
    ensures
        r@ == outcome(end, duration_ms),
{
    match end {
        ExecEnd::Finished { stdout, stderr, exit_code } => {
            let (out, out_cut) = clamp_output(stdout);
            let (err, err_cut) = clamp_output(stderr);
            ExecResult {
                stdout: out,
                stderr: err,
                exit_code,
                timed_out: false,
                truncated: out_cut || err_cut,
                duration_ms,
            }
        },
        ExecEnd::TimedOut { limit_ms } => {
            let stdout = String::new();
            assert(stdout@ =~= Seq::empty());
            ExecResult {
                stdout,
                stderr: text::cat3(
                    "command timed out after ",
                    text::dec_u64(limit_ms).as_str(),
                    "ms",
                ),
                exit_code: None,
                timed_out: true,
                truncated: false,
                duration_ms,
            }
        },
    }
}

} // verus!
