//! The errors that commands answer with.
use vstd::prelude::*;
use crate::text;

verus! {

/// What kind of error it is.
#[derive(Clone, Copy, Debug, PartialEq, Eq, Structural)]
pub enum AppErrorCode {
    InvalidInput,
    NotFound,
    AlreadyExists,
    ConfigurationMissing,
    DependencyMissing,
    IoError,
    TaskExecutionFailed,
    TurnInProgress,
}

/// An error that a command answers with.
#[derive(Debug, PartialEq, Eq)]
pub struct AppCommandError {
    pub code: AppErrorCode,
    pub message: String,
}

/// The content of an `AppCommandError`.
#[verifier::ext_equal]
pub struct AppErrorView {
    pub code: AppErrorCode,
    pub message: Seq<char>,
}

impl View for AppCommandError {
    type V = AppErrorView;

    open spec fn view(&self) -> AppErrorView {
        AppErrorView { code: self.code, message: self.message@ }
    }
}

impl DeepView for AppCommandError {
    type V = AppErrorView;

    open spec fn deep_view(&self) -> AppErrorView {
        self@
    }
}

/// An error with what the system said.
#[derive(Debug, PartialEq, Eq)]
pub struct DetailedError {
    pub error: AppCommandError,
    pub detail: String,
}

/// An error of the system.
pub fn io_error(message: &str, detail: String) -> (r: DetailedError)
    ensures
        r.error@ == (AppErrorView { code: AppErrorCode::IoError, message: message@ }),
        r.detail == detail,
{
    DetailedError {
        error: AppCommandError { code: AppErrorCode::IoError, message: message.to_owned() },
        detail,
    }
}

/// An error for input that makes no sense.
pub fn invalid_input(message: &str) -> (r: AppCommandError)
    ensures
        r@ == (AppErrorView { code: AppErrorCode::InvalidInput, message: message@ }),
{
    AppCommandError { code: AppErrorCode::InvalidInput, message: message.to_owned() }
}

/// An error for input that makes no sense, with a stable machine code in front.
pub open spec fn coded(code: Seq<char>, message: Seq<char>) -> AppErrorView {
    AppErrorView { code: AppErrorCode::InvalidInput, message: code + ": "@ + message }
}

/// An error for input that makes no sense, with a stable machine code in front.
pub fn coded_invalid(code: &str, message: &str) -> (r: AppCommandError)
    ensures
        r@ == coded(code@, message@),
{
    AppCommandError {
        code: AppErrorCode::InvalidInput,
        message: text::cat3(code, ": ", message),
    }
}

} // verus!
