//! Prompts and cancellations for agents that are driven by their command line.
//!
//! Error messages start with a stable machine code for callers to match.
use vstd::prelude::*;
use crate::agents;
use crate::agents::{AgentType, ConnectionTransport};
use crate::cli::connection;
use crate::cli::connection::{CliConnectError, CliConnectRequest};
use crate::cli::dsh_profile;
use crate::cli::prompt::PromptInputBlock;
use crate::errors;
use crate::errors::{AppCommandError, AppErrorCode, AppErrorView};
use crate::text;

verus! {

/// A prompt, with the connection it goes to or what is needed to make one.
#[derive(Debug)]
pub struct CliPromptParams {
    pub connection_id: Option<String>,
    pub agent_type: Option<AgentType>,
    pub working_dir: Option<String>,
    pub session_id: Option<String>,
    pub folder_id: Option<i32>,
    pub conversation_id: Option<i32>,
    pub blocks: Vec<PromptInputBlock>,
    pub client_message_id: Option<String>,
    pub model: Option<String>,
    /// The route of the model.
    pub provider: Option<String>,
    pub runtime_env: Option<Vec<(String, String)>>,
}

/// Where a prompt went.
#[derive(Debug, PartialEq, Eq)]
pub struct CliPromptResult {
    pub connection_id: String,
    pub session_id: Option<String>,
    pub conversation_id: Option<i32>,
}

/// The connection whose turn is to stop.
#[derive(Debug)]
pub struct CliCancelParams {
    pub connection_id: String,
}

/// What went wrong in a connection, with its message.
#[derive(Debug)]
pub struct AcpFailure {
    pub kind: AcpFailureKind,
    pub message: String,
}

/// The kinds of failures that are told apart.
#[derive(Debug)]
pub enum AcpFailureKind {
    TurnInProgress,
    ConnectionNotFound(String),
    Other,
}

/// The error for a connection that does not exist.
pub open spec fn not_found(id: Seq<char>) -> AppErrorView {
    AppErrorView { code: AppErrorCode::NotFound, message: "connection_not_found: "@ + id }
}

/// The error for a connection that does not exist.
pub fn connection_not_found(connection_id: &str) -> (r: AppCommandError)
    ensures
        r@ == not_found(connection_id@),
{
    AppCommandError {
        code: AppErrorCode::NotFound,
        message: text::cat2("connection_not_found: ", connection_id),
    }
}

/// What is wrong with a prompt before any connection is looked at: a prompt has
/// blocks, and one for a conversation names the folder of it.
pub open spec fn prompt_fault(params: CliPromptParams) -> Option<AppErrorView> {
    if params.blocks@.len() == 0 {
        Some(
            errors::coded("invalid_params"@, "blocks must contain at least one content block"@),
        )
    } else if params.conversation_id is Some && params.folder_id is None {
        Some(errors::coded("invalid_params"@, "conversationId requires folderId"@))
    } else {
        None
    }
}

/// Checks a prompt before any connection is looked at.
pub fn check_prompt(params: &CliPromptParams) -> (r: Result<(), AppCommandError>)
    ensures
        match prompt_fault(*params) {
            Some(e) => r matches Err(x) && x@ == e,
            None => r is Ok,
        },
{
    if params.blocks.len() == 0 {
        return Err(
            errors::coded_invalid(
                "invalid_params",
                "blocks must contain at least one content block",
            ),
        );
    }
    if params.conversation_id.is_some() && params.folder_id.is_none() {
        return Err(errors::coded_invalid("invalid_params", "conversationId requires folderId"));
    }
    Ok(())
}

/// What is wrong with a connection as one that is driven by a command line.
pub open spec fn transport_fault(transport: Option<ConnectionTransport>, id: Seq<char>) -> Option<
    AppErrorView,
> {
    match transport {
        Some(ConnectionTransport::Cli) => None,
        Some(ConnectionTransport::Acp) => Some(
            errors::coded(
                "transport_mismatch"@,
                "this connection uses the ACP transport; use acp_prompt / acp_cancel"@,
            ),
        ),
        None => Some(not_found(id)),
    }
}

/// Checks that a connection is driven by a command line.
pub fn ensure_cli_connection(transport: Option<ConnectionTransport>, connection_id: &str) -> (r:
    Result<(), AppCommandError>)
    ensures
        match transport_fault(transport, connection_id@) {
            Some(e) => r matches Err(x) && x@ == e,
            None => r is Ok,
        },
{
    match transport {
        Some(ConnectionTransport::Cli) => Ok(()),
        Some(ConnectionTransport::Acp) => Err(
            errors::coded_invalid(
                "transport_mismatch",
                "this connection uses the ACP transport; use acp_prompt / acp_cancel",
            ),
        ),
        None => Err(connection_not_found(connection_id)),
    }
}

/// Whether the handlers of the other transport refuse a connection.
pub open spec fn refused_elsewhere(transport: Option<ConnectionTransport>) -> bool {
    transport == Some(ConnectionTransport::Cli)
}

/// Guards the handlers of the other transport: refuses a connection that is driven
/// by a command line. A missing connection passes, so that the handler reports it.
pub fn reject_cli_connection(transport: Option<ConnectionTransport>, code: &str) -> (r: Result<
    (),
    AppCommandError,
>)
    ensures
        if refused_elsewhere(transport) {
            r matches Err(x) && x@ == errors::coded(
                code@,
                "this connection uses the CLI transport; use cli_prompt / cli_cancel"@,
            )
        } else {
            r is Ok
        },
{
    match transport {
        Some(ConnectionTransport::Cli) => Err(
            errors::coded_invalid(
                code,
                "this connection uses the CLI transport; use cli_prompt / cli_cancel",
            ),
        ),
        _ => Ok(()),
    }
}

/// Whether an agent can continue a session with an id. Sessions of the harness are
/// `session-<uuid>`; a bare UUID there is an older conversation that is continued
/// in a fresh session.
pub open spec fn session_fits(agent: AgentType, id: Seq<char>) -> bool {
    connection::uuid_accepted(id) || agent == AgentType::DeepSeek && connection::dsh_session(id)
}

/// The error for an id that an agent cannot continue.
pub open spec fn session_refusal(agent: AgentType) -> AppErrorView {
    errors::coded(
        "invalid_params"@,
        if agent == AgentType::DeepSeek {
            "sessionId must be `session-<uuid>` (or a bridge uuid) for deepseek"@
        } else {
            "sessionId must be a UUID"@
        },
    )
}

/// Checks that an agent can continue a session with an id.
pub fn validate_cli_session_id(agent_type: AgentType, session_id: &str) -> (r: Result<
    (),
    AppCommandError,
>)
    ensures
        match r {
            Ok(_) => session_fits(agent_type, session_id@),
            Err(e) => !session_fits(agent_type, session_id@) && e@ == session_refusal(agent_type),
        },
{
    match agent_type {
        AgentType::DeepSeek => if connection::is_dsh_session_id(session_id) || connection::is_uuid(
            session_id,
        ) {
            Ok(())
        } else {
            Err(
                errors::coded_invalid(
                    "invalid_params",
                    "sessionId must be `session-<uuid>` (or a bridge uuid) for deepseek",
                ),
            )
        },
        _ => if connection::is_uuid(session_id) {
            Ok(())
        } else {
            Err(errors::coded_invalid("invalid_params", "sessionId must be a UUID"))
        },
    }
}

/// A text without the white space around it; nothing where nothing is left.
pub open spec fn filled(s: Option<Seq<char>>) -> Option<Seq<char>> {
    match s {
        Some(t) => if text::trim(t).len() > 0 {
            Some(text::trim(t))
        } else {
            None
        },
        None => None,
    }
}

/// A text without the white space around it; nothing where nothing is left.
pub fn trimmed_text(s: &Option<String>) -> (r: Option<String>)
    ensures
        r.deep_view() == filled(s.deep_view()),
{
    match s {
        Some(t) => {
            let t = text::trimmed(t.as_str());
            if t.as_str().is_empty() {
                None
            } else {
                Some(t)
            }
        },
        None => None,
    }
}

/// What stands in the way of a new connection. `name` is the agent's name, and
/// `is_dir` tells whether the working directory is one.
pub open spec fn connect_fault(params: CliPromptParams, name: Seq<char>, is_dir: bool) -> Option<
    AppErrorView,
> {
    match params.agent_type {
        None => Some(
            errors::coded(
                "invalid_params"@,
                "agentType is required when connectionId is omitted"@,
            ),
        ),
        Some(agent) => if !agents::on_cli(agent) {
            Some(
                errors::coded(
                    "unsupported_agent"@,
                    name
                        + " is not supported by the CLI transport; supported: claude_code, deepseek, codex"@,
                ),
            )
        } else {
            match filled(params.working_dir.deep_view()) {
                None => Some(
                    errors::coded(
                        "invalid_params"@,
                        "workingDir is required when connectionId is omitted"@,
                    ),
                ),
                Some(dir) => if !is_dir {
                    Some(
                        errors::coded(
                            "invalid_params"@,
                            "workingDir is not a directory: "@ + dir,
                        ),
                    )
                } else {
                    match params.session_id {
                        Some(id) => if session_fits(agent, id@) {
                            None
                        } else {
                            Some(session_refusal(agent))
                        },
                        None => None,
                    }
                },
            }
        },
    }
}

/// Checks what a new connection is asked for with, and gives its agent and working
/// directory. `is_dir` tells whether `trimmed_text(&params.working_dir)` is a
/// directory.
pub fn plan_connect(params: &CliPromptParams, name: &str, is_dir: bool) -> (r: Result<
    (AgentType, String),
    AppCommandError,
>)
    ensures
        match connect_fault(*params, name@, is_dir) {
            Some(e) => r matches Err(x) && x@ == e,
            None => r matches Ok(p) && params.agent_type == Some(p.0) && Some(p.1@) == filled(
                params.working_dir.deep_view(),
            ),
        },
{
    let agent = match params.agent_type {
        Some(a) => a,
        None => {
            return Err(
                errors::coded_invalid(
                    "invalid_params",
                    "agentType is required when connectionId is omitted",
                ),
            );
        },
    };
    if !agents::runs_on_cli(agent) {
        return Err(
            errors::coded_invalid(
                "unsupported_agent",
                text::cat2(
                    name,
                    " is not supported by the CLI transport; supported: claude_code, deepseek, codex",
                ).as_str(),
            ),
        );
    }
    let dir = match trimmed_text(&params.working_dir) {
        Some(d) => d,
        None => {
            return Err(
                errors::coded_invalid(
                    "invalid_params",
                    "workingDir is required when connectionId is omitted",
                ),
            );
        },
    };
    if !is_dir {
        return Err(
            errors::coded_invalid(
                "invalid_params",
                text::cat2("workingDir is not a directory: ", dir.as_str()).as_str(),
            ),
        );
    }
    if let Some(id) = &params.session_id {
        match validate_cli_session_id(agent, id.as_str()) {
            Ok(_) => {},
            Err(e) => {
                return Err(e);
            },
        }
    }
    Ok((agent, dir))
}

/// The variables whose names are not among those of others.
pub open spec fn unnamed(
    base: Seq<(Seq<char>, Seq<char>)>,
    extra: Seq<(Seq<char>, Seq<char>)>,
) -> Seq<(Seq<char>, Seq<char>)>
    decreases base.len(),
{
    if base.len() == 0 {
        Seq::empty()
    } else if dsh_profile::env(extra, base.last().0) is Some {
        unnamed(base.drop_last(), extra)
    } else {
        unnamed(base.drop_last(), extra).push(base.last())
    }
}

/// Variables with others laid over them.
pub open spec fn overlaid(
    base: Seq<(Seq<char>, Seq<char>)>,
    extra: Seq<(Seq<char>, Seq<char>)>,
) -> Seq<(Seq<char>, Seq<char>)> {
    extra + unnamed(base, extra)
}

/// Lays variables over others.
pub fn extend_env(base: Vec<(String, String)>, extra: &Option<Vec<(String, String)>>) -> (r: Vec<
    (String, String),
>)
    ensures
        match extra {
            Some(e) => r.deep_view() == overlaid(base.deep_view(), e.deep_view()),
            None => r == base,
        },
{
    let extra = match extra {
        Some(e) => e,
        None => {
            return base;
        },
    };
    let ghost b = base.deep_view();
    let ghost e = extra.deep_view();
    let mut out: Vec<(String, String)> = Vec::new();
    for i in 0..extra.len()
        invariant
            e == extra.deep_view(),
            out.deep_view() == e.take(i as int),
    {
        let ghost before = out.deep_view();
        out.push((extra[i].0.clone(), extra[i].1.clone()));
        assert(e[i as int] == (extra@[i as int].0@, extra@[i as int].1@));
        assert(out.deep_view() =~= before.push(e[i as int]));
        assert(out.deep_view() =~= e.take(i + 1));
    }
    assert(e.take(e.len() as int) =~= e);
    assert(e + unnamed(b.take(0), e) =~= e);
    for i in 0..base.len()
        invariant
            e == extra.deep_view(),
            b == base.deep_view(),
            out.deep_view() == e + unnamed(b.take(i as int), e),
    {
        let ghost before = out.deep_view();
        assert(b.take(i + 1).drop_last() =~= b.take(i as int));
        assert(b.take(i + 1).last() == (base@[i as int].0@, base@[i as int].1@));
        if dsh_profile::env_get(extra, base[i].0.as_str()).is_none() {
            out.push((base[i].0.clone(), base[i].1.clone()));
            assert(out.deep_view() =~= before.push(b[i as int]));
            assert(out.deep_view() =~= e + unnamed(b.take(i + 1), e));
        }
    }
    assert(b.take(b.len() as int) =~= b);
    out
}

/// The value of a variable in a row that is followed by another.
proof fn env_of_sum(
    a: Seq<(Seq<char>, Seq<char>)>,
    b: Seq<(Seq<char>, Seq<char>)>,
    name: Seq<char>,
)
    ensures
        dsh_profile::env(a + b, name) == match dsh_profile::env(a, name) {
            Some(v) => Some(v),
            None => dsh_profile::env(b, name),
        },
    decreases a.len(),
{
    if a.len() == 0 {
        assert(a + b =~= b);
    } else {
        assert((a + b)[0] == a[0]);
        assert((a + b).skip(1) =~= a.skip(1) + b);
        env_of_sum(a.skip(1), b, name);
    }
}

/// Leaving out the variables that others name keeps the rest.
proof fn unnamed_keeps_the_rest(
    base: Seq<(Seq<char>, Seq<char>)>,
    extra: Seq<(Seq<char>, Seq<char>)>,
    name: Seq<char>,
)
    requires
        dsh_profile::env(extra, name) is None,
    ensures
        dsh_profile::env(unnamed(base, extra), name) == dsh_profile::env(base, name),
    decreases base.len(),
{
    if base.len() > 0 {
        let last = base.last();
        unnamed_keeps_the_rest(base.drop_last(), extra, name);
        assert(base =~= base.drop_last() + seq![last]);
        env_of_sum(base.drop_last(), seq![last], name);
        let rest = unnamed(base.drop_last(), extra);
        assert(rest.push(last) =~= rest + seq![last]);
        env_of_sum(rest, seq![last], name);
        reveal_with_fuel(dsh_profile::env, 2);
        assert(seq![last].skip(1) =~= Seq::empty());
    }
}

/// A variable of the overlay has its value there, and every other keeps its own.
pub proof fn overlay_wins(
    base: Seq<(Seq<char>, Seq<char>)>,
    extra: Seq<(Seq<char>, Seq<char>)>,
    name: Seq<char>,
)
    ensures
        dsh_profile::env(overlaid(base, extra), name) == match dsh_profile::env(extra, name) {
            Some(v) => Some(v),
            None => dsh_profile::env(base, name),
        },
{
    env_of_sum(extra, unnamed(base, extra), name);
    if dsh_profile::env(extra, name) is None {
        unnamed_keeps_the_rest(base, extra, name);
    }
}

/// The error for a session environment that could not be built.
pub fn runtime_env_failed(why: &str) -> (r: AppCommandError)
    ensures
        r@ == (AppErrorView {
            code: AppErrorCode::ConfigurationMissing,
            message: "runtime_env_failed: "@ + why@,
        }),
{
    AppCommandError {
        code: AppErrorCode::ConfigurationMissing,
        message: text::cat2("runtime_env_failed: ", why),
    }
}

/// The error for an agent whose executable is missing.
pub fn cli_not_installed(why: &str) -> (r: AppCommandError)
    ensures
        r@ == (AppErrorView {
            code: AppErrorCode::DependencyMissing,
            message: "cli_not_installed: "@ + why@,
        }),
{
    AppCommandError {
        code: AppErrorCode::DependencyMissing,
        message: text::cat2("cli_not_installed: ", why),
    }
}

/// What a connection is asked for with, for a prompt.
pub fn connect_request(
    params: &CliPromptParams,
    agent_type: AgentType,
    working_dir: String,
    runtime_env: Vec<(String, String)>,
    executable: String,
) -> (r: CliConnectRequest)
    ensures
        r.agent_type == agent_type,
        r.working_dir == working_dir,
        r.session_id.deep_view() == params.session_id.deep_view(),
        r.runtime_env == runtime_env,
        r.executable == executable,
        r.provider.deep_view() == params.provider.deep_view(),
        r.model.deep_view() == params.model.deep_view(),
        r.owner_window_label is None,
{
    CliConnectRequest {
        agent_type,
        working_dir,
        session_id: text::copied(&params.session_id),
        runtime_env,
        executable,
        provider: text::copied(&params.provider),
        model: text::copied(&params.model),
        owner_window_label: None,
    }
}

/// The error for a connection that could not be had.
pub open spec fn connect_refusal(e: CliConnectError) -> AppErrorView {
    match e {
        CliConnectError::SessionLocked { connection_id } => AppErrorView {
            code: AppErrorCode::AlreadyExists,
            message: "session_locked: this session is held by connection "@ + connection_id@,
        },
        CliConnectError::ProfileWriteFailed(message) => AppErrorView {
            code: AppErrorCode::ConfigurationMissing,
            message: "dsh_profile_failed: "@ + message@,
        },
    }
}

/// The error for a connection that could not be had.
pub fn connect_error(e: &CliConnectError) -> (r: AppCommandError)
    ensures
        r@ == connect_refusal(*e),
{
    match e {
        CliConnectError::SessionLocked { connection_id } => AppCommandError {
            code: AppErrorCode::AlreadyExists,
            message: text::cat2(
                "session_locked: this session is held by connection ",
                connection_id.as_str(),
            ),
        },
        CliConnectError::ProfileWriteFailed(message) => AppCommandError {
            code: AppErrorCode::ConfigurationMissing,
            message: text::cat2("dsh_profile_failed: ", message.as_str()),
        },
    }
}

/// The error for a prompt that was not admitted.
pub open spec fn prompt_refusal(e: AcpFailure) -> AppErrorView {
    match e.kind {
        AcpFailureKind::TurnInProgress => AppErrorView {
            code: AppErrorCode::TurnInProgress,
            message: e.message@,
        },
        AcpFailureKind::ConnectionNotFound(id) => not_found(id@),
        AcpFailureKind::Other => AppErrorView {
            code: AppErrorCode::TaskExecutionFailed,
            message: e.message@,
        },
    }
}

/// The error for a prompt that was not admitted.
pub fn prompt_error(err: AcpFailure) -> (r: AppCommandError)
    ensures
        r@ == prompt_refusal(err),
{
    match err.kind {
        AcpFailureKind::TurnInProgress => AppCommandError {
            code: AppErrorCode::TurnInProgress,
            message: err.message,
        },
        AcpFailureKind::ConnectionNotFound(id) => connection_not_found(id.as_str()),
        AcpFailureKind::Other => AppCommandError {
            code: AppErrorCode::TaskExecutionFailed,
            message: err.message,
        },
    }
}

/// What follows a prompt that was sent: the answer, and whether the connection is
/// dropped again. It is where the prompt was refused and the connection was made
/// for it.
pub fn finish_prompt(
    connection_id: String,
    created: bool,
    sent: Result<Option<i32>, AcpFailure>,
    session_id: Option<String>,
) -> (r: (bool, Result<CliPromptResult, AppCommandError>))
    ensures
        r.0 == (created && sent is Err),
        match sent {
            Ok(conversation_id) => r.1 == Ok::<CliPromptResult, AppCommandError>(
                (CliPromptResult { connection_id, session_id, conversation_id }),
            ),
            Err(e) => r.1 matches Err(x) && x@ == prompt_refusal(e),
        },
{
    match sent {
        Ok(conversation_id) => (
            false,
            Ok(CliPromptResult { connection_id, session_id, conversation_id }),
        ),
        Err(e) => (created, Err(prompt_error(e))),
    }
}

/// Whether a turn is to be cancelled. `in_flight` tells whether the connection's
/// turn runs; there is nothing to stop between turns.
pub fn cli_cancel(
    params: &CliCancelParams,
    transport: Option<ConnectionTransport>,
    in_flight: Option<bool>,
) -> (r: Result<bool, AppCommandError>)
    ensures
        match transport_fault(transport, params.connection_id@) {
            Some(e) => r matches Err(x) && x@ == e,
            None => match in_flight {
                Some(running) => r == Ok::<bool, AppCommandError>(running),
                None => r matches Err(x) && x@ == not_found(params.connection_id@),
            },
        },
{
    match ensure_cli_connection(transport, params.connection_id.as_str()) {
        Err(e) => Err(e),
        Ok(_) => match in_flight {
            Some(running) => Ok(running),
            None => Err(connection_not_found(params.connection_id.as_str())),
        },
    }
}

/// The error for a cancellation that failed.
pub fn cancel_error(params: &CliCancelParams, err: AcpFailure) -> (r: AppCommandError)
    ensures
        r@ == match err.kind {
            AcpFailureKind::ConnectionNotFound(_) => not_found(params.connection_id@),
            _ => AppErrorView {
                code: AppErrorCode::TaskExecutionFailed,
                message: err.message@,
            },
        },
{
    match err.kind {
        AcpFailureKind::ConnectionNotFound(_) => connection_not_found(
            params.connection_id.as_str(),
        ),
        _ => AppCommandError { code: AppErrorCode::TaskExecutionFailed, message: err.message },
    }
}

/// A live connection is driven through one transport only: the handlers of one let
/// it pass exactly where the handlers of the other refuse it.
pub proof fn transports_exclude_each_other(transport: ConnectionTransport, id: Seq<char>)
    ensures
        (transport_fault(Some(transport), id) is None) == refused_elsewhere(Some(transport)),
{
}

/// A session that a new connection names itself can be continued under that name: the
/// ids that are minted are UUIDs.
pub proof fn minted_sessions_can_be_continued(agent: AgentType, minted: Seq<char>)
    requires
        connection::uuid_accepted(minted),
    ensures
        connection::first_session(agent, None, minted) matches Some(id) ==> session_fits(agent, id),
{
}

} // verus!
