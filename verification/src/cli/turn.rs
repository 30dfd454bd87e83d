//! What every agent's turn has in common: how it begins, what it records, how it
//! ends.
//!
//! Every turn ends with exactly one `TurnComplete`. It is the only event that
//! lets the connection take the next prompt.
use vstd::prelude::*;
use crate::agents;
use crate::agents::DriverKind;
use crate::cli::outcome::{clean, failed, CliTurnError, ErrorView, FinishView, TurnFinish};
use crate::cli::outcome::{STOP_CANCELLED, STOP_UNKNOWN};
use crate::cli::transcript;
use crate::events::{AcpEvent, ConnectionStatus, EventView};
use crate::json::{Json, JsonView};
use crate::text;

verus! {

/// The most bytes of an agent's error output that are kept.
pub const STDERR_TAIL_BYTES: usize = 65536;

/// The unparsable lines in a row at which the output is given up.
pub const MAX_CONSECUTIVE_UNPARSABLE: usize = 50;

/// The most bytes of a line that are shown as a sample.
pub const PROTOCOL_SAMPLE_BYTES: usize = 2048;

/// What a turn wants done, in order.
#[derive(Debug)]
pub enum TurnEffect {
    /// Send an event to the viewers.
    Emit(AcpEvent),
    /// Write the header and the prompt of the turn to the history.
    RecordStart { session_id: String },
    /// Write an update to the history.
    RecordUpdate { session_id: String, update: Json },
    /// Write an error to the history.
    RecordError { session_id: String, message: String, code: String },
    /// Write the end of the turn to the history.
    RecordEnd { session_id: String, stop_reason: String, duration_ms: u64, model: Option<String> },
    /// Send a message to the agent's process; `interrupt` tells the request that
    /// stops the turn.
    Send { payload: Json, interrupt: bool },
}

/// The content of a `TurnEffect`.
#[verifier::ext_equal]
pub enum EffectView {
    Emit(EventView),
    RecordStart { session_id: Seq<char> },
    RecordUpdate { session_id: Seq<char>, update: JsonView },
    RecordError { session_id: Seq<char>, message: Seq<char>, code: Seq<char> },
    RecordEnd {
        session_id: Seq<char>,
        stop_reason: Seq<char>,
        duration_ms: u64,
        model: Option<Seq<char>>,
    },
    Send { payload: JsonView, interrupt: bool },
}

impl View for TurnEffect {
    type V = EffectView;

    open spec fn view(&self) -> EffectView {
        match *self {
            TurnEffect::Emit(event) => EffectView::Emit(event@),
            TurnEffect::RecordStart { session_id } => EffectView::RecordStart {
                session_id: session_id@,
            },
            TurnEffect::RecordUpdate { session_id, update } => EffectView::RecordUpdate {
                session_id: session_id@,
                update: update@,
            },
            TurnEffect::RecordError { session_id, message, code } => EffectView::RecordError {
                session_id: session_id@,
                message: message@,
                code: code@,
            },
            TurnEffect::RecordEnd { session_id, stop_reason, duration_ms, model } =>
                EffectView::RecordEnd {
                session_id: session_id@,
                stop_reason: stop_reason@,
                duration_ms,
                model: model.deep_view(),
            },
            TurnEffect::Send { payload, interrupt } => EffectView::Send {
                payload: payload@,
                interrupt,
            },
        }
    }
}

impl DeepView for TurnEffect {
    type V = EffectView;

    open spec fn deep_view(&self) -> EffectView {
        self@
    }
}

/// Adds an effect at the end of a list.
pub fn add_to(list: &mut Vec<TurnEffect>, effect: TurnEffect)
    ensures
        final(list).deep_view() == old(list).deep_view().push(effect@),
{
    list.push(effect);
    assert(list.deep_view() =~= old(list).deep_view().push(effect@));
}

/// Adds the effects of another list at the end of a list.
pub fn extend(list: &mut Vec<TurnEffect>, more: Vec<TurnEffect>)
    ensures
        final(list).deep_view() == old(list).deep_view() + more.deep_view(),
{
    let mut rest = more;
    list.append(&mut rest);
    assert(list.deep_view() =~= old(list).deep_view() + more.deep_view());
}

/// The list of no effects.
pub fn nothing() -> (r: Vec<TurnEffect>)
    ensures
        r.deep_view() == Seq::<EffectView>::empty(),
{
    let out: Vec<TurnEffect> = Vec::new();
    assert(out.deep_view() =~= Seq::empty());
    out
}

/// What one turn knows about its session for recording.
#[derive(Debug)]
pub struct TurnRecord {
    pub session_id: Option<String>,
    pub prompt_recorded: bool,
}

/// The content of a `TurnRecord`.
#[verifier::ext_equal]
pub struct RecordView {
    pub session_id: Option<Seq<char>>,
    pub prompt_recorded: bool,
}

impl View for TurnRecord {
    type V = RecordView;

    open spec fn view(&self) -> RecordView {
        RecordView {
            session_id: self.session_id.deep_view(),
            prompt_recorded: self.prompt_recorded,
        }
    }
}

/// Emits one event and records it. The session's start puts header and prompt on
/// disk before it is emitted.
pub open spec fn recorded(r: RecordView, e: EventView) -> (RecordView, Seq<EffectView>) {
    match e {
        EventView::SessionStarted { session_id } => (
            RecordView { session_id: Some(session_id), prompt_recorded: true },
            if r.prompt_recorded {
                seq![EffectView::Emit(e)]
            } else {
                seq![EffectView::RecordStart { session_id }, EffectView::Emit(e)]
            },
        ),
        _ => match (r.session_id, transcript::update(e)) {
            (Some(session_id), Some(update)) => (
                r,
                seq![EffectView::RecordUpdate { session_id, update }, EffectView::Emit(e)],
            ),
            _ => (r, seq![EffectView::Emit(e)]),
        },
    }
}

/// Emits and records several events.
pub open spec fn all_recorded(r: RecordView, events: Seq<EventView>) -> (RecordView, Seq<EffectView>)
    decreases events.len(),
{
    if events.len() == 0 {
        (r, Seq::empty())
    } else {
        let front = all_recorded(r, events.drop_last());
        let last = recorded(front.0, events.last());
        (last.0, front.1 + last.1)
    }
}

impl TurnRecord {
    /// Emits one event and records it.
    pub fn record(&mut self, event: AcpEvent) -> (r: Vec<TurnEffect>)
        ensures
            (final(self)@, r.deep_view()) == recorded(old(self)@, event@),
    {
        let mut out = nothing();
        if let AcpEvent::SessionStarted { session_id } = &event {
            self.session_id = Some(session_id.clone());
            if !self.prompt_recorded {
                add_to(&mut out, TurnEffect::RecordStart { session_id: session_id.clone() });
                self.prompt_recorded = true;
            }
        } else {
            let update = transcript::transcript_update_for(&event);
            if let (Some(sid), Some(update)) = (&self.session_id, update) {
                add_to(&mut out, TurnEffect::RecordUpdate { session_id: sid.clone(), update });
            }
        }
        add_to(&mut out, TurnEffect::Emit(event));
        assert(out.deep_view() =~= recorded(old(self)@, event@).1);
        out
    }

    /// Emits and records several events.
    pub fn record_all(&mut self, events: Vec<AcpEvent>) -> (r: Vec<TurnEffect>)
        ensures
            (final(self)@, r.deep_view()) == all_recorded(old(self)@, events.deep_view()),
    {
        let mut out = nothing();
        let ghost all = events.deep_view();
        let mut rest = events;
        let ghost mut done: int = 0;
        assert(all.take(0) =~= Seq::empty());
        assert(rest.deep_view() =~= all.skip(0));
        while rest.len() > 0
            invariant
                0 <= done <= all.len(),
                rest.deep_view() == all.skip(done),
                (self@, out.deep_view()) == all_recorded(old(self)@, all.take(done)),
            decreases rest.len(),
        {
            let ghost before = rest.deep_view();
            assert(before.len() == rest@.len() && before.len() == all.len() - done);
            let event = rest.remove(0);
            assert(event@ == before[0]);
            assert(before[0] == all[done]);
            assert(rest.deep_view() =~= before.skip(1));
            assert(rest.deep_view() =~= all.skip(done + 1));
            assert(all.take(done + 1).drop_last() =~= all.take(done));
            assert(all.take(done + 1).last() == event@);
            let more = self.record(event);
            extend(&mut out, more);
            proof {
                done = done + 1;
            }
        }
        assert(all.skip(done).len() == 0);
        assert(all.take(done) =~= all);
        out
    }
}

/// How the exchange with an agent's process ended.
#[derive(Debug)]
pub enum TurnEnd {
    Finished(TurnFinish),
    Eof,
    Cancelled,
    Disconnected,
    /// The output was not what it should be; a sample of it.
    Protocol(String),
    Failed(CliTurnError),
}

/// The content of a `TurnEnd`.
#[verifier::ext_equal]
pub enum EndView {
    Finished(FinishView),
    Eof,
    Cancelled,
    Disconnected,
    Protocol(Seq<char>),
    Failed(ErrorView),
}

impl View for TurnEnd {
    type V = EndView;

    open spec fn view(&self) -> EndView {
        match *self {
            TurnEnd::Finished(f) => EndView::Finished(f@),
            TurnEnd::Eof => EndView::Eof,
            TurnEnd::Cancelled => EndView::Cancelled,
            TurnEnd::Disconnected => EndView::Disconnected,
            TurnEnd::Protocol(s) => EndView::Protocol(s@),
            TurnEnd::Failed(e) => EndView::Failed(e@),
        }
    }
}

impl DeepView for TurnEnd {
    type V = EndView;

    open spec fn deep_view(&self) -> EndView {
        self@
    }
}

/// What is done with the agent's process once the exchange has ended.
#[derive(Clone, Copy, Debug, PartialEq, Eq, Structural)]
pub enum Leave {
    /// Let it exit, and stop it if it does not.
    Wait,
    /// Stop it.
    Stop,
}

/// What is done with the agent's process once the exchange has ended.
pub open spec fn leaving(end: EndView) -> Leave {
    match end {
        EndView::Finished(_) | EndView::Eof => Leave::Wait,
        _ => Leave::Stop,
    }
}

/// Whether the end needs the agent's error output.
pub open spec fn wants_tail(end: EndView) -> bool {
    end is Eof || end is Failed
}

impl TurnEnd {
    /// What is done with the agent's process.
    pub fn leave(&self) -> (r: Leave)
        ensures
            r == leaving(self@),
    {
        match self {
            TurnEnd::Finished(_) => Leave::Wait,
            TurnEnd::Eof => Leave::Wait,
            _ => Leave::Stop,
        }
    }

    /// Whether the end needs the agent's error output.
    pub fn needs_tail(&self) -> (r: bool)
        ensures
            r == wants_tail(self@),
    {
        match self {
            TurnEnd::Eof => true,
            TurnEnd::Failed(_) => true,
            _ => false,
        }
    }
}

/// A text that is not empty.
pub open spec fn filled(s: Seq<char>) -> Option<Seq<char>> {
    if s.len() > 0 {
        Some(s)
    } else {
        None
    }
}

/// How the end of the exchange ends the turn, and whether the connection closes.
/// `status` tells how the process exited, `tail` is the end of its error output.
pub open spec fn concluded(driver: DriverKind, end: EndView, status: Seq<char>, tail: Seq<char>) -> (
    FinishView,
    bool,
) {
    let agent = agents::called(driver);
    match end {
        EndView::Finished(f) => (f, false),
        EndView::Cancelled => (FinishView::clean(STOP_CANCELLED@), false),
        EndView::Disconnected => (FinishView::clean(STOP_CANCELLED@), true),
        EndView::Protocol(sample) => (
            FinishView::failed(
                STOP_UNKNOWN@,
                "cli_protocol"@,
                agent + " produced "@ + text::dec(MAX_CONSECUTIVE_UNPARSABLE as nat)
                    + " consecutive unparsable output lines"@,
                Some(sample),
            ),
            false,
        ),
        EndView::Eof => (
            FinishView::failed(
                STOP_UNKNOWN@,
                "cli_exited"@,
                agent + " exited before finishing the turn ("@ + status + ")"@,
                filled(tail),
            ),
            false,
        ),
        EndView::Failed(e) => (
            FinishView {
                stop_reason: STOP_UNKNOWN@,
                error: Some(
                    ErrorView {
                        details: match e.details {
                            Some(d) => Some(d),
                            None => filled(tail),
                        },
                        ..e
                    },
                ),
            },
            false,
        ),
    }
}

/// A text that is not empty.
fn if_filled(s: &str) -> (r: Option<String>)
    ensures
        r.deep_view() == filled(s@),
{
    if s.is_empty() {
        None
    } else {
        Some(s.to_owned())
    }
}

/// How the end of the exchange ends the turn, and whether the connection closes.
pub fn conclude(driver: DriverKind, end: TurnEnd, status: &str, tail: &str) -> (r: (TurnFinish, bool))
    ensures
        (r.0@, r.1) == concluded(driver, end@, status@, tail@),
{
    let agent = agents::name_of(driver);
    match end {
        TurnEnd::Finished(f) => (f, false),
        TurnEnd::Cancelled => (clean(STOP_CANCELLED), false),
        TurnEnd::Disconnected => (clean(STOP_CANCELLED), true),
        TurnEnd::Protocol(sample) => {
            let message = text::cat4(
                agent.as_str(),
                " produced ",
                text::dec_u64(MAX_CONSECUTIVE_UNPARSABLE as u64).as_str(),
                " consecutive unparsable output lines",
            );
            (failed(STOP_UNKNOWN, "cli_protocol", message, Some(sample)), false)
        },
        TurnEnd::Eof => {
            let message = text::cat4(
                agent.as_str(),
                " exited before finishing the turn (",
                status,
                ")",
            );
            (failed(STOP_UNKNOWN, "cli_exited", message, if_filled(tail)), false)
        },
        TurnEnd::Failed(e) => {
            let details = match e.details {
                Some(d) => Some(d),
                None => if_filled(tail),
            };
            (failed(STOP_UNKNOWN, e.code, e.message, details), false)
        },
    }
}

/// How an agent's process came to its end.
#[derive(Debug)]
pub enum ProcessExit {
    /// It exited, with a code or by a signal.
    Exited { code: Option<i32>, signal: Option<i32> },
    /// Waiting for it failed.
    WaitFailed(String),
    /// It did not exit in time and was stopped.
    Stopped,
}

/// How a status of a process is told.
pub open spec fn status_text(code: Option<i32>, signal: Option<i32>) -> Seq<char> {
    match (code, signal) {
        (Some(c), _) => "exit code "@ + text::dec_signed(c as int),
        (None, Some(s)) => "signal "@ + text::dec_signed(s as int),
        (None, None) => "unknown exit status"@,
    }
}

/// How a status of a process is told.
pub fn describe_status(code: Option<i32>, signal: Option<i32>) -> (r: String)
    ensures
        r@ == status_text(code, signal),
{
    match (code, signal) {
        (Some(c), _) => text::cat2("exit code ", text::dec_i64(c as i64).as_str()),
        (None, Some(s)) => text::cat2("signal ", text::dec_i64(s as i64).as_str()),
        (None, None) => "unknown exit status".to_owned(),
    }
}

impl ProcessExit {
    /// How the end of the process is told.
    pub open spec fn told(self) -> Seq<char> {
        match self {
            ProcessExit::Exited { code, signal } => status_text(code, signal),
            ProcessExit::WaitFailed(e) => "wait failed: "@ + e@,
            ProcessExit::Stopped => "did not exit on its own; terminated"@,
        }
    }

    /// How the end of the process is told.
    pub fn describe(&self) -> (r: String)
        ensures
            r@ == self.told(),
    {
        match self {
            ProcessExit::Exited { code, signal } => describe_status(*code, *signal),
            ProcessExit::WaitFailed(e) => text::cat2("wait failed: ", e.as_str()),
            ProcessExit::Stopped => "did not exit on its own; terminated".to_owned(),
        }
    }
}

/// The end of a turn whose process did not start.
pub fn spawn_failed(driver: DriverKind, error: &str, executable: &str) -> (r: TurnFinish)
    ensures
        r@ == FinishView::failed(
            STOP_UNKNOWN@,
            "cli_spawn_failed"@,
            "Failed to start "@ + agents::called(driver) + ": "@ + error@,
            Some(executable@),
        ),
{
    failed(
        STOP_UNKNOWN,
        "cli_spawn_failed",
        text::cat4("Failed to start ", agents::name_of(driver).as_str(), ": ", error),
        Some(executable.to_owned()),
    )
}

/// The end of a turn that could not be prepared.
pub fn not_prepared(error: CliTurnError) -> (r: TurnFinish)
    ensures
        r@ == (FinishView { stop_reason: STOP_UNKNOWN@, error: Some(error@) }),
{
    TurnFinish { stop_reason: STOP_UNKNOWN.to_owned(), error: Some(error) }
}

/// The news of the error that a turn ended with.
pub open spec fn error_effects(
    error: Option<ErrorView>,
    session: Option<Seq<char>>,
    agent_type: Seq<char>,
) -> Seq<EffectView> {
    match error {
        None => Seq::empty(),
        Some(e) => {
            let shown = EffectView::Emit(
                EventView::Error {
                    message: e.message,
                    agent_type,
                    code: Some(e.code),
                    details: e.details,
                    terminal: false,
                },
            );
            match session {
                Some(session_id) => seq![
                    EffectView::RecordError { session_id, message: e.message, code: e.code },
                    shown,
                ],
                None => seq![shown],
            }
        },
    }
}

/// The record of the end of the turn, where its session is known.
pub open spec fn end_record(
    finish: FinishView,
    session: Option<Seq<char>>,
    duration_ms: u64,
    model: Option<Seq<char>>,
) -> Seq<EffectView> {
    match session {
        Some(session_id) => seq![
            EffectView::RecordEnd {
                session_id,
                stop_reason: finish.stop_reason,
                duration_ms,
                model,
            },
        ],
        None => Seq::empty(),
    }
}

/// The last effects of a turn: the error, the record of the end, `TurnComplete`
/// and, unless the connection closes, the return to `Connected`. `session` is the
/// session that the turn recorded to, `external` the one that the connection has.
pub open spec fn ending(
    finish: FinishView,
    session: Option<Seq<char>>,
    external: Option<Seq<char>>,
    agent_type: Seq<char>,
    duration_ms: u64,
    model: Option<Seq<char>>,
    disconnect: bool,
) -> Seq<EffectView> {
    let done = (error_effects(finish.error, session, agent_type) + end_record(
        finish,
        session,
        duration_ms,
        model,
    )).push(
        EffectView::Emit(
            EventView::TurnComplete {
                session_id: match external {
                    Some(s) => s,
                    None => Seq::empty(),
                },
                stop_reason: finish.stop_reason,
                agent_type,
                duration_ms: Some(duration_ms),
            },
        ),
    );
    if disconnect {
        done
    } else {
        done.push(
            EffectView::Emit(EventView::StatusChanged { status: ConnectionStatus::Connected }),
        )
    }
}

/// The last effects of a turn.
pub fn end_turn(
    finish: TurnFinish,
    session: Option<&str>,
    external: Option<&str>,
    agent_type: &str,
    duration_ms: u64,
    model: Option<&str>,
    disconnect: bool,
) -> (r: Vec<TurnEffect>)
    ensures
        r.deep_view() == ending(
            finish@,
            session.deep_view(),
            external.deep_view(),
            agent_type@,
            duration_ms,
            model.deep_view(),
            disconnect,
        ),
{
    let mut out = nothing();
    let ghost f = finish@;
    if let Some(error) = finish.error {
        if let Some(sid) = session {
            add_to(
                &mut out,
                TurnEffect::RecordError {
                    session_id: sid.to_owned(),
                    message: error.message.clone(),
                    code: error.code.to_owned(),
                },
            );
        }
        add_to(
            &mut out,
            TurnEffect::Emit(
                AcpEvent::Error {
                    message: error.message,
                    agent_type: agent_type.to_owned(),
                    code: Some(error.code.to_owned()),
                    details: error.details,
                    terminal: false,
                },
            ),
        );
    }
    assert(out.deep_view() =~= error_effects(f.error, session.deep_view(), agent_type@));
    if let Some(sid) = session {
        add_to(
            &mut out,
            TurnEffect::RecordEnd {
                session_id: sid.to_owned(),
                stop_reason: finish.stop_reason.clone(),
                duration_ms,
                model: text::owned(model),
            },
        );
    }
    assert(out.deep_view() =~= error_effects(f.error, session.deep_view(), agent_type@)
        + end_record(f, session.deep_view(), duration_ms, model.deep_view()));
    let session_id = match external {
        Some(s) => s.to_owned(),
        None => String::new(),
    };
    add_to(
        &mut out,
        TurnEffect::Emit(
            AcpEvent::TurnComplete {
                session_id,
                stop_reason: finish.stop_reason,
                agent_type: agent_type.to_owned(),
                duration_ms: Some(duration_ms),
            },
        ),
    );
    if !disconnect {
        add_to(
            &mut out,
            TurnEffect::Emit(AcpEvent::StatusChanged { status: ConnectionStatus::Connected }),
        );
    }
    out
}

/// The first effects of a turn: the status, then the echo of the prompt, so that
/// the echo comes before every answer.
pub open spec fn opening(user_message: Option<(Seq<char>, JsonView)>) -> Seq<EffectView> {
    let status = EffectView::Emit(EventView::StatusChanged { status: ConnectionStatus::Prompting });
    match user_message {
        Some((message_id, blocks)) => seq![
            status,
            EffectView::Emit(EventView::UserMessage { message_id, blocks }),
        ],
        None => seq![status],
    }
}

/// The first effects of a turn.
pub fn open_turn(user_message: Option<(String, Json)>) -> (r: Vec<TurnEffect>)
    ensures
        r.deep_view() == opening(user_message.deep_view()),
{
    let mut out = nothing();
    add_to(
        &mut out,
        TurnEffect::Emit(AcpEvent::StatusChanged { status: ConnectionStatus::Prompting }),
    );
    if let Some((message_id, blocks)) = user_message {
        add_to(&mut out, TurnEffect::Emit(AcpEvent::UserMessage { message_id, blocks }));
    }
    assert(out.deep_view() =~= opening(user_message.deep_view()));
    out
}

/// The first effects of a turn whose session may not be known yet: a known one is
/// recorded before the process starts.
pub open spec fn beginning(
    user_message: Option<(Seq<char>, JsonView)>,
    session: Option<Seq<char>>,
) -> Seq<EffectView> {
    match session {
        Some(session_id) => opening(user_message).push(EffectView::RecordStart { session_id }),
        None => opening(user_message),
    }
}

/// The first effects of a turn and what it knows for recording.
pub fn begin_turn(user_message: Option<(String, Json)>, session: Option<&str>) -> (r: (
    TurnRecord,
    Vec<TurnEffect>,
))
    ensures
        r.0@ == (RecordView {
            session_id: session.deep_view(),
            prompt_recorded: session is Some,
        }),
        r.1.deep_view() == beginning(user_message.deep_view(), session.deep_view()),
{
    let mut out = open_turn(user_message);
    if let Some(sid) = session {
        add_to(&mut out, TurnEffect::RecordStart { session_id: sid.to_owned() });
    }
    (
        TurnRecord { session_id: text::owned(session), prompt_recorded: session.is_some() },
        out,
    )
}

/// What the driver between two turns does with a command.
#[derive(Clone, Copy, Debug, PartialEq, Eq, Structural)]
pub enum Idle {
    RunTurn,
    Stop,
    /// Nothing runs between turns, so there is nothing to cancel.
    Ignore,
    Reject,
}

/// A command to a connection.
#[derive(Clone, Copy, Debug, PartialEq, Eq, Structural)]
pub enum CommandKind {
    Prompt,
    Cancel,
    Disconnect,
    GoalControl,
    Fork,
    Steer,
    StopAsyncTask,
    SetMode,
    SetConfigOption,
    RespondPermission,
}

/// The answer to a command that a command-line agent does not support.
#[derive(Clone, Copy, Debug, PartialEq, Eq, Structural)]
pub enum Rejection {
    /// The command carries no answer.
    Silent,
    /// The answer is `false`.
    No,
    /// The answer is an error.
    Unsupported,
}

/// What the driver does with a command between two turns.
pub open spec fn idle(command: CommandKind) -> Idle {
    match command {
        CommandKind::Prompt => Idle::RunTurn,
        CommandKind::Disconnect => Idle::Stop,
        CommandKind::Cancel => Idle::Ignore,
        _ => Idle::Reject,
    }
}

/// How an unsupported command is answered.
pub open spec fn rejection(command: CommandKind) -> Rejection {
    match command {
        CommandKind::GoalControl | CommandKind::StopAsyncTask => Rejection::No,
        CommandKind::Fork | CommandKind::Steer => Rejection::Unsupported,
        _ => Rejection::Silent,
    }
}

/// What the driver does with a command between two turns.
pub fn on_idle_command(command: CommandKind) -> (r: Idle)
    ensures
        r == idle(command),
{
    match command {
        CommandKind::Prompt => Idle::RunTurn,
        CommandKind::Disconnect => Idle::Stop,
        CommandKind::Cancel => Idle::Ignore,
        _ => Idle::Reject,
    }
}

/// How an unsupported command is answered.
pub fn reject_unsupported(command: CommandKind) -> (r: Rejection)
    ensures
        r == rejection(command),
{
    match command {
        CommandKind::GoalControl => Rejection::No,
        CommandKind::StopAsyncTask => Rejection::No,
        CommandKind::Fork => Rejection::Unsupported,
        CommandKind::Steer => Rejection::Unsupported,
        _ => Rejection::Silent,
    }
}

/// The error that answers an unsupported command.
pub fn unsupported() -> (r: String)
    ensures
        r@ == "unsupported_for_cli: not available on the CLI transport"@,
{
    "unsupported_for_cli: not available on the CLI transport".to_owned()
}

/// What comes from the agent's process or from the connection during a turn.
#[derive(Debug)]
pub enum TurnInput {
    /// A line of output.
    Line(String),
    /// The output ended or could not be read.
    Closed,
    Cancel,
    /// The connection closes.
    Disconnect,
    /// Another command, which is refused.
    Other,
    /// The deadline of the exchange has passed.
    Timeout,
    /// A message could not be sent to the process.
    SendFailed { error: String, interrupt: bool },
}

/// The content of a `TurnInput`.
#[verifier::ext_equal]
pub enum InputView {
    Line(Seq<char>),
    Closed,
    Cancel,
    Disconnect,
    Other,
    Timeout,
    SendFailed { error: Seq<char>, interrupt: bool },
}

impl View for TurnInput {
    type V = InputView;

    open spec fn view(&self) -> InputView {
        match *self {
            TurnInput::Line(s) => InputView::Line(s@),
            TurnInput::Closed => InputView::Closed,
            TurnInput::Cancel => InputView::Cancel,
            TurnInput::Disconnect => InputView::Disconnect,
            TurnInput::Other => InputView::Other,
            TurnInput::Timeout => InputView::Timeout,
            TurnInput::SendFailed { error, interrupt } => InputView::SendFailed {
                error: error@,
                interrupt,
            },
        }
    }
}

/// The unparsable lines in a row after one more.
pub open spec fn one_more(unparsable: nat) -> nat {
    if unparsable < MAX_CONSECUTIVE_UNPARSABLE {
        unparsable + 1
    } else {
        MAX_CONSECUTIVE_UNPARSABLE as nat
    }
}

/// The end that too many unparsable lines bring.
pub open spec fn given_up(unparsable: nat, line: Seq<char>) -> Option<EndView> {
    if unparsable >= MAX_CONSECUTIVE_UNPARSABLE {
        Some(EndView::Protocol(text::shortened(line, PROTOCOL_SAMPLE_BYTES as nat)))
    } else {
        None
    }
}

/// Counts one more unparsable line and gives up when there are too many.
pub fn count_unparsable(unparsable: &mut usize, line: &str) -> (r: Option<TurnEnd>)
    ensures
        *final(unparsable) as nat == one_more(*old(unparsable) as nat),
        r.deep_view() == given_up(*final(unparsable) as nat, line@),
{
    if *unparsable < MAX_CONSECUTIVE_UNPARSABLE {
        *unparsable = *unparsable + 1;
    } else {
        *unparsable = MAX_CONSECUTIVE_UNPARSABLE;
    }
    if *unparsable >= MAX_CONSECUTIVE_UNPARSABLE {
        Some(TurnEnd::Protocol(text::truncate(line, PROTOCOL_SAMPLE_BYTES)))
    } else {
        None
    }
}

/// The number of `TurnComplete` events among the effects.
pub open spec fn completions(effects: Seq<EffectView>) -> nat
    decreases effects.len(),
{
    if effects.len() == 0 {
        0
    } else {
        completions(effects.drop_last()) + if effects.last() matches EffectView::Emit(e) && e
            is TurnComplete {
            1nat
        } else {
            0nat
        }
    }
}

/// The completions of two lists add up.
pub proof fn completions_add_up(a: Seq<EffectView>, b: Seq<EffectView>)
    ensures
        completions(a + b) == completions(a) + completions(b),
    decreases b.len(),
{
    if b.len() == 0 {
        assert(a + b =~= a);
    } else {
        completions_add_up(a, b.drop_last());
        assert((a + b).drop_last() =~= a + b.drop_last());
        assert((a + b).last() == b.last());
    }
}

/// Whether an event neither completes the turn nor changes the status.
pub open spec fn passing(e: EventView) -> bool {
    !(e is TurnComplete) && !(e is StatusChanged)
}

/// Whether none of the events completes the turn or changes the status.
pub open spec fn quiet(events: Seq<EventView>) -> bool {
    forall|i: int| 0 <= i < events.len() ==> passing(#[trigger] events[i])
}

/// Whether none of the effects completes the turn or changes the status.
pub open spec fn plain(effects: Seq<EffectView>) -> bool {
    forall|i: int|
        0 <= i < effects.len() ==> (#[trigger] effects[i] matches EffectView::Emit(e) ==> passing(
            e,
        ))
}

/// Two plain lists make a plain list.
pub proof fn plain_adds_up(a: Seq<EffectView>, b: Seq<EffectView>)
    requires
        plain(a),
        plain(b),
    ensures
        plain(a + b),
{
    assert forall|i: int| 0 <= i < (a + b).len() implies (#[trigger] (
    a + b)[i] matches EffectView::Emit(e) ==> passing(e)) by {
        if i < a.len() {
            assert((a + b)[i] == a[i]);
        } else {
            assert((a + b)[i] == b[i - a.len()]);
        }
    }
}

/// Plain effects complete no turn.
pub proof fn plain_completes_nothing(effects: Seq<EffectView>)
    requires
        plain(effects),
    ensures
        completions(effects) == 0,
    decreases effects.len(),
{
    if effects.len() > 0 {
        let front = effects.drop_last();
        assert forall|i: int| 0 <= i < front.len() implies (
        #[trigger] front[i] matches EffectView::Emit(e) ==> passing(e)) by {
            assert(front[i] == effects[i]);
        }
        plain_completes_nothing(front);
        assert(effects.last() == effects[effects.len() - 1]);
    }
}

/// Recording events completes no turn and changes no status, unless an event does.
pub proof fn recording_is_quiet(r: RecordView, events: Seq<EventView>)
    requires
        quiet(events),
    ensures
        plain(all_recorded(r, events).1),
    decreases events.len(),
{
    if events.len() > 0 {
        let front = all_recorded(r, events.drop_last());
        let last = recorded(front.0, events.last());
        assert forall|i: int| 0 <= i < events.drop_last().len() implies passing(
            #[trigger] events.drop_last()[i],
        ) by {
            assert(events.drop_last()[i] == events[i]);
        }
        recording_is_quiet(r, events.drop_last());
        assert(passing(events[events.len() - 1]));
        plain_adds_up(front.1, last.1);
    }
}

/// The events that effects send to the viewers, in order.
pub open spec fn emitted(effects: Seq<EffectView>) -> Seq<EventView>
    decreases effects.len(),
{
    if effects.len() == 0 {
        Seq::empty()
    } else {
        match effects.last() {
            EffectView::Emit(e) => emitted(effects.drop_last()).push(e),
            _ => emitted(effects.drop_last()),
        }
    }
}

/// The events of two lists follow one another.
pub proof fn emitted_adds_up(a: Seq<EffectView>, b: Seq<EffectView>)
    ensures
        emitted(a + b) == emitted(a) + emitted(b),
    decreases b.len(),
{
    if b.len() == 0 {
        assert(a + b =~= a);
        assert(emitted(a) + emitted(b) =~= emitted(a));
    } else {
        emitted_adds_up(a, b.drop_last());
        assert((a + b).drop_last() =~= a + b.drop_last());
        assert((a + b).last() == b.last());
        assert(emitted(a + b) =~= emitted(a) + emitted(b));
    }
}

/// Plain effects send only passing events.
pub proof fn plain_emits_quietly(effects: Seq<EffectView>)
    requires
        plain(effects),
    ensures
        quiet(emitted(effects)),
    decreases effects.len(),
{
    if effects.len() > 0 {
        let front = effects.drop_last();
        assert forall|i: int| 0 <= i < front.len() implies (
        #[trigger] front[i] matches EffectView::Emit(e) ==> passing(e)) by {
            assert(front[i] == effects[i]);
        }
        plain_emits_quietly(front);
        assert(effects.last() == effects[effects.len() - 1]);
        let all = emitted(effects);
        assert forall|i: int| 0 <= i < all.len() implies passing(#[trigger] all[i]) by {
            if i < emitted(front).len() {
                assert(all[i] == emitted(front)[i]);
            }
        }
    }
}

/// Whether effects begin a turn: the first event is the status `Prompting`, and what
/// follows it neither completes the turn nor changes the status.
pub open spec fn begins(effects: Seq<EffectView>) -> bool {
    &&& effects.len() > 0
    &&& effects[0] == EffectView::Emit(
        EventView::StatusChanged { status: ConnectionStatus::Prompting },
    )
    &&& plain(effects.drop_first())
}

/// Whether the events of a turn are in order: `Prompting` comes first; the turn is
/// completed exactly once, behind its error if it has one; the status changes only
/// once more, and back to `Connected`, if and only if the connection stays; and that
/// is the last event.
pub open spec fn in_order(events: Seq<EventView>, finish: FinishView, disconnect: bool) -> bool {
    let n = events.len() as int;
    let done = if disconnect {
        n - 1
    } else {
        n - 2
    };
    &&& done > 0
    &&& events[0] == (EventView::StatusChanged { status: ConnectionStatus::Prompting })
    &&& events[done] matches EventView::TurnComplete { stop_reason, .. } && stop_reason
        == finish.stop_reason
    &&& forall|i: int| 0 <= i < n && i != done ==> !(#[trigger] events[i] is TurnComplete)
    &&& finish.error matches Some(error) ==> done > 1 && (
    events[done - 1] matches EventView::Error { message, code, details, .. } && message
        == error.message && code == Some(error.code) && details == error.details)
    &&& !disconnect ==> events[n - 1] == (EventView::StatusChanged {
        status: ConnectionStatus::Connected,
    })
    &&& forall|i: int|
        0 < i < n && (#[trigger] events[i] is StatusChanged) ==> !disconnect && i == n - 1
}

/// The events of the last effects of a turn.
proof fn ending_emits(
    finish: FinishView,
    session: Option<Seq<char>>,
    external: Option<Seq<char>>,
    agent_type: Seq<char>,
    duration_ms: u64,
    model: Option<Seq<char>>,
    disconnect: bool,
)
    ensures
        ({
            let e = emitted(
                ending(finish, session, external, agent_type, duration_ms, model, disconnect),
            );
            let errors: int = if finish.error is Some {
                1
            } else {
                0
            };
            &&& e.len() == errors + if disconnect {
                1int
            } else {
                2int
            }
            &&& finish.error matches Some(error) ==> (e[0] matches EventView::Error {
                message,
                code,
                details,
                ..
            } && message == error.message && code == Some(error.code) && details == error.details)
            &&& e[errors] matches EventView::TurnComplete { stop_reason, .. } && stop_reason
                == finish.stop_reason
            &&& !disconnect ==> e[errors + 1] == (EventView::StatusChanged {
                status: ConnectionStatus::Connected,
            })
        }),
{
    reveal_with_fuel(emitted, 3);
    let a = error_effects(finish.error, session, agent_type);
    let b = end_record(finish, session, duration_ms, model);
    emitted_adds_up(a, b);
    if a.len() == 2 {
        assert(a.drop_last() =~= seq![a[0]]);
        assert(seq![a[0]].drop_last() =~= Seq::empty());
    } else if a.len() == 1 {
        assert(a.drop_last() =~= Seq::empty());
    }
    if b.len() == 1 {
        assert(b.drop_last() =~= Seq::empty());
    }
    let e = ending(finish, session, external, agent_type, duration_ms, model, true);
    let f = ending(finish, session, external, agent_type, duration_ms, model, false);
    assert(e.drop_last() =~= a + b);
    assert(f.drop_last() =~= e);
}

/// The events of a turn are in order: whatever plain effects stand between those that
/// begin it and those that end it, `Prompting` comes first, the error before the one
/// completion, and `Connected` last, if and only if the connection stays.
pub proof fn turn_is_in_order(
    first: Seq<EffectView>,
    middle: Seq<EffectView>,
    finish: FinishView,
    session: Option<Seq<char>>,
    external: Option<Seq<char>>,
    agent_type: Seq<char>,
    duration_ms: u64,
    model: Option<Seq<char>>,
    disconnect: bool,
)
    requires
        begins(first),
        plain(middle),
    ensures
        in_order(
            emitted(
                first + middle + ending(
                    finish,
                    session,
                    external,
                    agent_type,
                    duration_ms,
                    model,
                    disconnect,
                ),
            ),
            finish,
            disconnect,
        ),
{
    let last = ending(finish, session, external, agent_type, duration_ms, model, disconnect);
    let rest = first.drop_first() + middle;
    assert(first + middle =~= seq![first[0]] + rest);
    plain_adds_up(first.drop_first(), middle);
    plain_emits_quietly(rest);
    emitted_adds_up(seq![first[0]], rest);
    emitted_adds_up(first + middle, last);
    assert(emitted(seq![first[0]]) =~= seq![first[0]->Emit_0]) by {
        reveal_with_fuel(emitted, 2);
        assert(seq![first[0]].drop_last() =~= Seq::empty());
    }
    ending_emits(finish, session, external, agent_type, duration_ms, model, disconnect);
    let quiet_part = emitted(rest);
    let end_part = emitted(last);
    let all = emitted(first + middle + last);
    assert(all == seq![first[0]->Emit_0] + quiet_part + end_part);
    assert forall|i: int| 0 < i <= quiet_part.len() implies passing(#[trigger] all[i]) by {
        assert(all[i] == quiet_part[i - 1]);
    }
    assert forall|i: int| quiet_part.len() < i < all.len() implies #[trigger] all[i]
        == end_part[i - 1 - quiet_part.len()] by {}
}

/// Recording events sends nothing to the process, and names no other session unless
/// an event does.
pub proof fn recording_sends_nothing(r: RecordView, events: Seq<EventView>)
    ensures
        forall|i: int|
            0 <= i < all_recorded(r, events).1.len() ==> !(#[trigger] all_recorded(r, events).1[i]
                is Send),
        (forall|i: int| 0 <= i < events.len() ==> !(#[trigger] events[i] is SessionStarted))
            ==> all_recorded(r, events).0 == r,
    decreases events.len(),
{
    if events.len() > 0 {
        let front = all_recorded(r, events.drop_last());
        let last = recorded(front.0, events.last());
        recording_sends_nothing(r, events.drop_last());
        assert forall|i: int| 0 <= i < (front.1 + last.1).len() implies !(#[trigger] (front.1
            + last.1)[i] is Send) by {
            if i < front.1.len() {
                assert((front.1 + last.1)[i] == front.1[i]);
            } else {
                assert((front.1 + last.1)[i] == last.1[i - front.1.len()]);
            }
        }
        if forall|i: int| 0 <= i < events.len() ==> !(#[trigger] events[i] is SessionStarted) {
            assert forall|i: int| 0 <= i < events.drop_last().len() implies !(
            #[trigger] events.drop_last()[i] is SessionStarted) by {
                assert(events.drop_last()[i] == events[i]);
            }
            assert(events.last() == events[events.len() - 1]);
        }
    }
}

/// The prompt of a session is on disk before the session is announced, and it is
/// written once.
pub proof fn start_is_recorded_before_it_is_announced(r: RecordView, session_id: Seq<char>)
    ensures
        !r.prompt_recorded ==> recorded(r, EventView::SessionStarted { session_id }).1 == seq![
            EffectView::RecordStart { session_id },
            EffectView::Emit(EventView::SessionStarted { session_id }),
        ],
        r.prompt_recorded ==> recorded(r, EventView::SessionStarted { session_id }).1 == seq![
            EffectView::Emit(EventView::SessionStarted { session_id }),
        ],
        recorded(r, EventView::SessionStarted { session_id }).0.prompt_recorded,
{
}

/// The first effects of a turn begin it, and complete nothing.
pub proof fn beginning_is_quiet(user_message: Option<(Seq<char>, JsonView)>, session: Option<Seq<char>>)
    ensures
        begins(opening(user_message)),
        begins(beginning(user_message, session)),
        completions(beginning(user_message, session)) == 0,
{
    let b = beginning(user_message, session);
    assert(b =~= seq![b[0]] + b.drop_first());
    plain_completes_nothing(b.drop_first());
    completions_add_up(seq![b[0]], b.drop_first());
    reveal_with_fuel(completions, 2);
    assert(seq![b[0]].drop_last() =~= Seq::empty());
}

/// The end of a turn completes it exactly once.
pub proof fn ending_completes_once(
    finish: FinishView,
    session: Option<Seq<char>>,
    external: Option<Seq<char>>,
    agent_type: Seq<char>,
    duration_ms: u64,
    model: Option<Seq<char>>,
    disconnect: bool,
)
    ensures
        completions(
            ending(finish, session, external, agent_type, duration_ms, model, disconnect),
        ) == 1,
{
    reveal_with_fuel(completions, 3);
    let a = error_effects(finish.error, session, agent_type);
    let b = end_record(finish, session, duration_ms, model);
    completions_add_up(a, b);
    if a.len() == 2 {
        assert(a.drop_last() =~= seq![a[0]]);
        assert(seq![a[0]].drop_last() =~= Seq::empty());
    } else if a.len() == 1 {
        assert(a.drop_last() =~= Seq::empty());
    }
    if b.len() == 1 {
        assert(b.drop_last() =~= Seq::empty());
    }
    let e = ending(finish, session, external, agent_type, duration_ms, model, true);
    let f = ending(finish, session, external, agent_type, duration_ms, model, false);
    assert(e.drop_last() =~= a + b);
    assert(f.drop_last() =~= e);
}

/// The end of the error output of a process, line by line.
#[derive(Debug)]
pub struct OutputTail {
    lines: Vec<String>,
    bytes: usize,
}

/// The bytes of the lines, with a line feed behind each.
pub open spec fn total(lines: Seq<Seq<char>>) -> nat
    decreases lines.len(),
{
    if lines.len() == 0 {
        0
    } else {
        total(lines.drop_last()) + text::bytes(lines.last()) + 1
    }
}

/// The bytes of the lines, counted from the front.
proof fn total_from_front(lines: Seq<Seq<char>>)
    requires
        lines.len() > 0,
    ensures
        total(lines) == text::bytes(lines[0]) + 1 + total(lines.drop_first()),
    decreases lines.len(),
{
    if lines.len() == 1 {
        assert(lines.drop_last() =~= Seq::empty());
        assert(lines.drop_first() =~= Seq::empty());
    } else {
        total_from_front(lines.drop_last());
        assert(lines.drop_last().drop_first() =~= lines.drop_first().drop_last());
    }
}

/// The last lines that fit.
pub open spec fn last_fitting(lines: Seq<Seq<char>>) -> Seq<Seq<char>>
    decreases lines.len(),
{
    if lines.len() > 0 && total(lines) > STDERR_TAIL_BYTES {
        last_fitting(lines.drop_first())
    } else {
        lines
    }
}

/// What is kept fits and is the end of what came.
pub proof fn tail_fits(lines: Seq<Seq<char>>)
    ensures
        total(last_fitting(lines)) <= STDERR_TAIL_BYTES,
        last_fitting(lines).is_suffix_of(lines),
    decreases lines.len(),
{
    if lines.len() > 0 && total(lines) > STDERR_TAIL_BYTES {
        tail_fits(lines.drop_first());
        let kept = last_fitting(lines);
        assert(lines.skip(lines.len() - kept.len()) =~= lines.drop_first().skip(
            lines.drop_first().len() - kept.len(),
        ));
    } else {
        assert(lines.skip(0) =~= lines);
    }
}

impl View for OutputTail {
    type V = Seq<Seq<char>>;

    closed spec fn view(&self) -> Seq<Seq<char>> {
        self.lines.deep_view()
    }
}

impl OutputTail {
    /// The count of the bytes is right, and they fit.
    pub closed spec fn well_formed(&self) -> bool {
        self.bytes == total(self@) && self.bytes <= STDERR_TAIL_BYTES
    }

    /// The empty tail.
    pub fn new() -> (r: OutputTail)
        ensures
            r.well_formed(),
            r@ == Seq::<Seq<char>>::empty(),
    {
        let r = OutputTail { lines: Vec::new(), bytes: 0 };
        assert(r@ =~= Seq::empty());
        r
    }

    /// Adds a line and drops the oldest ones that no longer fit.
    pub fn push(&mut self, line: String)
        requires
            old(self).well_formed(),
        ensures
            final(self).well_formed(),
            final(self)@ == last_fitting(old(self)@.push(line@)),
    {
        let ghost all = self@.push(line@);
        let mut bytes: u128 = self.bytes as u128 + text::byte_len(line.as_str()) as u128 + 1;
        text::push(&mut self.lines, line);
        assert(all.drop_last() =~= old(self)@);
        while bytes > STDERR_TAIL_BYTES as u128 && self.lines.len() > 0
            invariant
                bytes == total(self.lines.deep_view()),
                last_fitting(all) == last_fitting(self.lines.deep_view()),
            decreases self.lines.len(),
        {
            let ghost before = self.lines.deep_view();
            proof {
                total_from_front(before);
            }
            let old = self.lines.remove(0);
            assert(old@ == before[0]);
            assert(self.lines.deep_view() =~= before.drop_first());
            bytes = bytes - text::byte_len(old.as_str()) as u128 - 1;
        }
        proof {
            tail_fits(all);
        }
        self.bytes = bytes as usize;
    }

    /// The lines as one text.
    pub fn text(&self) -> (r: String)
        ensures
            r@ == text::join(self@, "\n"@),
    {
        text::joined(&self.lines, "\n")
    }
}

} // verus!
