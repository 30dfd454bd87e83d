//! The turns of Codex: one app server process per prompt, driven over JSON-RPC.
//!
//! `initialize`, then a thread is started or resumed, then the turn is started,
//! and its notifications are followed until it completes. The id of the thread
//! is the id of the session.
use vstd::prelude::*;
use crate::cli::attachments;
use crate::cli::attachments::{Apart, ApartView, AttachmentWrite, Piece, PieceView};
use crate::cli::codex_stream;
use crate::cli::codex_stream::{CodexStreamMapper, CodexView};
use crate::cli::dsh_profile::COMPANION_SERVER_NAME;
use crate::cli::dsh_prompt::MAX_PROMPT_BYTES;
use crate::cli::outcome::{CliTurnError, ErrorView, FinishView, LineOutcome, OutcomeView};
use crate::cli::prompt::{CompanionLaunchSpec, PromptInputBlock};
use crate::cli::tool_info;
use crate::cli::turn;
use crate::cli::turn::PROTOCOL_SAMPLE_BYTES;
use crate::cli::turn::{EffectView, EndView, InputView, RecordView, TurnEffect, TurnEnd};
use crate::cli::turn::{TurnInput, TurnRecord};
use crate::events::{AcpEvent, EventView};
use crate::json;
use crate::json::{Json, JsonNumber, JsonView, NumberView};
use crate::text;

verus! {

/// The seconds within which the turn must have started.
pub const HANDSHAKE_TIMEOUT_SECS: u64 = 60;

/// The seconds that an interrupted turn gets to end by itself.
pub const INTERRUPT_GRACE_SECS: u64 = 5;

/// The ids of the requests.
pub const ID_INITIALIZE: u64 = 1;

pub const ID_THREAD: u64 = 2;

pub const ID_TURN: u64 = 3;

pub const ID_INTERRUPT: u64 = 4;

/// The container is the sandbox: no approvals and no sandbox inside it.
pub const APPROVAL_POLICY: &'static str = "never";

pub const SANDBOX_MODE: &'static str = "danger-full-access";

/// Where the exchange stands.
#[derive(Clone, Copy, Debug, PartialEq, Eq, Structural)]
pub enum Phase {
    Initializing,
    OpeningThread,
    StartingTurn,
    Streaming,
    Interrupting,
}

/// Which deadline the exchange is under.
#[derive(Clone, Copy, Debug, PartialEq, Eq, Structural)]
pub enum Deadline {
    /// None: a silent model or a long command is legitimate.
    Open,
    Handshake,
    Interrupt,
}

/// Who presents itself to the app server.
#[derive(Debug)]
pub struct ClientInfo {
    pub name: String,
    pub title: String,
    pub version: String,
}

/// A message of the app server.
#[derive(Debug)]
pub enum Message {
    /// A response to one of our requests.
    Response(u64),
    /// A request of the server, with its id.
    ServerRequest(Json),
    Notification,
    Other,
}

/// The content of a `Message`.
#[verifier::ext_equal]
pub enum MessageView {
    Response(u64),
    ServerRequest(JsonView),
    Notification,
    Other,
}

impl View for Message {
    type V = MessageView;

    open spec fn view(&self) -> MessageView {
        match *self {
            Message::Response(id) => MessageView::Response(id),
            Message::ServerRequest(id) => MessageView::ServerRequest(id@),
            Message::Notification => MessageView::Notification,
            Message::Other => MessageView::Other,
        }
    }
}

/// What kind of message a value is.
pub open spec fn classified(msg: JsonView) -> MessageView {
    match (msg.get("id"@), msg.get("method"@)) {
        (Some(id), Some(_)) => MessageView::ServerRequest(id),
        (Some(id), None) => match id.as_u64() {
            Some(n) => MessageView::Response(n),
            None => MessageView::Other,
        },
        (None, Some(_)) => MessageView::Notification,
        (None, None) => MessageView::Other,
    }
}

/// What kind of message a value is.
pub fn classify(msg: &Json) -> (r: Message)
    ensures
        r@ == classified(msg@),
{
    match (msg.get("id"), msg.get("method")) {
        (Some(id), Some(_)) => Message::ServerRequest(id.copy()),
        (Some(id), None) => match id.as_u64() {
            Some(n) => Message::Response(n),
            None => Message::Other,
        },
        (None, Some(_)) => Message::Notification,
        (None, None) => Message::Other,
    }
}

/// A JSON-RPC request.
pub open spec fn request(id: u64, method: Seq<char>, params: JsonView) -> JsonView {
    JsonView::empty_object().with("id"@, JsonView::of_u64(id)).with(
        "method"@,
        JsonView::Str(method),
    ).with("params"@, params)
}

/// The first request.
pub open spec fn initialize(client: ClientInfo) -> JsonView {
    request(
        ID_INITIALIZE,
        "initialize"@,
        JsonView::empty_object().with(
            "clientInfo"@,
            JsonView::empty_object().with("name"@, JsonView::Str(client.name@)).with(
                "title"@,
                JsonView::Str(client.title@),
            ).with("version"@, JsonView::Str(client.version@)),
        ).with("capabilities"@, JsonView::Null),
    )
}

/// The model to ask for, unless it is blank.
pub open spec fn model_value(model: Option<Seq<char>>) -> Option<JsonView> {
    match model {
        Some(m) => if text::trim(m).len() > 0 {
            Some(JsonView::Str(m))
        } else {
            None
        },
        None => None,
    }
}

/// The method that opens the thread: a known session is resumed.
pub open spec fn open_method(session_id: Option<Seq<char>>) -> Seq<char> {
    match session_id {
        Some(_) => "thread/resume"@,
        None => "thread/start"@,
    }
}

/// The parameters of the request that opens the thread.
pub open spec fn open_params(session_id: Option<Seq<char>>, cwd: Seq<char>, model: Option<Seq<char>>) -> JsonView {
    let params = JsonView::empty_object().with("cwd"@, JsonView::Str(cwd)).with(
        "approvalPolicy"@,
        JsonView::Str(APPROVAL_POLICY@),
    ).with("sandbox"@, JsonView::Str(SANDBOX_MODE@)).with_some("model"@, model_value(model));
    match session_id {
        Some(id) => params.with("threadId"@, JsonView::Str(id)),
        None => params,
    }
}

/// The request that opens the thread.
pub open spec fn open_thread(session_id: Option<Seq<char>>, cwd: Seq<char>, model: Option<Seq<char>>) -> JsonView {
    request(ID_THREAD, open_method(session_id), open_params(session_id, cwd, model))
}

/// The request that starts the turn.
pub open spec fn start_turn(thread_id: Seq<char>, input: JsonView, model: Option<Seq<char>>) -> JsonView {
    request(
        ID_TURN,
        "turn/start"@,
        JsonView::empty_object().with("threadId"@, JsonView::Str(thread_id)).with(
            "input"@,
            input,
        ).with_some("model"@, model_value(model)),
    )
}

/// The request that interrupts the turn.
pub open spec fn interrupt(thread_id: Seq<char>, turn_id: Seq<char>) -> JsonView {
    request(
        ID_INTERRUPT,
        "turn/interrupt"@,
        JsonView::empty_object().with("threadId"@, JsonView::Str(thread_id)).with(
            "turnId"@,
            JsonView::Str(turn_id),
        ),
    )
}

/// The JSON-RPC code for a method that is not there.
pub open spec fn method_not_found() -> JsonView {
    JsonView::Number(
        NumberView { unsigned: None, signed: Some(-32601i64), text: "-32601"@ },
    )
}

/// The refusal of a request of the server.
pub open spec fn refusal(id: JsonView) -> JsonView {
    JsonView::empty_object().with("id"@, id).with(
        "error"@,
        JsonView::empty_object().with("code"@, method_not_found()).with(
            "message"@,
            JsonView::Str("not supported by codeg: this session runs without approvals"@),
        ),
    )
}

/// The note that the exchange is initialized.
pub open spec fn initialized() -> JsonView {
    JsonView::empty_object().with("method"@, JsonView::Str("initialized"@))
}

/// A JSON-RPC request.
fn request_value(id: u64, method: &str, params: Json) -> (r: Json)
    ensures
        r@ == request(id, method@, params@),
{
    Json::empty_object().with("id", Json::of_u64(id)).with("method", Json::of_str(method)).with(
        "params",
        params,
    )
}

/// The first request.
pub fn initialize_request(client: &ClientInfo) -> (r: Json)
    ensures
        r@ == initialize(*client),
{
    request_value(
        ID_INITIALIZE,
        "initialize",
        Json::empty_object().with(
            "clientInfo",
            Json::empty_object().with("name", Json::of_str(client.name.as_str())).with(
                "title",
                Json::of_str(client.title.as_str()),
            ).with("version", Json::of_str(client.version.as_str())),
        ).with("capabilities", Json::Null),
    )
}

/// The model to ask for, unless it is blank.
fn model_json(model: Option<&str>) -> (r: Option<Json>)
    ensures
        r.deep_view() == model_value(model.deep_view()),
{
    match model {
        Some(m) => if text::trimmed(m).as_str().is_empty() {
            None
        } else {
            Some(Json::of_str(m))
        },
        None => None,
    }
}

/// The request that opens the thread.
pub fn thread_request(session_id: Option<&str>, cwd: &str, model: Option<&str>) -> (r: Json)
    ensures
        r@ == open_thread(session_id.deep_view(), cwd@, model.deep_view()),
{
    let params = Json::empty_object().with("cwd", Json::of_str(cwd)).with(
        "approvalPolicy",
        Json::of_str(APPROVAL_POLICY),
    ).with("sandbox", Json::of_str(SANDBOX_MODE)).with_some("model", model_json(model));
    match session_id {
        Some(id) => request_value(
            ID_THREAD,
            "thread/resume",
            params.with("threadId", Json::of_str(id)),
        ),
        None => request_value(ID_THREAD, "thread/start", params),
    }
}

/// The request that starts the turn.
pub fn turn_request(thread_id: &str, input: Json, model: Option<&str>) -> (r: Json)
    ensures
        r@ == start_turn(thread_id@, input@, model.deep_view()),
{
    request_value(
        ID_TURN,
        "turn/start",
        Json::empty_object().with("threadId", Json::of_str(thread_id)).with(
            "input",
            input,
        ).with_some("model", model_json(model)),
    )
}

/// The request that interrupts the turn.
pub fn interrupt_request(thread_id: &str, turn_id: &str) -> (r: Json)
    ensures
        r@ == interrupt(thread_id@, turn_id@),
{
    request_value(
        ID_INTERRUPT,
        "turn/interrupt",
        Json::empty_object().with("threadId", Json::of_str(thread_id)).with(
            "turnId",
            Json::of_str(turn_id),
        ),
    )
}

/// The refusal of a request of the server.
pub fn refuse_request(id: Json) -> (r: Json)
    ensures
        r@ == refusal(id@),
{
    let code = Json::Number(
        JsonNumber { unsigned: None, signed: Some(-32601), text: "-32601".to_owned() },
    );
    Json::empty_object().with("id", id).with(
        "error",
        Json::empty_object().with("code", code).with(
            "message",
            Json::of_str("not supported by codeg: this session runs without approvals"),
        ),
    )
}

/// The error for a process that takes no more input.
pub open spec fn not_written(error: Seq<char>) -> ErrorView {
    ErrorView {
        code: "cli_exited"@,
        message: "Codex stopped reading its input: "@ + error,
        details: None,
    }
}

/// The error for a process that takes no more input.
pub fn write_failed(error: &str) -> (r: CliTurnError)
    ensures
        r@ == not_written(error@),
{
    CliTurnError {
        code: "cli_exited",
        message: text::cat2("Codex stopped reading its input: ", error),
        details: None,
    }
}

/// The error for a request that the server refused.
pub open spec fn refused(id: u64, error: JsonView) -> ErrorView {
    let message = tool_info::or(error.filled("message"@), "Codex rejected the request"@);
    let l = text::lower(message);
    ErrorView {
        code: if id == ID_THREAD && (text::contains(l, "not found"@) || text::contains(
            l,
            "no rollout"@,
        )) {
            "cli_resume_failed"@
        } else if id == ID_INITIALIZE {
            "cli_protocol"@
        } else {
            "cli_execution_error"@
        },
        message,
        details: Some(text::shortened(json::written(error), PROTOCOL_SAMPLE_BYTES as nat)),
    }
}

/// The error for a request that the server refused.
pub fn request_failed(id: u64, error: &Json) -> (r: CliTurnError)
    ensures
        r@ == refused(id, error@),
{
    let message = tool_info::text_or(error.filled("message"), "Codex rejected the request");
    let lower = text::to_lower(message.as_str());
    let code = if id == ID_THREAD && (text::has(lower.as_str(), "not found") || text::has(
        lower.as_str(),
        "no rollout",
    )) {
        "cli_resume_failed"
    } else if id == ID_INITIALIZE {
        "cli_protocol"
    } else {
        "cli_execution_error"
    };
    CliTurnError {
        code,
        message,
        details: Some(text::truncate(error.write().as_str(), PROTOCOL_SAMPLE_BYTES)),
    }
}

/// The arguments of the process.
pub open spec fn server_args(companion: Option<CompanionLaunchSpec>) -> Seq<Seq<char>> {
    match companion {
        None => seq!["app-server"@],
        Some(c) => seq![
            "app-server"@,
            "-c"@,
            "mcp_servers."@ + COMPANION_SERVER_NAME@ + ".command="@ + json::written(
                JsonView::Str(c.command@),
            ),
            "-c"@,
            "mcp_servers."@ + COMPANION_SERVER_NAME@ + ".args="@ + json::written(
                JsonView::strings(c.args.deep_view()),
            ),
        ],
    }
}

/// The arguments of the process, with the companion as a server.
pub fn app_server_args(companion: Option<&CompanionLaunchSpec>) -> (r: Vec<String>)
    ensures
        companion is None ==> r.deep_view() == server_args(None),
        companion is Some ==> r.deep_view() == server_args(Some(*companion->0)),
{
    let mut out: Vec<String> = Vec::new();
    out.push("app-server".to_owned());
    if let Some(c) = companion {
        let command = Json::of_str(c.command.as_str()).write();
        let list = Json::strings(&c.args).write();
        out.push("-c".to_owned());
        out.push(
            text::cat4("mcp_servers.", COMPANION_SERVER_NAME, ".command=", command.as_str()),
        );
        out.push("-c".to_owned());
        out.push(text::cat4("mcp_servers.", COMPANION_SERVER_NAME, ".args=", list.as_str()));
        assert(out.deep_view() =~= server_args(Some(*c)));
    } else {
        assert(out.deep_view() =~= server_args(None));
    }
    out
}

/// A piece of a prompt as the server takes it.
pub open spec fn input_item(p: PieceView) -> JsonView {
    match p {
        PieceView::Text(s) => JsonView::empty_object().with("type"@, JsonView::Str("text"@)).with(
            "text"@,
            JsonView::Str(s),
        ).with("text_elements"@, JsonView::Array(Seq::empty())),
        PieceView::File(path) => JsonView::empty_object().with(
            "type"@,
            JsonView::Str("localImage"@),
        ).with("path"@, JsonView::Str(path)),
    }
}

/// The bytes of the texts of a prompt.
pub open spec fn text_bytes(pieces: Seq<PieceView>) -> nat
    decreases pieces.len(),
{
    if pieces.len() == 0 {
        0
    } else {
        text_bytes(pieces.drop_last()) + match pieces.last() {
            PieceView::Text(s) => text::bytes(s),
            PieceView::File(_) => 0,
        }
    }
}

/// The input of a turn, or the error that refuses it.
pub open spec fn input(a: ApartView) -> Result<JsonView, ErrorView> {
    if a.error is Some {
        Err(a.error->0)
    } else if a.pieces.len() == 0 {
        Err(attachments::invalid("the prompt has no content"@))
    } else if text_bytes(a.pieces) > MAX_PROMPT_BYTES {
        Err(
            ErrorView {
                code: "prompt_too_large"@,
                message: "the prompt is "@ + text::dec(text_bytes(a.pieces))
                    + " bytes; Codex takes at most "@ + text::dec(MAX_PROMPT_BYTES as nat),
                details: None,
            },
        )
    } else {
        Ok(JsonView::Array(a.pieces.map_values(|p: PieceView| input_item(p))))
    }
}

/// A piece of a prompt as the server takes it.
fn input_json(p: &Piece) -> (r: Json)
    ensures
        r@ == input_item(p@),
{
    match p {
        Piece::Text(s) => {
            let none: Vec<Json> = Vec::new();
            assert(none.deep_view() =~= Seq::empty());
            Json::empty_object().with("type", Json::of_str("text")).with(
                "text",
                Json::of_str(s.as_str()),
            ).with("text_elements", Json::of_vec(none))
        },
        Piece::File(path) => Json::empty_object().with("type", Json::of_str("localImage")).with(
            "path",
            Json::of_str(path.as_str()),
        ),
    }
}

/// The input of a turn from a prompt that was taken apart.
fn finish_input(a: Apart) -> (r: (Vec<AttachmentWrite>, Result<Json, CliTurnError>))
    ensures
        r.0.deep_view() == a@.writes,
        match r.1 {
            Ok(v) => input(a@) == Ok::<JsonView, ErrorView>(v@),
            Err(e) => input(a@) == Err::<JsonView, ErrorView>(e@),
        },
{
    if let Some(e) = a.error {
        return (a.writes, Err(e));
    }
    if a.pieces.len() == 0 {
        return (
            a.writes,
            Err(
                CliTurnError {
                    code: "invalid_params",
                    message: "the prompt has no content".to_owned(),
                    details: None,
                },
            ),
        );
    }
    let mut items: Vec<Json> = Vec::new();
    let mut size: u128 = 0;
    let ghost pieces = a.pieces.deep_view();
    let ghost all = pieces.map_values(|p: PieceView| input_item(p));
    assert(pieces.take(0) =~= Seq::empty());
    for i in 0..a.pieces.len()
        invariant
            pieces == a.pieces.deep_view(),
            all == pieces.map_values(|p: PieceView| input_item(p)),
            items.deep_view() == all.take(i as int),
            size == text_bytes(pieces.take(i as int)),
            size <= i * usize::MAX,
    {
        assert(pieces.take(i + 1).drop_last() =~= pieces.take(i as int));
        assert(pieces.take(i + 1).last() == a.pieces@[i as int]@);
        let ghost before = items.deep_view();
        let more: usize = match &a.pieces[i] {
            Piece::Text(s) => text::byte_len(s.as_str()),
            Piece::File(_) => 0,
        };
        assert(i * usize::MAX + usize::MAX == (i + 1) * usize::MAX) by (nonlinear_arith);
        assert((i + 1) * usize::MAX <= usize::MAX * usize::MAX) by (nonlinear_arith)
            requires
                i + 1 <= usize::MAX,
        ;
        assert(usize::MAX * usize::MAX <= u128::MAX) by (nonlinear_arith)
            requires
                usize::MAX <= u64::MAX,
        ;
        size = size + more as u128;
        let item = input_json(&a.pieces[i]);
        assert(item@ == all[i as int]);
        items.push(item);
        assert(items.deep_view() =~= before.push(all[i as int]));
        assert(items.deep_view() =~= all.take(i + 1));
    }
    assert(pieces.take(pieces.len() as int) =~= pieces);
    assert(all.take(pieces.len() as int) =~= all);
    if size > MAX_PROMPT_BYTES as u128 {
        let message = text::cat4(
            "the prompt is ",
            text::dec_u128(size).as_str(),
            " bytes; Codex takes at most ",
            text::dec_u64(MAX_PROMPT_BYTES as u64).as_str(),
        );
        return (
            a.writes,
            Err(CliTurnError { code: "prompt_too_large", message, details: None }),
        );
    }
    (a.writes, Ok(Json::of_vec(items)))
}

/// The input of a turn, and the files to write before it is used. `existing` tells
/// for each block whether the upload that it names is a file. Empty and oversized
/// prompts are refused.
pub fn build_input(blocks: &Vec<PromptInputBlock>, working_dir: &str, existing: &Vec<bool>) -> (r: (
    Vec<AttachmentWrite>,
    Result<Json, CliTurnError>,
))
    ensures
        r.0.deep_view() == attachments::apart(blocks.deep_view(), working_dir@, existing@).writes,
        match r.1 {
            Ok(v) => input(attachments::apart(blocks.deep_view(), working_dir@, existing@)) == Ok::<
                JsonView,
                ErrorView,
            >(v@),
            Err(e) => input(attachments::apart(blocks.deep_view(), working_dir@, existing@))
                == Err::<JsonView, ErrorView>(e@),
        },
{
    finish_input(attachments::take_apart(blocks, working_dir, existing))
}

/// The exchange with one app server process.
pub struct CodexPump {
    phase: Phase,
    deadline: Deadline,
    thread_id: Option<String>,
    turn_id: Option<String>,
    input: Json,
    cwd: String,
    model: Option<String>,
    mapper: CodexStreamMapper,
    record: TurnRecord,
    unparsable: usize,
}

/// The state of the exchange.
#[verifier::ext_equal]
pub struct PumpView {
    pub phase: Phase,
    pub deadline: Deadline,
    pub thread_id: Option<Seq<char>>,
    pub turn_id: Option<Seq<char>>,
    pub input: JsonView,
    pub cwd: Seq<char>,
    pub model: Option<Seq<char>>,
    pub mapper: CodexView,
    pub record: RecordView,
    pub unparsable: nat,
}

impl View for CodexPump {
    type V = PumpView;

    closed spec fn view(&self) -> PumpView {
        PumpView {
            phase: self.phase,
            deadline: self.deadline,
            thread_id: self.thread_id.deep_view(),
            turn_id: self.turn_id.deep_view(),
            input: self.input@,
            cwd: self.cwd@,
            model: self.model.deep_view(),
            mapper: self.mapper@,
            record: self.record@,
            unparsable: self.unparsable as nat,
        }
    }
}

/// A message to the server.
pub open spec fn sent(payload: JsonView) -> EffectView {
    EffectView::Send { payload, interrupt: false }
}

/// State, effects and end after the thread was opened.
pub open spec fn on_thread(p: PumpView, result: JsonView) -> (
    PumpView,
    Seq<EffectView>,
    Option<EndView>,
) {
    match result.at("thread"@).filled("id"@) {
        None => (
            p,
            Seq::empty(),
            Some(
                EndView::Failed(
                    ErrorView {
                        code: "cli_protocol"@,
                        message: "Codex opened a thread without an id"@,
                        details: Some(
                            text::shortened(json::written(result), PROTOCOL_SAMPLE_BYTES as nat),
                        ),
                    },
                ),
            ),
        ),
        Some(id) => {
            let (r, announced) = if p.record.session_id != Some(id) {
                turn::recorded(p.record, EventView::SessionStarted { session_id: id })
            } else {
                (p.record, Seq::empty())
            };
            (
                PumpView { thread_id: Some(id), phase: Phase::StartingTurn, record: r, ..p },
                announced.push(sent(start_turn(id, p.input, p.model))),
                None,
            )
        },
    }
}

/// State, effects and end after a response.
pub open spec fn on_response(p: PumpView, id: u64, msg: JsonView) -> (
    PumpView,
    Seq<EffectView>,
    Option<EndView>,
) {
    let result = msg.at("result"@);
    if msg.get("error"@) is Some {
        if id == ID_INTERRUPT {
            (p, Seq::empty(), None)
        } else {
            (p, Seq::empty(), Some(EndView::Failed(refused(id, msg.get("error"@)->0))))
        }
    } else if id == ID_INITIALIZE && p.phase == Phase::Initializing {
        (
            PumpView { phase: Phase::OpeningThread, ..p },
            seq![
                sent(initialized()),
                sent(open_thread(p.record.session_id, p.cwd, p.model)),
            ],
            None,
        )
    } else if id == ID_THREAD && p.phase == Phase::OpeningThread {
        on_thread(p, result)
    } else if id == ID_TURN && p.phase == Phase::StartingTurn {
        let turn_id = result.at("turn"@).str_at("id"@);
        (
            PumpView {
                turn_id: match turn_id {
                    Some(t) => Some(t),
                    None => p.turn_id,
                },
                mapper: match turn_id {
                    Some(t) => CodexView { turn_id: Some(t), ..p.mapper },
                    None => p.mapper,
                },
                phase: Phase::Streaming,
                deadline: Deadline::Open,
                ..p
            },
            Seq::empty(),
            None,
        )
    } else {
        (p, Seq::empty(), None)
    }
}

/// State, effects and end after a notification.
pub open spec fn on_notification(p: PumpView, msg: JsonView) -> (
    PumpView,
    Seq<EffectView>,
    Option<EndView>,
) {
    let (m, outcome) = codex_stream::step(p.mapper, msg);
    match outcome {
        OutcomeView::Events(events) => {
            let (r, effects) = turn::all_recorded(p.record, events);
            (PumpView { mapper: m, record: r, ..p }, effects, None)
        },
        OutcomeView::Finished { events, finish } => {
            let (r, effects) = turn::all_recorded(p.record, events);
            (
                PumpView { mapper: m, record: r, ..p },
                effects,
                Some(EndView::Finished(finish)),
            )
        },
        OutcomeView::Unparsable => (PumpView { mapper: m, ..p }, Seq::empty(), None),
    }
}

/// State, effects and end after a message.
pub open spec fn on_message(p: PumpView, msg: JsonView) -> (
    PumpView,
    Seq<EffectView>,
    Option<EndView>,
) {
    let q = PumpView { unparsable: 0, ..p };
    match classified(msg) {
        MessageView::ServerRequest(id) => (q, seq![sent(refusal(id))], None),
        MessageView::Response(id) => on_response(q, id, msg),
        MessageView::Notification => on_notification(q, msg),
        MessageView::Other => (q, Seq::empty(), None),
    }
}

/// State, effects and end after a request to cancel. A running turn gets a real
/// interrupt, so that the thread stays fit for the next turn.
pub open spec fn on_cancel(p: PumpView) -> (PumpView, Seq<EffectView>, Option<EndView>) {
    match (p.thread_id, p.turn_id) {
        (Some(thread), Some(turn)) => (
            PumpView { phase: Phase::Interrupting, deadline: Deadline::Interrupt, ..p },
            seq![EffectView::Send { payload: interrupt(thread, turn), interrupt: true }],
            None,
        ),
        _ => (p, Seq::empty(), Some(EndView::Cancelled)),
    }
}

/// The end that a passed deadline brings.
pub open spec fn timed_out(phase: Phase) -> EndView {
    if phase == Phase::Interrupting {
        EndView::Cancelled
    } else {
        EndView::Failed(
            ErrorView {
                code: "cli_handshake_timeout"@,
                message: "Codex did not start the turn within "@ + text::dec(
                    HANDSHAKE_TIMEOUT_SECS as nat,
                ) + "s"@,
                details: None,
            },
        )
    }
}

/// State, effects and end after one input. While the turn is being interrupted,
/// commands wait.
pub open spec fn step(p: PumpView, input: InputView) -> (PumpView, Seq<EffectView>, Option<EndView>) {
    match input {
        InputView::Line(line) => if text::trim(line).len() == 0 {
            (p, Seq::empty(), None)
        } else {
            match json::parsed(line) {
                Some(msg) => on_message(p, msg),
                None => {
                    let n = turn::one_more(p.unparsable);
                    (PumpView { unparsable: n, ..p }, Seq::empty(), turn::given_up(n, line))
                },
            }
        },
        InputView::Closed => (p, Seq::empty(), Some(EndView::Eof)),
        InputView::Cancel => if p.phase == Phase::Interrupting {
            (p, Seq::empty(), None)
        } else {
            on_cancel(p)
        },
        InputView::Disconnect => if p.phase == Phase::Interrupting {
            (p, Seq::empty(), None)
        } else {
            (p, Seq::empty(), Some(EndView::Disconnected))
        },
        InputView::Other => (p, Seq::empty(), None),
        InputView::Timeout => (p, Seq::empty(), Some(timed_out(p.phase))),
        InputView::SendFailed { error, interrupt } => (
            p,
            Seq::empty(),
            Some(
                if interrupt {
                    EndView::Cancelled
                } else {
                    EndView::Failed(not_written(error))
                },
            ),
        ),
    }
}

/// The list of one message to the server.
fn send_one(payload: Json) -> (r: Vec<TurnEffect>)
    ensures
        r.deep_view() == seq![sent(payload@)],
{
    let mut out = turn::nothing();
    turn::add_to(&mut out, TurnEffect::Send { payload, interrupt: false });
    assert(out.deep_view() =~= seq![sent(payload@)]);
    out
}

impl CodexPump {
    /// The exchange with a process that was just started, and the request that
    /// opens it.
    pub fn new(
        client: &ClientInfo,
        record: TurnRecord,
        input: Json,
        working_dir: &str,
        model: Option<&str>,
        context_window: Option<u64>,
    ) -> (r: (CodexPump, Vec<TurnEffect>))
        ensures
            r.0@ == (PumpView {
                phase: Phase::Initializing,
                deadline: Deadline::Handshake,
                thread_id: None,
                turn_id: None,
                input: input@,
                cwd: working_dir@,
                model: model.deep_view(),
                mapper: CodexView {
                    cwd: Some(working_dir@),
                    context_window,
                    turn_id: None,
                    after_text: false,
                    streamed: Set::empty(),
                    open_tools: Seq::empty(),
                    usage: None,
                    last_error: None,
                },
                record: record@,
                unparsable: 0,
            }),
            r.1.deep_view() == seq![sent(initialize(*client))],
    {
        let mapper = CodexStreamMapper::new(Some(working_dir.to_owned()), context_window);
        (
            CodexPump {
                phase: Phase::Initializing,
                deadline: Deadline::Handshake,
                thread_id: None,
                turn_id: None,
                input,
                cwd: working_dir.to_owned(),
                model: text::owned(model),
                mapper,
                record,
                unparsable: 0,
            },
            send_one(initialize_request(client)),
        )
    }

    /// The deadline that the exchange is under.
    pub fn deadline(&self) -> (r: Deadline)
        ensures
            r == self@.deadline,
    {
        self.deadline
    }

    /// Whether commands are taken now.
    pub fn takes_commands(&self) -> (r: bool)
        ensures
            r == (self@.phase != Phase::Interrupting),
    {
        self.phase != Phase::Interrupting
    }

    /// The session that the turn records to, once it is known.
    pub fn session_id(&self) -> (r: Option<&str>)
        ensures
            r.deep_view() == self@.record.session_id,
    {
        text::borrowed(&self.record.session_id)
    }

    /// Takes one input; tells what to do and whether the exchange has ended.
    pub fn on_input(&mut self, input: TurnInput) -> (r: (Vec<TurnEffect>, Option<TurnEnd>))
        ensures
            (final(self)@, r.0.deep_view(), r.1.deep_view()) == step(old(self)@, input@),
    {
        match input {
            TurnInput::Line(line) => {
                if text::trimmed(line.as_str()).as_str().is_empty() {
                    return (turn::nothing(), None);
                }
                match json::read_text(line.as_str()) {
                    Some(msg) => self.on_message(&msg),
                    None => {
                        let end = turn::count_unparsable(&mut self.unparsable, line.as_str());
                        (turn::nothing(), end)
                    },
                }
            },
            TurnInput::Closed => (turn::nothing(), Some(TurnEnd::Eof)),
            TurnInput::Cancel => {
                if self.phase == Phase::Interrupting {
                    return (turn::nothing(), None);
                }
                self.on_cancel()
            },
            TurnInput::Disconnect => {
                if self.phase == Phase::Interrupting {
                    return (turn::nothing(), None);
                }
                (turn::nothing(), Some(TurnEnd::Disconnected))
            },
            TurnInput::Other => (turn::nothing(), None),
            TurnInput::Timeout => {
                if self.phase == Phase::Interrupting {
                    return (turn::nothing(), Some(TurnEnd::Cancelled));
                }
                let message = text::cat3(
                    "Codex did not start the turn within ",
                    text::dec_u64(HANDSHAKE_TIMEOUT_SECS).as_str(),
                    "s",
                );
                (
                    turn::nothing(),
                    Some(
                        TurnEnd::Failed(
                            CliTurnError { code: "cli_handshake_timeout", message, details: None },
                        ),
                    ),
                )
            },
            TurnInput::SendFailed { error, interrupt } => {
                if interrupt {
                    (turn::nothing(), Some(TurnEnd::Cancelled))
                } else {
                    (turn::nothing(), Some(TurnEnd::Failed(write_failed(error.as_str()))))
                }
            },
        }
    }

    /// Handles a request to cancel.
    fn on_cancel(&mut self) -> (r: (Vec<TurnEffect>, Option<TurnEnd>))
        ensures
            (final(self)@, r.0.deep_view(), r.1.deep_view()) == on_cancel(old(self)@),
    {
        if let (Some(thread), Some(turn)) = (&self.thread_id, &self.turn_id) {
            let payload = interrupt_request(thread.as_str(), turn.as_str());
            let mut out = turn::nothing();
            let ghost v = payload@;
            turn::add_to(&mut out, TurnEffect::Send { payload, interrupt: true });
            assert(out.deep_view() =~= seq![EffectView::Send { payload: v, interrupt: true }]);
            self.phase = Phase::Interrupting;
            self.deadline = Deadline::Interrupt;
            (out, None)
        } else {
            (turn::nothing(), Some(TurnEnd::Cancelled))
        }
    }

    /// Handles a message of the server.
    fn on_message(&mut self, msg: &Json) -> (r: (Vec<TurnEffect>, Option<TurnEnd>))
        ensures
            (final(self)@, r.0.deep_view(), r.1.deep_view()) == on_message(old(self)@, msg@),
    {
        self.unparsable = 0;
        match classify(msg) {
            Message::ServerRequest(id) => (send_one(refuse_request(id)), None),
            Message::Response(id) => self.on_response(id, msg),
            Message::Notification => match self.mapper.map_notification(msg) {
                LineOutcome::Events(events) => (self.record.record_all(events), None),
                LineOutcome::Finished { events, finish } => (
                    self.record.record_all(events),
                    Some(TurnEnd::Finished(finish)),
                ),
                LineOutcome::Unparsable => (turn::nothing(), None),
            },
            Message::Other => (turn::nothing(), None),
        }
    }

    /// Handles a response of the server.
    fn on_response(&mut self, id: u64, msg: &Json) -> (r: (Vec<TurnEffect>, Option<TurnEnd>))
        ensures
            (final(self)@, r.0.deep_view(), r.1.deep_view()) == on_response(old(self)@, id, msg@),
    {
        if let Some(error) = msg.get("error") {
            if id == ID_INTERRUPT {
                return (turn::nothing(), None);
            }
            return (turn::nothing(), Some(TurnEnd::Failed(request_failed(id, error))));
        }
        let result = msg.at("result");
        if id == ID_INITIALIZE && self.phase == Phase::Initializing {
            self.phase = Phase::OpeningThread;
            let open = thread_request(
                text::borrowed(&self.record.session_id),
                self.cwd.as_str(),
                text::borrowed(&self.model),
            );
            let ghost v = open@;
            let mut out = send_one(
                Json::empty_object().with("method", Json::of_str("initialized")),
            );
            turn::add_to(&mut out, TurnEffect::Send { payload: open, interrupt: false });
            assert(out.deep_view() =~= seq![sent(initialized()), sent(v)]);
            (out, None)
        } else if id == ID_THREAD && self.phase == Phase::OpeningThread {
            self.on_thread(result)
        } else if id == ID_TURN && self.phase == Phase::StartingTurn {
            if let Some(turn) = result.at("turn").str_at("id") {
                self.turn_id = Some(turn.to_owned());
                self.mapper.set_turn_id(turn);
            }
            self.phase = Phase::Streaming;
            self.deadline = Deadline::Open;
            (turn::nothing(), None)
        } else {
            (turn::nothing(), None)
        }
    }

    /// Handles the opening of the thread.
    fn on_thread(&mut self, result: &Json) -> (r: (Vec<TurnEffect>, Option<TurnEnd>))
        ensures
            (final(self)@, r.0.deep_view(), r.1.deep_view()) == on_thread(old(self)@, result@),
    {
        match result.at("thread").filled("id") {
            None => {
                let sample = text::truncate(result.write().as_str(), PROTOCOL_SAMPLE_BYTES);
                (
                    turn::nothing(),
                    Some(
                        TurnEnd::Failed(
                            CliTurnError {
                                code: "cli_protocol",
                                message: "Codex opened a thread without an id".to_owned(),
                                details: Some(sample),
                            },
                        ),
                    ),
                )
            },
            Some(id) => {
                self.thread_id = Some(id.to_owned());
                let mut out = turn::nothing();
                if !text::is_text(&self.record.session_id, id) {
                    out = self.record.record(
                        AcpEvent::SessionStarted { session_id: id.to_owned() },
                    );
                }
                self.phase = Phase::StartingTurn;
                let start = turn_request(id, self.input.copy(), text::borrowed(&self.model));
                turn::add_to(&mut out, TurnEffect::Send { payload: start, interrupt: false });
                (out, None)
            },
        }
    }
}

/// Effects and end of an exchange that takes the inputs one after the other, up to
/// the one that ends it.
pub open spec fn run(p: PumpView, inputs: Seq<InputView>) -> (Seq<EffectView>, Option<EndView>)
    decreases inputs.len(),
{
    if inputs.len() == 0 {
        (Seq::empty(), None)
    } else {
        let (q, effects, end) = step(p, inputs[0]);
        if end is Some {
            (effects, end)
        } else {
            let rest = run(q, inputs.drop_first());
            (effects + rest.0, rest.1)
        }
    }
}

/// The mapper completes no turn by itself.
proof fn mapper_is_quiet(m: CodexView, msg: JsonView)
    ensures
        match codex_stream::step(m, msg).1 {
            OutcomeView::Events(e) => turn::quiet(e),
            OutcomeView::Finished { events, .. } => turn::quiet(events),
            OutcomeView::Unparsable => true,
        },
{
    let item = msg.at("params"@).at("item"@);
    match codex_stream::step(m, msg).1 {
        OutcomeView::Finished { events, .. } => {
            let open = codex_stream::abandoned(m.open_tools);
            assert forall|i: int| 0 <= i < events.len() implies turn::passing(
                #[trigger] events[i],
            ) by {
                if i < open.len() {
                    assert(events[i] == open[i]);
                }
            }
        },
        _ => {},
    }
}

/// No input completes the turn or changes the status by itself.
proof fn step_is_quiet(p: PumpView, input: InputView)
    ensures
        turn::plain(step(p, input).1),
{
    if let InputView::Line(line) = input {
        if text::trim(line).len() > 0 {
            match json::parsed(line) {
                Some(msg) => {
                    mapper_is_quiet(p.mapper, msg);
                    match codex_stream::step(p.mapper, msg).1 {
                        OutcomeView::Events(events) => {
                            turn::recording_is_quiet(p.record, events);
                        },
                        OutcomeView::Finished { events, .. } => {
                            turn::recording_is_quiet(p.record, events);
                        },
                        OutcomeView::Unparsable => {},
                    }
                },
                None => {},
            }
        }
    }
}

/// The exchange completes no turn and changes no status by itself.
proof fn run_is_quiet(p: PumpView, inputs: Seq<InputView>)
    ensures
        turn::plain(run(p, inputs).0),
        turn::completions(run(p, inputs).0) == 0,
    decreases inputs.len(),
{
    if inputs.len() > 0 {
        let (q, effects, end) = step(p, inputs[0]);
        step_is_quiet(p, inputs[0]);
        if end is None {
            run_is_quiet(q, inputs.drop_first());
            turn::plain_adds_up(effects, run(q, inputs.drop_first()).0);
        }
    }
    turn::plain_completes_nothing(run(p, inputs).0);
}

/// Every turn ends with exactly one `TurnComplete`: whatever comes in and however
/// the exchange ends, all effects of the turn together hold one.
pub proof fn turn_completes_once(
    client: ClientInfo,
    user: Option<(Seq<char>, JsonView)>,
    known: Option<Seq<char>>,
    p: PumpView,
    inputs: Seq<InputView>,
    finish: FinishView,
    session: Option<Seq<char>>,
    external: Option<Seq<char>>,
    agent_type: Seq<char>,
    duration_ms: u64,
    model: Option<Seq<char>>,
    disconnect: bool,
)
    ensures
        turn::completions(
            turn::beginning(user, known) + seq![sent(initialize(client))] + run(p, inputs).0
                + turn::ending(
                finish,
                session,
                external,
                agent_type,
                duration_ms,
                model,
                disconnect,
            ),
        ) == 1,
{
    let a = turn::beginning(user, known);
    let s = seq![sent(initialize(client))];
    let b = run(p, inputs).0;
    let c = turn::ending(finish, session, external, agent_type, duration_ms, model, disconnect);
    turn::beginning_is_quiet(user, known);
    turn::plain_completes_nothing(s);
    run_is_quiet(p, inputs);
    turn::ending_completes_once(finish, session, external, agent_type, duration_ms, model, disconnect);
    turn::completions_add_up(a, s);
    turn::completions_add_up(a + s, b);
    turn::completions_add_up(a + s + b, c);
}

/// The events of every turn are in order: `Prompting` first, an error before the one
/// `TurnComplete`, and `Connected` last if and only if the connection stays, whatever
/// comes in and however the exchange ends.
pub proof fn events_are_in_order(
    client: ClientInfo,
    user: Option<(Seq<char>, JsonView)>,
    known: Option<Seq<char>>,
    p: PumpView,
    inputs: Seq<InputView>,
    finish: FinishView,
    session: Option<Seq<char>>,
    external: Option<Seq<char>>,
    agent_type: Seq<char>,
    duration_ms: u64,
    model: Option<Seq<char>>,
    disconnect: bool,
)
    ensures
        turn::in_order(
            turn::emitted(
                turn::beginning(user, known) + (seq![sent(initialize(client))] + run(p, inputs).0)
                    + turn::ending(
                    finish,
                    session,
                    external,
                    agent_type,
                    duration_ms,
                    model,
                    disconnect,
                ),
            ),
            finish,
            disconnect,
        ),
{
    let s = seq![sent(initialize(client))];
    turn::beginning_is_quiet(user, known);
    run_is_quiet(p, inputs);
    turn::plain_adds_up(s, run(p, inputs).0);
    turn::turn_is_in_order(
        turn::beginning(user, known),
        s + run(p, inputs).0,
        finish,
        session,
        external,
        agent_type,
        duration_ms,
        model,
        disconnect,
    );
}

/// What the exchange asks of the server, in order: of the messages that it writes,
/// those that name a method. A refusal names none.
pub open spec fn asked(effects: Seq<EffectView>) -> Seq<JsonView>
    decreases effects.len(),
{
    if effects.len() == 0 {
        Seq::empty()
    } else {
        match effects.last() {
            EffectView::Send { payload, .. } => if payload.get("method"@) is Some {
                asked(effects.drop_last()).push(payload)
            } else {
                asked(effects.drop_last())
            },
            _ => asked(effects.drop_last()),
        }
    }
}

/// What two lists ask follows one another.
proof fn asked_adds_up(a: Seq<EffectView>, b: Seq<EffectView>)
    ensures
        asked(a + b) == asked(a) + asked(b),
    decreases b.len(),
{
    if b.len() == 0 {
        assert(a + b =~= a);
        assert(asked(a) + asked(b) =~= asked(a));
    } else {
        asked_adds_up(a, b.drop_last());
        assert((a + b).drop_last() =~= a + b.drop_last());
        assert((a + b).last() == b.last());
        assert(asked(a + b) =~= asked(a) + asked(b));
    }
}

/// Effects that send nothing with a method ask nothing.
proof fn asks_nothing(e: Seq<EffectView>)
    requires
        forall|i: int|
            0 <= i < e.len() ==> (#[trigger] e[i] matches EffectView::Send { payload, .. }
                ==> payload.get("method"@) is None),
    ensures
        asked(e) == Seq::<JsonView>::empty(),
    decreases e.len(),
{
    if e.len() > 0 {
        assert forall|i: int| 0 <= i < e.drop_last().len() implies (
        #[trigger] e.drop_last()[i] matches EffectView::Send { payload, .. } ==> payload.get(
            "method"@,
        ) is None) by {
            assert(e.drop_last()[i] == e[i]);
        }
        asks_nothing(e.drop_last());
        assert(e.last() == e[e.len() - 1]);
    }
}

/// One message with a method asks just that.
proof fn asks_one(payload: JsonView)
    requires
        payload.get("method"@) is Some,
    ensures
        asked(seq![sent(payload)]) == seq![payload],
{
    let e = seq![sent(payload)];
    assert(e.drop_last() =~= Seq::empty());
    assert(asked(e.drop_last()) =~= Seq::empty());
    assert(asked(e) =~= seq![payload]);
}

/// A request names its method and its id, the note that the exchange is initialized
/// its method, and a refusal none.
proof fn methods_are_named(id: u64, method: Seq<char>, params: JsonView, other: JsonView)
    ensures
        request(id, method, params).get("method"@) == Some(JsonView::Str(method)),
        request(id, method, params).get("id"@) == Some(JsonView::of_u64(id)),
        initialized().get("method"@) is Some,
        refusal(other).get("method"@) is None,
{
    reveal_strlit("id");
    reveal_strlit("method");
    reveal_strlit("params");
    reveal_strlit("error");
    assert("id"@.len() == 2 && "method"@.len() == 6 && "params"@.len() == 6 && "error"@.len() == 5);
    assert("method"@[0] == 'm' && "params"@[0] == 'p');
    let o = JsonView::empty_object();
    let n = JsonView::of_u64(id);
    let m = JsonView::Str(method);
    json::with_holds(o, "id"@, n, "method"@);
    json::with_holds(o.with("id"@, n), "method"@, m, "id"@);
    json::with_holds(o.with("id"@, n).with("method"@, m), "params"@, params, "method"@);
    json::with_holds(o.with("id"@, n).with("method"@, m), "params"@, params, "id"@);
    json::with_holds(o, "method"@, JsonView::Str("initialized"@), "id"@);
    json::with_holds(o, "id"@, other, "method"@);
    let error = o.with("code"@, method_not_found()).with(
        "message"@,
        JsonView::Str("not supported by codeg: this session runs without approvals"@),
    );
    json::with_holds(o.with("id"@, other), "error"@, error, "method"@);
}

/// The message that a line holds.
pub open spec fn message_of(input: InputView) -> Option<JsonView> {
    match input {
        InputView::Line(line) => if text::trim(line).len() > 0 {
            json::parsed(line)
        } else {
            None
        },
        _ => None,
    }
}

/// The result in a successful response to a request.
pub open spec fn answer(input: InputView, id: u64) -> Option<JsonView> {
    match message_of(input) {
        Some(msg) => if classified(msg) == MessageView::Response(id) && msg.get("error"@) is None {
            Some(msg.at("result"@))
        } else {
            None
        },
        None => None,
    }
}

/// The thread that a successful response opens.
pub open spec fn opened(input: InputView) -> Option<Seq<char>> {
    match answer(input, ID_THREAD) {
        Some(result) => result.at("thread"@).filled("id"@),
        None => None,
    }
}

/// The id of a request of the server.
pub open spec fn server_request(input: InputView) -> Option<JsonView> {
    match message_of(input) {
        Some(msg) => match classified(msg) {
            MessageView::ServerRequest(id) => Some(id),
            _ => None,
        },
        None => None,
    }
}

/// The mapper announces no session: the exchange does, when the thread is opened.
proof fn mapper_starts_no_session(m: CodexView, msg: JsonView)
    ensures
        match codex_stream::step(m, msg).1 {
            OutcomeView::Events(e) => forall|i: int|
                0 <= i < e.len() ==> !(#[trigger] e[i] is SessionStarted),
            OutcomeView::Finished { events, .. } => forall|i: int|
                0 <= i < events.len() ==> !(#[trigger] events[i] is SessionStarted),
            OutcomeView::Unparsable => true,
        },
{
    match codex_stream::step(m, msg).1 {
        OutcomeView::Finished { events, .. } => {
            let open = codex_stream::abandoned(m.open_tools);
            assert forall|i: int| 0 <= i < events.len() implies !(#[trigger] events[i]
                is SessionStarted) by {
                if i < open.len() {
                    assert(events[i] == open[i]);
                }
            }
        },
        _ => {},
    }
}

/// A notification asks nothing, and keeps the session.
proof fn notification_asks_nothing(p: PumpView, msg: JsonView)
    ensures
        asked(on_notification(p, msg).1) == Seq::<JsonView>::empty(),
        on_notification(p, msg).0.record == p.record,
        forall|i: int|
            0 <= i < on_notification(p, msg).1.len() ==> !(#[trigger] on_notification(p, msg).1[i]
                is Send),
{
    mapper_starts_no_session(p.mapper, msg);
    match codex_stream::step(p.mapper, msg).1 {
        OutcomeView::Events(e) => turn::recording_sends_nothing(p.record, e),
        OutcomeView::Finished { events, .. } => turn::recording_sends_nothing(p.record, events),
        OutcomeView::Unparsable => {},
    }
    asks_nothing(on_notification(p, msg).1);
}

/// What one input makes the exchange ask: the thread after the answer to the first
/// request, the turn after the thread was opened, and nothing else.
proof fn step_asks(p: PumpView, input: InputView)
    requires
        !(input is Cancel),
    ensures
        ({
            let (q, e, end) = step(p, input);
            &&& q.cwd == p.cwd
            &&& q.model == p.model
            &&& q.input == p.input
            &&& p.phase == Phase::Initializing ==> q.record.session_id == p.record.session_id
            &&& if p.phase == Phase::Initializing && answer(input, ID_INITIALIZE) is Some {
                &&& asked(e) == seq![
                    initialized(),
                    open_thread(p.record.session_id, p.cwd, p.model),
                ]
                &&& q.phase == Phase::OpeningThread
                &&& end is None
            } else if p.phase == Phase::OpeningThread && opened(input) is Some {
                &&& asked(e) == seq![start_turn(opened(input)->0, p.input, p.model)]
                &&& q.phase == Phase::StartingTurn
                &&& end is None
            } else {
                &&& asked(e) == Seq::<JsonView>::empty()
                &&& q.phase == p.phase || (p.phase == Phase::StartingTurn && q.phase
                    == Phase::Streaming)
            }
        }),
{
    let e = step(p, input).1;
    asks_nothing(Seq::empty());
    if let Some(msg) = message_of(input) {
        let q = PumpView { unparsable: 0, ..p };
        match classified(msg) {
            MessageView::ServerRequest(id) => {
                methods_are_named(0, ""@, JsonView::Null, id);
                asks_nothing(e);
            },
            MessageView::Notification => {
                notification_asks_nothing(q, msg);
            },
            MessageView::Response(id) => {
                let result = msg.at("result"@);
                if p.phase == Phase::Initializing && answer(input, ID_INITIALIZE) is Some {
                    let open = open_thread(p.record.session_id, p.cwd, p.model);
                    let params = open_params(p.record.session_id, p.cwd, p.model);
                    methods_are_named(ID_THREAD, open_method(p.record.session_id), params, msg);
                    asks_one(initialized());
                    asks_one(open);
                    asked_adds_up(seq![sent(initialized())], seq![sent(open)]);
                    assert(e =~= seq![sent(initialized())] + seq![sent(open)]);
                    assert(seq![initialized()] + seq![open] =~= seq![initialized(), open]);
                } else if p.phase == Phase::OpeningThread && opened(input) is Some {
                    let thread = opened(input)->0;
                    let start = start_turn(thread, p.input, p.model);
                    methods_are_named(
                        ID_TURN,
                        "turn/start"@,
                        JsonView::empty_object().with("threadId"@, JsonView::Str(thread)).with(
                            "input"@,
                            p.input,
                        ).with_some("model"@, model_value(p.model)),
                        msg,
                    );
                    asks_one(start);
                    let announced = e.drop_last();
                    asks_nothing(announced);
                    asked_adds_up(announced, seq![sent(start)]);
                    assert(e =~= announced + seq![sent(start)]);
                    assert(Seq::<JsonView>::empty() + seq![start] =~= seq![start]);
                }
            },
            MessageView::Other => {},
        }
    }
}

/// What the exchange asks over a row of inputs, from the state that it is in.
proof fn run_asks(p: PumpView, inputs: Seq<InputView>)
    requires
        forall|i: int| 0 <= i < inputs.len() ==> !(#[trigger] inputs[i] is Cancel),
    ensures
        ({
            let w = asked(run(p, inputs).0);
            &&& p.phase == Phase::Initializing ==> {
                &&& w.len() == 0 || w.len() == 2 || w.len() == 3
                &&& w.len() > 0 ==> {
                    &&& w[0] == initialized()
                    &&& w[1] == open_thread(p.record.session_id, p.cwd, p.model)
                    &&& exists|j: int|
                        0 <= j < inputs.len() && (#[trigger] answer(inputs[j], ID_INITIALIZE))
                            is Some
                }
                &&& w.len() > 2 ==> exists|j: int, k: int|
                    0 <= j < k < inputs.len() && (#[trigger] answer(inputs[j], ID_INITIALIZE))
                        is Some && (#[trigger] opened(inputs[k])) is Some && w[2] == start_turn(
                        opened(inputs[k])->0,
                        p.input,
                        p.model,
                    )
            }
            &&& p.phase == Phase::OpeningThread ==> w.len() <= 1 && (w.len() == 1 ==> exists|k: int|
                0 <= k < inputs.len() && (#[trigger] opened(inputs[k])) is Some && w[0]
                    == start_turn(opened(inputs[k])->0, p.input, p.model))
            &&& p.phase != Phase::Initializing && p.phase != Phase::OpeningThread ==> w.len() == 0
        }),
    decreases inputs.len(),
{
    asks_nothing(Seq::empty());
    if inputs.len() > 0 {
        let (q, e, end) = step(p, inputs[0]);
        step_asks(p, inputs[0]);
        if end is None {
            let tail = inputs.drop_first();
            assert forall|i: int| 0 <= i < tail.len() implies !(#[trigger] tail[i] is Cancel) by {
                assert(tail[i] == inputs[i + 1]);
            }
            run_asks(q, tail);
            let rest = asked(run(q, tail).0);
            let w = asked(run(p, inputs).0);
            asked_adds_up(e, run(q, tail).0);
            assert(w == asked(e) + rest);
            if p.phase == Phase::Initializing {
                if answer(inputs[0], ID_INITIALIZE) is Some {
                    if rest.len() == 1 {
                        let k = choose|k: int|
                            0 <= k < tail.len() && (#[trigger] opened(tail[k])) is Some && rest[0]
                                == start_turn(opened(tail[k])->0, q.input, q.model);
                        assert(tail[k] == inputs[k + 1]);
                        assert(opened(inputs[k + 1]) is Some);
                        assert(w[2] == rest[0]);
                    }
                } else {
                    assert(w =~= rest);
                    if rest.len() > 0 {
                        let j = choose|j: int|
                            0 <= j < tail.len() && (#[trigger] answer(tail[j], ID_INITIALIZE))
                                is Some;
                        assert(tail[j] == inputs[j + 1]);
                        assert(answer(inputs[j + 1], ID_INITIALIZE) is Some);
                    }
                    if rest.len() > 2 {
                        let (j, k) = choose|j: int, k: int|
                            0 <= j < k < tail.len() && (#[trigger] answer(tail[j], ID_INITIALIZE))
                                is Some && (#[trigger] opened(tail[k])) is Some && rest[2]
                                == start_turn(opened(tail[k])->0, q.input, q.model);
                        assert(tail[j] == inputs[j + 1]);
                        assert(tail[k] == inputs[k + 1]);
                        assert(answer(inputs[j + 1], ID_INITIALIZE) is Some);
                        assert(opened(inputs[k + 1]) is Some);
                    }
                }
            } else if p.phase == Phase::OpeningThread {
                if opened(inputs[0]) is None {
                    assert(w =~= rest);
                    if rest.len() == 1 {
                        let k = choose|k: int|
                            0 <= k < tail.len() && (#[trigger] opened(tail[k])) is Some && rest[0]
                                == start_turn(opened(tail[k])->0, q.input, q.model);
                        assert(tail[k] == inputs[k + 1]);
                        assert(opened(inputs[k + 1]) is Some);
                    }
                }
            }
        }
    }
}

/// The requests of an exchange are written in order, each once, and each only after
/// the answer to the one before: first the exchange is initialized; once that was
/// answered, it is noted, and the thread is opened, resumed if and only if its session
/// was known; and once a thread was opened, the turn is started on it. Apart from
/// these the exchange asks nothing while nobody cancels.
pub proof fn requests_are_in_order(client: ClientInfo, p: PumpView, inputs: Seq<InputView>)
    requires
        p.phase == Phase::Initializing,
        forall|i: int| 0 <= i < inputs.len() ==> !(#[trigger] inputs[i] is Cancel),
    ensures
        ({
            let w = asked(seq![sent(initialize(client))] + run(p, inputs).0);
            &&& w.len() == 1 || w.len() == 3 || w.len() == 4
            &&& w[0] == initialize(client)
            &&& w.len() > 1 ==> {
                &&& w[1] == initialized()
                &&& w[2] == open_thread(p.record.session_id, p.cwd, p.model)
                &&& w[2].get("id"@) == Some(JsonView::of_u64(ID_THREAD))
                &&& w[2].get("method"@) == Some(
                    JsonView::Str(
                        if p.record.session_id is Some {
                            "thread/resume"@
                        } else {
                            "thread/start"@
                        },
                    ),
                )
                &&& exists|j: int|
                    0 <= j < inputs.len() && (#[trigger] answer(inputs[j], ID_INITIALIZE)) is Some
            }
            &&& w.len() > 3 ==> exists|j: int, k: int|
                0 <= j < k < inputs.len() && (#[trigger] answer(inputs[j], ID_INITIALIZE)) is Some
                    && (#[trigger] opened(inputs[k])) is Some && w[3] == start_turn(
                    opened(inputs[k])->0,
                    p.input,
                    p.model,
                )
        }),
{
    let first = seq![sent(initialize(client))];
    let info = JsonView::empty_object().with("name"@, JsonView::Str(client.name@)).with(
        "title"@,
        JsonView::Str(client.title@),
    ).with("version"@, JsonView::Str(client.version@));
    let hello = JsonView::empty_object().with("clientInfo"@, info).with(
        "capabilities"@,
        JsonView::Null,
    );
    methods_are_named(ID_INITIALIZE, "initialize"@, hello, JsonView::Null);
    methods_are_named(
        ID_THREAD,
        open_method(p.record.session_id),
        open_params(p.record.session_id, p.cwd, p.model),
        JsonView::Null,
    );
    asks_one(initialize(client));
    asked_adds_up(first, run(p, inputs).0);
    run_asks(p, inputs);
    let w = asked(first + run(p, inputs).0);
    let rest = asked(run(p, inputs).0);
    assert(forall|i: int| 0 <= i < rest.len() ==> w[i + 1] == #[trigger] rest[i]);
}

/// All else that the exchange writes are refusals: each answers a request of the
/// server that was read, under its id.
pub proof fn only_requests_of_the_server_are_refused(p: PumpView, inputs: Seq<InputView>, i: int)
    requires
        0 <= i < run(p, inputs).0.len(),
        run(p, inputs).0[i] matches EffectView::Send { payload, .. } && payload.get("method"@)
            is None,
    ensures
        exists|k: int|
            0 <= k < inputs.len() && (#[trigger] server_request(inputs[k])) is Some && run(
                p,
                inputs,
            ).0[i] == sent(refusal(server_request(inputs[k])->0)),
    decreases inputs.len(),
{
    let (q, e, end) = step(p, inputs[0]);
    if i < e.len() {
        assert(run(p, inputs).0[i] == e[i]);
        step_refuses(p, inputs[0], i);
        assert(server_request(inputs[0]) is Some);
    } else {
        let tail = inputs.drop_first();
        assert(run(p, inputs).0[i] == run(q, tail).0[i - e.len()]);
        only_requests_of_the_server_are_refused(q, tail, i - e.len());
        let k = choose|k: int|
            0 <= k < tail.len() && (#[trigger] server_request(tail[k])) is Some && run(
                q,
                tail,
            ).0[i - e.len()] == sent(refusal(server_request(tail[k])->0));
        assert(tail[k] == inputs[k + 1]);
        assert(server_request(inputs[k + 1]) is Some);
    }
}

/// What one input makes the exchange write without a method is a refusal.
proof fn step_refuses(p: PumpView, input: InputView, i: int)
    requires
        0 <= i < step(p, input).1.len(),
        step(p, input).1[i] matches EffectView::Send { payload, .. } && payload.get("method"@)
            is None,
    ensures
        server_request(input) is Some,
        step(p, input).1[i] == sent(refusal(server_request(input)->0)),
{
    if let Some(msg) = message_of(input) {
        let q = PumpView { unparsable: 0, ..p };
        match classified(msg) {
            MessageView::Notification => notification_asks_nothing(q, msg),
            MessageView::Response(id) => {
                methods_are_named(
                    ID_THREAD,
                    open_method(p.record.session_id),
                    open_params(p.record.session_id, p.cwd, p.model),
                    msg,
                );
                if let Some(thread) = msg.at("result"@).at("thread"@).filled("id"@) {
                    methods_are_named(
                        ID_TURN,
                        "turn/start"@,
                        JsonView::empty_object().with("threadId"@, JsonView::Str(thread)).with(
                            "input"@,
                            p.input,
                        ).with_some("model"@, model_value(p.model)),
                        msg,
                    );
                }
            },
            _ => {},
        }
    } else if input is Cancel {
        if let (Some(thread), Some(turn)) = (p.thread_id, p.turn_id) {
            methods_are_named(
                ID_INTERRUPT,
                "turn/interrupt"@,
                JsonView::empty_object().with("threadId"@, JsonView::Str(thread)).with(
                    "turnId"@,
                    JsonView::Str(turn),
                ),
                JsonView::Null,
            );
        }
    }
}

/// A turn that runs is interrupted, not killed: the interrupt is sent, and only its
/// own deadline or the server ends the turn.
pub proof fn running_turn_is_interrupted(p: PumpView)
    requires
        p.phase == Phase::Streaming,
        p.thread_id is Some,
        p.turn_id is Some,
    ensures
        step(p, InputView::Cancel).2 is None,
        step(p, InputView::Cancel).0.phase == Phase::Interrupting,
        step(p, InputView::Cancel).1 == seq![
            EffectView::Send {
                payload: interrupt(p.thread_id->0, p.turn_id->0),
                interrupt: true,
            },
        ],
        step(step(p, InputView::Cancel).0, InputView::Timeout).2 == Some(EndView::Cancelled),
{
}

/// Requests of the server are refused and never leave the turn hanging.
pub proof fn server_requests_are_refused(p: PumpView, line: Seq<char>, msg: JsonView)
    requires
        text::trim(line).len() > 0,
        json::parsed(line) == Some(msg),
        msg.get("id"@) is Some,
        msg.get("method"@) is Some,
    ensures
        step(p, InputView::Line(line)).1 == seq![sent(refusal(msg.get("id"@)->0))],
        step(p, InputView::Line(line)).2 is None,
{
}

/// The thread is the session: when a thread was opened, the turn records under its
/// id. A session that was not known is announced, once its start is recorded where it
/// is the first; one that was resumed is not announced again. Either way the turn is
/// started on it.
pub proof fn thread_is_the_session(p: PumpView, result: JsonView)
    requires
        result.at("thread"@).filled("id"@) is Some,
        p.record.session_id is None ==> !p.record.prompt_recorded,
    ensures
        ({
            let id = result.at("thread"@).filled("id"@)->0;
            let (q, effects, end) = on_thread(p, result);
            &&& end is None
            &&& q.thread_id == Some(id)
            &&& q.record.session_id == Some(id)
            &&& effects.last() == sent(start_turn(id, p.input, p.model))
            &&& p.record.session_id == Some(id) ==> effects.len() == 1
            &&& p.record.session_id != Some(id) ==> effects.len() > 1 && effects.drop_last().last()
                == EffectView::Emit(EventView::SessionStarted { session_id: id })
            &&& p.record.session_id is None ==> effects.drop_last() == seq![
                EffectView::RecordStart { session_id: id },
                EffectView::Emit(EventView::SessionStarted { session_id: id }),
            ]
        }),
{
    let id = result.at("thread"@).filled("id"@)->0;
    let effects = on_thread(p, result).1;
    let start = sent(start_turn(id, p.input, p.model));
    if p.record.session_id is None {
        assert(effects.drop_last() =~= seq![
            EffectView::RecordStart { session_id: id },
            EffectView::Emit(EventView::SessionStarted { session_id: id }),
        ]);
    }
}

/// An input that is accepted holds at most as many bytes of text as the server takes.
pub proof fn accepted_inputs_fit(a: ApartView)
    requires
        input(a) is Ok,
    ensures
        0 < a.pieces.len(),
        text_bytes(a.pieces) <= MAX_PROMPT_BYTES,
{
}

} // verus!
