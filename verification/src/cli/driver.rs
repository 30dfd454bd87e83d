//! Turns with one process per prompt, which reads one message and prints stream-JSON
//! lines.
use vstd::prelude::*;
use crate::cli::connection;
use crate::cli::outcome::{FinishView, LineOutcome, OutcomeView, TurnFinish};
use crate::cli::prompt::{BlockView, CompanionLaunchSpec, PromptInputBlock};
use crate::cli::stream_json;
use crate::cli::stream_json::{MapperView, StreamMapper};
use crate::cli::transcript;
use crate::cli::turn;
use crate::cli::turn::{EffectView, EndView, InputView, TurnEffect, TurnEnd, TurnInput};
use crate::events::{AcpEvent, EventView};
use crate::json;
use crate::json::{Json, JsonView};
use crate::text;

verus! {

/// The exchange with one process.
pub struct ClaudePump {
    mapper: StreamMapper,
    session_id: String,
    unparsable: usize,
    /// The end that a `result` told while background tasks still ran.
    deferred: Option<TurnFinish>,
}

/// The state of the exchange.
#[verifier::ext_equal]
pub struct PumpView {
    pub mapper: MapperView,
    pub session_id: Seq<char>,
    pub unparsable: nat,
    pub deferred: Option<FinishView>,
}

impl View for ClaudePump {
    type V = PumpView;

    closed spec fn view(&self) -> PumpView {
        PumpView {
            mapper: self.mapper@,
            session_id: self.session_id@,
            unparsable: self.unparsable as nat,
            deferred: self.deferred.deep_view(),
        }
    }
}

/// Whether an event is prose of a sub-agent. It is shown live and not recorded:
/// the history would read it as the main agent's.
pub open spec fn sidechain(e: EventView) -> bool {
    match e {
        EventView::ContentDelta { parent_tool_use_id, .. } => parent_tool_use_id is Some,
        EventView::Thinking { parent_tool_use_id, .. } => parent_tool_use_id is Some,
        _ => false,
    }
}

/// Emits one event and records it.
pub open spec fn recorded(session_id: Seq<char>, e: EventView) -> Seq<EffectView> {
    if !sidechain(e) && transcript::update(e) is Some {
        seq![
            EffectView::RecordUpdate { session_id, update: transcript::update(e)->0 },
            EffectView::Emit(e),
        ]
    } else {
        seq![EffectView::Emit(e)]
    }
}

/// Emits and records several events.
pub open spec fn all_recorded(session_id: Seq<char>, events: Seq<EventView>) -> Seq<EffectView>
    decreases events.len(),
{
    if events.len() == 0 {
        Seq::empty()
    } else {
        all_recorded(session_id, events.drop_last()) + recorded(session_id, events.last())
    }
}

/// How the end of the output ends the exchange: with the deferred end, if a
/// `result` told one.
pub open spec fn closed(p: PumpView) -> EndView {
    match p.deferred {
        Some(f) => EndView::Finished(f),
        None => EndView::Eof,
    }
}

/// State, effects and end after a line that is not blank.
pub open spec fn on_line(p: PumpView, line: Seq<char>) -> (PumpView, Seq<EffectView>, Option<EndView>) {
    let (m, outcome) = stream_json::step_line(p.mapper, line);
    match outcome {
        OutcomeView::Events(events) => (
            PumpView { mapper: m, unparsable: 0, ..p },
            all_recorded(p.session_id, events),
            None,
        ),
        OutcomeView::Finished { events, finish } => if m.pending() {
            (
                PumpView { mapper: m, unparsable: 0, deferred: Some(finish), ..p },
                all_recorded(p.session_id, events),
                None,
            )
        } else {
            (
                PumpView { mapper: m, unparsable: 0, ..p },
                all_recorded(p.session_id, events),
                Some(EndView::Finished(finish)),
            )
        },
        OutcomeView::Unparsable => {
            let n = turn::one_more(p.unparsable);
            (PumpView { mapper: m, unparsable: n, ..p }, Seq::empty(), turn::given_up(n, line))
        },
    }
}

/// State, effects and end after one input.
pub open spec fn step(p: PumpView, input: InputView) -> (PumpView, Seq<EffectView>, Option<EndView>) {
    match input {
        InputView::Line(line) => if text::trim(line).len() == 0 {
            (p, Seq::empty(), None)
        } else {
            on_line(p, line)
        },
        InputView::Closed => (
            PumpView { deferred: None, ..p },
            Seq::empty(),
            Some(closed(p)),
        ),
        InputView::Cancel => (p, Seq::empty(), Some(EndView::Cancelled)),
        InputView::Disconnect => (p, Seq::empty(), Some(EndView::Disconnected)),
        _ => (p, Seq::empty(), None),
    }
}

/// Emits one event and records it.
fn emit_recorded(event: AcpEvent, session_id: &str) -> (r: Vec<TurnEffect>)
    ensures
        r.deep_view() == recorded(session_id@, event@),
{
    let mut out = turn::nothing();
    let live_only = match &event {
        AcpEvent::ContentDelta { parent_tool_use_id, .. } => parent_tool_use_id.is_some(),
        AcpEvent::Thinking { parent_tool_use_id, .. } => parent_tool_use_id.is_some(),
        _ => false,
    };
    assert(live_only == sidechain(event@));
    if !live_only {
        if let Some(update) = transcript::transcript_update_for(&event) {
            turn::add_to(
                &mut out,
                TurnEffect::RecordUpdate { session_id: session_id.to_owned(), update },
            );
        }
    }
    turn::add_to(&mut out, TurnEffect::Emit(event));
    assert(out.deep_view() =~= recorded(session_id@, event@));
    out
}

/// Emits and records several events.
fn emit_all(events: Vec<AcpEvent>, session_id: &str) -> (r: Vec<TurnEffect>)
    ensures
        r.deep_view() == all_recorded(session_id@, events.deep_view()),
{
    let mut out = turn::nothing();
    let ghost all = events.deep_view();
    let mut rest = events;
    let ghost mut done: int = 0;
    assert(all.take(0) =~= Seq::empty());
    assert(rest.deep_view() =~= all.skip(0));
    while rest.len() > 0
        invariant
            0 <= done <= all.len(),
            rest.deep_view() == all.skip(done),
            out.deep_view() == all_recorded(session_id@, all.take(done)),
        decreases rest.len(),
    {
        let ghost before = rest.deep_view();
        assert(before.len() == rest@.len() && before.len() == all.len() - done);
        let event = rest.remove(0);
        assert(event@ == before[0]);
        assert(before[0] == all[done]);
        assert(rest.deep_view() =~= before.skip(1));
        assert(rest.deep_view() =~= all.skip(done + 1));
        assert(all.take(done + 1).drop_last() =~= all.take(done));
        assert(all.take(done + 1).last() == event@);
        let more = emit_recorded(event, session_id);
        turn::extend(&mut out, more);
        proof {
            done = done + 1;
        }
    }
    assert(all.skip(done).len() == 0);
    assert(all.take(done) =~= all);
    out
}

impl ClaudePump {
    /// The exchange with a process that was just started.
    pub fn new(session_id: &str, working_dir: &str) -> (r: ClaudePump)
        ensures
            r@ == (PumpView {
                mapper: MapperView::fresh(Some(session_id@), Some(working_dir@)),
                session_id: session_id@,
                unparsable: 0,
                deferred: None,
            }),
    {
        ClaudePump {
            mapper: StreamMapper::new(
                Some(session_id.to_owned()),
                Some(working_dir.to_owned()),
            ),
            session_id: session_id.to_owned(),
            unparsable: 0,
            deferred: None,
        }
    }

    /// Takes one input; tells what to do and whether the exchange has ended. A
    /// `result` that comes while a background task runs is not the end: the
    /// process goes on, and the turn ends with the first `result` that leaves
    /// nothing in the background, or with the end of the output after one.
    pub fn on_input(&mut self, input: TurnInput) -> (r: (Vec<TurnEffect>, Option<TurnEnd>))
        ensures
            (final(self)@, r.0.deep_view(), r.1.deep_view()) == step(old(self)@, input@),
    {
        match input {
            TurnInput::Line(line) => {
                if text::trimmed(line.as_str()).as_str().is_empty() {
                    return (turn::nothing(), None);
                }
                match self.mapper.map_line(line.as_str()) {
                    LineOutcome::Events(events) => {
                        self.unparsable = 0;
                        (emit_all(events, self.session_id.as_str()), None)
                    },
                    LineOutcome::Finished { events, finish } => {
                        self.unparsable = 0;
                        let effects = emit_all(events, self.session_id.as_str());
                        if self.mapper.background_pending() {
                            self.deferred = Some(finish);
                            (effects, None)
                        } else {
                            (effects, Some(TurnEnd::Finished(finish)))
                        }
                    },
                    LineOutcome::Unparsable => {
                        let end = turn::count_unparsable(&mut self.unparsable, line.as_str());
                        (turn::nothing(), end)
                    },
                }
            },
            TurnInput::Closed => match self.deferred.take() {
                Some(finish) => (turn::nothing(), Some(TurnEnd::Finished(finish))),
                None => (turn::nothing(), Some(TurnEnd::Eof)),
            },
            TurnInput::Cancel => (turn::nothing(), Some(TurnEnd::Cancelled)),
            TurnInput::Disconnect => (turn::nothing(), Some(TurnEnd::Disconnected)),
            _ => (turn::nothing(), None),
        }
    }
}

/// The first effects of a turn. The session is recorded before a new one is
/// announced.
pub open spec fn beginning(
    user_message: Option<(Seq<char>, JsonView)>,
    session_id: Seq<char>,
    minted: bool,
) -> Seq<EffectView> {
    let known = turn::beginning(user_message, Some(session_id));
    if minted {
        known.push(EffectView::Emit(EventView::SessionStarted { session_id }))
    } else {
        known
    }
}

/// The first effects of a turn. `minted` tells that the session is new.
pub fn begin_turn(user_message: Option<(String, Json)>, session_id: &str, minted: bool) -> (r: Vec<
    TurnEffect,
>)
    ensures
        r.deep_view() == beginning(user_message.deep_view(), session_id@, minted),
{
    let (_, mut out) = turn::begin_turn(user_message, Some(session_id));
    if minted {
        turn::add_to(
            &mut out,
            TurnEffect::Emit(AcpEvent::SessionStarted { session_id: session_id.to_owned() }),
        );
    }
    out
}

/// The arguments that every turn starts with.
pub open spec fn base_args() -> Seq<Seq<char>> {
    seq![
        "-p"@,
        "--verbose"@,
        "--input-format"@,
        "stream-json"@,
        "--output-format"@,
        "stream-json"@,
        "--include-partial-messages"@,
        "--permission-mode"@,
        "bypassPermissions"@,
    ]
}

/// The arguments that choose the model.
pub open spec fn model_args(model: Option<Seq<char>>) -> Seq<Seq<char>> {
    match model {
        Some(m) => if m.len() > 0 {
            seq!["--model"@, m]
        } else {
            Seq::empty()
        },
        None => Seq::empty(),
    }
}

/// The arguments of one turn.
pub open spec fn args(session_id: Seq<char>, resume: bool, model: Option<Seq<char>>) -> Seq<
    Seq<char>,
> {
    base_args() + seq![
        if resume {
            "--resume"@
        } else {
            "--session-id"@
        },
        session_id,
    ] + model_args(model)
}

/// The arguments of one turn: a session that has a transcript is resumed.
pub fn build_args(session_id: &str, resume: bool, model: Option<&str>) -> (r: Vec<String>)
    ensures
        r.deep_view() == args(session_id@, resume, model.deep_view()),
{
    let mut out: Vec<String> = Vec::new();
    out.push("-p".to_owned());
    out.push("--verbose".to_owned());
    out.push("--input-format".to_owned());
    out.push("stream-json".to_owned());
    out.push("--output-format".to_owned());
    out.push("stream-json".to_owned());
    out.push("--include-partial-messages".to_owned());
    out.push("--permission-mode".to_owned());
    out.push("bypassPermissions".to_owned());
    out.push(
        if resume {
            "--resume".to_owned()
        } else {
            "--session-id".to_owned()
        },
    );
    out.push(session_id.to_owned());
    if let Some(m) = model {
        if !m.is_empty() {
            out.push("--model".to_owned());
            out.push(m.to_owned());
        }
    }
    assert(out.deep_view() =~= args(session_id@, resume, model.deep_view()));
    out
}

/// The configuration that mounts the companion server.
pub open spec fn mcp_config(command: Seq<char>, arguments: Seq<Seq<char>>) -> JsonView {
    JsonView::empty_object().with(
        "mcpServers"@,
        JsonView::empty_object().with(
            "codeg-mcp"@,
            JsonView::empty_object().with("type"@, JsonView::Str("stdio"@)).with(
                "command"@,
                JsonView::Str(command),
            ).with("args"@, JsonView::strings(arguments)),
        ),
    )
}

/// The `--mcp-config` argument that mounts the companion server.
pub fn mcp_config_json(companion: &CompanionLaunchSpec) -> (r: String)
    ensures
        r@ == json::written(mcp_config(companion.command@, companion.args.deep_view())),
{
    Json::empty_object().with(
        "mcpServers",
        Json::empty_object().with(
            "codeg-mcp",
            Json::empty_object().with("type", Json::of_str("stdio")).with(
                "command",
                Json::of_str(companion.command.as_str()),
            ).with("args", Json::strings(&companion.args)),
        ),
    ).write()
}

/// The arguments of one turn, with the companion server mounted where there is one.
pub open spec fn all_args(
    session_id: Seq<char>,
    resume: bool,
    model: Option<Seq<char>>,
    companion: Option<CompanionLaunchSpec>,
) -> Seq<Seq<char>> {
    match companion {
        Some(c) => args(session_id, resume, model) + seq![
            "--mcp-config"@,
            json::written(mcp_config(c.command@, c.args.deep_view())),
        ],
        None => args(session_id, resume, model),
    }
}

/// The arguments of one turn, with the companion server mounted where there is one.
pub fn turn_args(
    session_id: &str,
    resume: bool,
    model: Option<&str>,
    companion: &Option<CompanionLaunchSpec>,
) -> (r: Vec<String>)
    ensures
        r.deep_view() == all_args(session_id@, resume, model.deep_view(), *companion),
{
    let mut out = build_args(session_id, resume, model);
    if let Some(c) = companion {
        out.push("--mcp-config".to_owned());
        out.push(mcp_config_json(c));
        assert(out.deep_view() =~= all_args(session_id@, resume, model.deep_view(), *companion));
    }
    out
}

/// The session of a turn: the one of the connection, or else `minted`; and whether
/// it is new.
pub fn session_or(external: Option<&str>, minted: String) -> (r: (String, bool))
    ensures
        match external {
            Some(id) => r.0@ == id@ && !r.1,
            None => r.0@ == minted@ && r.1,
        },
{
    match external {
        Some(id) => (id.to_owned(), false),
        None => (minted, true),
    }
}

/// The session of a turn: the one of the connection, or else a new one under a
/// random UUID; and whether it is new.
pub fn turn_session(external: Option<&str>) -> (r: (String, bool))
    ensures
        match external {
            Some(id) => r.0@ == id@ && !r.1,
            None => r.0@.len() == 36 && connection::uuid_accepted(r.0@) && r.1,
        },
{
    session_or(external, connection::new_uuid())
}

/// A text block.
pub open spec fn text_value(s: Seq<char>) -> JsonView {
    JsonView::empty_object().with("type"@, JsonView::Str("text"@)).with("text"@, JsonView::Str(s))
}

/// An image block.
pub open spec fn image_value(data: Seq<char>, mime_type: Seq<char>) -> JsonView {
    JsonView::empty_object().with("type"@, JsonView::Str("image"@)).with(
        "source"@,
        JsonView::empty_object().with("type"@, JsonView::Str("base64"@)).with(
            "media_type"@,
            JsonView::Str(mime_type),
        ).with("data"@, JsonView::Str(data)),
    )
}

/// The text of a resource: its content, under its address.
pub open spec fn resource_text(uri: Seq<char>, content: Seq<char>) -> Seq<char> {
    "["@ + uri + "]\n"@ + content
}

/// A link to a resource.
pub open spec fn link_text(name: Seq<char>, uri: Seq<char>) -> Seq<char> {
    "["@ + name + "]("@ + uri + ")"@
}

/// Whether a resource without text is an image.
pub open spec fn is_image(blob: Option<Seq<char>>, mime_type: Option<Seq<char>>) -> bool {
    blob is Some && mime_type is Some && text::begins(mime_type->0, "image/"@)
}

/// A prompt block as the process takes it.
pub open spec fn content(block: BlockView) -> JsonView {
    match block {
        BlockView::Text { text } => text_value(text),
        BlockView::Image { data, mime_type, .. } => image_value(data, mime_type),
        BlockView::Resource { uri, mime_type, text, blob } => match text {
            Some(t) => text_value(resource_text(uri, t)),
            None => if is_image(blob, mime_type) {
                image_value(blob->0, mime_type->0)
            } else {
                text_value("["@ + uri + "]"@)
            },
        },
        BlockView::ResourceLink { uri, name, .. } => text_value(link_text(name, uri)),
    }
}

/// The message that carries a prompt.
pub open spec fn user_message(blocks: Seq<BlockView>) -> JsonView {
    JsonView::empty_object().with("type"@, JsonView::Str("user"@)).with(
        "message"@,
        JsonView::empty_object().with("role"@, JsonView::Str("user"@)).with(
            "content"@,
            JsonView::Array(blocks.map_values(|b: BlockView| content(b))),
        ),
    )
}

/// A text block.
fn text_block(s: &str) -> (r: Json)
    ensures
        r@ == text_value(s@),
{
    Json::empty_object().with("type", Json::of_str("text")).with("text", Json::of_str(s))
}

/// An image block.
fn image_block(data: &str, mime_type: &str) -> (r: Json)
    ensures
        r@ == image_value(data@, mime_type@),
{
    Json::empty_object().with("type", Json::of_str("image")).with(
        "source",
        Json::empty_object().with("type", Json::of_str("base64")).with(
            "media_type",
            Json::of_str(mime_type),
        ).with("data", Json::of_str(data)),
    )
}

/// A prompt block as the process takes it.
pub fn content_block(block: &PromptInputBlock) -> (r: Json)
    ensures
        r@ == content(block@),
{
    match block {
        PromptInputBlock::Text { text } => text_block(text.as_str()),
        PromptInputBlock::Image { data, mime_type, .. } => image_block(
            data.as_str(),
            mime_type.as_str(),
        ),
        PromptInputBlock::Resource { uri, mime_type, text, blob } => {
            if let Some(t) = text {
                return text_block(
                    text::cat4("[", uri.as_str(), "]\n", t.as_str()).as_str(),
                );
            }
            if let (Some(b), Some(m)) = (blob, mime_type) {
                if text::starts_with(m.as_str(), "image/") {
                    return image_block(b.as_str(), m.as_str());
                }
            }
            text_block(text::cat3("[", uri.as_str(), "]").as_str())
        },
        PromptInputBlock::ResourceLink { uri, name, .. } => text_block(
            text::cat5("[", name.as_str(), "](", uri.as_str(), ")").as_str(),
        ),
    }
}

/// The line that hands a prompt to the process.
pub fn build_stdin_line(blocks: &Vec<PromptInputBlock>) -> (r: String)
    ensures
        r@ == json::written(user_message(blocks.deep_view())).push('\n'),
{
    let mut out: Vec<Json> = Vec::new();
    let ghost all = blocks.deep_view().map_values(|b: BlockView| content(b));
    for i in 0..blocks.len()
        invariant
            all == blocks.deep_view().map_values(|b: BlockView| content(b)),
            out.deep_view() == all.take(i as int),
    {
        let ghost before = out.deep_view();
        let value = content_block(&blocks[i]);
        assert(value@ == all[i as int]);
        out.push(value);
        assert(out.deep_view() =~= before.push(all[i as int]));
        assert(out.deep_view() =~= all.take(i + 1));
    }
    assert(all.take(blocks@.len() as int) =~= all);
    let mut line = Json::empty_object().with("type", Json::of_str("user")).with(
        "message",
        Json::empty_object().with("role", Json::of_str("user")).with("content", Json::of_vec(out)),
    ).write();
    line.push('\n');
    line
}

/// Effects and end of an exchange that takes the inputs one after the other, up to
/// the one that ends it.
pub open spec fn run(p: PumpView, inputs: Seq<InputView>) -> (Seq<EffectView>, Option<EndView>)
    decreases inputs.len(),
{
    if inputs.len() == 0 {
        (Seq::empty(), None)
    } else {
        let (q, effects, end) = step(p, inputs[0]);
        if end is Some {
            (effects, end)
        } else {
            let rest = run(q, inputs.drop_first());
            (effects + rest.0, rest.1)
        }
    }
}

/// The blocks of an `assistant` frame complete no turn.
proof fn blocks_are_quiet(m: MapperView, p: Option<Seq<char>>, blocks: Seq<JsonView>)
    ensures
        turn::quiet(stream_json::whole_blocks(m, p, blocks).1),
    decreases blocks.len(),
{
    if blocks.len() > 0 {
        blocks_are_quiet(m, p, blocks.drop_last());
        let front = stream_json::whole_blocks(m, p, blocks.drop_last());
        let last = stream_json::whole_block(front.0, p, blocks.last());
        let all = stream_json::whole_blocks(m, p, blocks).1;
        assert forall|i: int| 0 <= i < all.len() implies turn::passing(#[trigger] all[i]) by {
            if i < front.1.len() {
                assert(all[i] == front.1[i]);
            } else {
                assert(all[i] == last.1[i - front.1.len()]);
            }
        }
    }
}

/// The results of a `user` frame complete no turn.
proof fn results_are_quiet(m: MapperView, blocks: Seq<JsonView>)
    ensures
        turn::quiet(stream_json::results(m, blocks)),
    decreases blocks.len(),
{
    if blocks.len() > 0 {
        results_are_quiet(m, blocks.drop_last());
        let front = stream_json::results(m, blocks.drop_last());
        let all = stream_json::results(m, blocks);
        assert forall|i: int| 0 <= i < all.len() implies turn::passing(#[trigger] all[i]) by {
            if i < front.len() {
                assert(all[i] == front[i]);
            }
        }
    }
}

/// The mapper completes no turn by itself.
proof fn mapper_is_quiet(m: MapperView, v: JsonView)
    ensures
        turn::quiet(stream_json::events_of(stream_json::step(m, v).1)),
{
    match v.at("message"@).at("content"@).as_array() {
        Some(blocks) => {
            blocks_are_quiet(m, stream_json::parent(v), blocks);
            results_are_quiet(m, blocks);
        },
        None => {},
    }
}

/// Recording events completes no turn and changes no status, unless an event does.
proof fn recording_is_quiet(session_id: Seq<char>, events: Seq<EventView>)
    requires
        turn::quiet(events),
    ensures
        turn::plain(all_recorded(session_id, events)),
    decreases events.len(),
{
    if events.len() > 0 {
        let front = all_recorded(session_id, events.drop_last());
        let last = recorded(session_id, events.last());
        assert forall|i: int| 0 <= i < events.drop_last().len() implies turn::passing(
            #[trigger] events.drop_last()[i],
        ) by {
            assert(events.drop_last()[i] == events[i]);
        }
        recording_is_quiet(session_id, events.drop_last());
        assert(turn::passing(events[events.len() - 1]));
        turn::plain_adds_up(front, last);
    }
}

/// No input completes the turn or changes the status by itself.
proof fn step_is_quiet(p: PumpView, input: InputView)
    ensures
        turn::plain(step(p, input).1),
{
    if let InputView::Line(line) = input {
        match json::parsed(line) {
            Some(v) => {
                mapper_is_quiet(p.mapper, v);
                recording_is_quiet(
                    p.session_id,
                    stream_json::events_of(stream_json::step(p.mapper, v).1),
                );
            },
            None => {},
        }
    }
}

/// The exchange completes no turn and changes no status by itself.
proof fn run_is_quiet(p: PumpView, inputs: Seq<InputView>)
    ensures
        turn::plain(run(p, inputs).0),
        turn::completions(run(p, inputs).0) == 0,
    decreases inputs.len(),
{
    if inputs.len() > 0 {
        let (q, effects, end) = step(p, inputs[0]);
        step_is_quiet(p, inputs[0]);
        if end is None {
            run_is_quiet(q, inputs.drop_first());
            turn::plain_adds_up(effects, run(q, inputs.drop_first()).0);
        }
    }
    turn::plain_completes_nothing(run(p, inputs).0);
}

/// Every turn ends with exactly one `TurnComplete`: whatever comes in and however
/// the exchange ends, all effects of the turn together hold one.
pub proof fn turn_completes_once(
    user: Option<(Seq<char>, JsonView)>,
    minted: bool,
    p: PumpView,
    inputs: Seq<InputView>,
    finish: FinishView,
    session: Option<Seq<char>>,
    external: Option<Seq<char>>,
    agent_type: Seq<char>,
    duration_ms: u64,
    model: Option<Seq<char>>,
    disconnect: bool,
)
    ensures
        turn::completions(
            beginning(user, p.session_id, minted) + run(p, inputs).0 + turn::ending(
                finish,
                session,
                external,
                agent_type,
                duration_ms,
                model,
                disconnect,
            ),
        ) == 1,
{
    let a = beginning(user, p.session_id, minted);
    let b = run(p, inputs).0;
    let c = turn::ending(finish, session, external, agent_type, duration_ms, model, disconnect);
    turn::beginning_is_quiet(user, Some(p.session_id));
    assert(turn::completions(a) == 0) by {
        if minted {
            assert(a.drop_last() =~= turn::beginning(user, Some(p.session_id)));
        }
    }
    run_is_quiet(p, inputs);
    turn::ending_completes_once(finish, session, external, agent_type, duration_ms, model, disconnect);
    turn::completions_add_up(a, b);
    turn::completions_add_up(a + b, c);
}

/// The events of every turn are in order: `Prompting` first, an error before the one
/// `TurnComplete`, and `Connected` last if and only if the connection stays, whatever
/// comes in and however the exchange ends.
pub proof fn events_are_in_order(
    user: Option<(Seq<char>, JsonView)>,
    minted: bool,
    p: PumpView,
    inputs: Seq<InputView>,
    finish: FinishView,
    session: Option<Seq<char>>,
    external: Option<Seq<char>>,
    agent_type: Seq<char>,
    duration_ms: u64,
    model: Option<Seq<char>>,
    disconnect: bool,
)
    ensures
        turn::in_order(
            turn::emitted(
                beginning(user, p.session_id, minted) + run(p, inputs).0 + turn::ending(
                    finish,
                    session,
                    external,
                    agent_type,
                    duration_ms,
                    model,
                    disconnect,
                ),
            ),
            finish,
            disconnect,
        ),
{
    turn::beginning_is_quiet(user, Some(p.session_id));
    run_is_quiet(p, inputs);
    turn::turn_is_in_order(
        beginning(user, p.session_id, minted),
        run(p, inputs).0,
        finish,
        session,
        external,
        agent_type,
        duration_ms,
        model,
        disconnect,
    );
}

/// A `result` that comes while a background task runs does not end the turn; if
/// the output then ends, it is the end of the turn.
pub proof fn result_with_background_work_is_deferred(p: PumpView, line: Seq<char>)
    requires
        text::trim(line).len() > 0,
        stream_json::step_line(p.mapper, line).1 is Finished,
        stream_json::step_line(p.mapper, line).0.pending(),
    ensures
        step(p, InputView::Line(line)).2 is None,
        step(step(p, InputView::Line(line)).0, InputView::Closed).2 == Some(
            EndView::Finished(stream_json::step_line(p.mapper, line).1->finish),
        ),
{
}

/// A `result` that leaves nothing in the background ends the turn.
pub proof fn result_without_background_work_ends_the_turn(p: PumpView, line: Seq<char>)
    requires
        text::trim(line).len() > 0,
        stream_json::step_line(p.mapper, line).1 is Finished,
        !stream_json::step_line(p.mapper, line).0.pending(),
    ensures
        step(p, InputView::Line(line)).2 == Some(
            EndView::Finished(stream_json::step_line(p.mapper, line).1->finish),
        ),
{
}

/// Prose of a sub-agent is shown and never recorded.
pub proof fn sidechain_prose_is_live_only(session_id: Seq<char>, e: EventView)
    requires
        sidechain(e),
    ensures
        recorded(session_id, e) == seq![EffectView::Emit(e)],
{
}

} // verus!
