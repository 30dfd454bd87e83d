//! Maps the stream-JSON lines of an agent to events. One mapper per turn.
//!
//! Text and thinking blocks arrive twice: as deltas, and as a whole in an
//! `assistant` frame. The deltas are forwarded; the repeat is dropped unless no
//! delta was seen for the block. Tool calls are announced from the start of
//! their block and completed from the `assistant` frame.
//!
//! While background tasks run the process prints one `result` per follow-up
//! turn, so the mapper tracks which tasks are still live.
use vstd::prelude::*;
use crate::agents;
use crate::agents::DriverKind;
use crate::cli::outcome::{clean, failed, FinishView, LineOutcome, OutcomeView, TurnFinish};
use crate::cli::outcome::{STOP_END_TURN, STOP_UNKNOWN};
use crate::cli::tool_info;
use crate::events;
use crate::events::{AcpEvent, EventView};
use crate::ids::IdSet;
use crate::json;
use crate::json::{Json, JsonView};
use crate::text;

verus! {

/// Maps the lines of one turn.
pub struct StreamMapper {
    session_id: Option<String>,
    cwd: Option<String>,
    announced_tools: IdSet,
    /// Whether the open block of the main thread has been streamed as deltas.
    streamed_main: bool,
    /// The tool calls whose sub-agent's open block has been streamed as deltas.
    streamed_sub: IdSet,
    /// Background tasks of the main thread that still run.
    background: IdSet,
    /// Background tasks of sub-agents that still run. The list of
    /// `background_tasks_changed` leaves them out, so only their own frames
    /// settle them.
    sub_background: IdSet,
    /// Tool calls that run in the background: their immediate result only says
    /// that they were launched.
    background_tools: IdSet,
}

/// The state of a mapper.
#[verifier::ext_equal]
pub struct MapperView {
    pub session_id: Option<Seq<char>>,
    pub cwd: Option<Seq<char>>,
    pub announced: Set<Seq<char>>,
    pub streamed: Set<Option<Seq<char>>>,
    pub background: Set<Seq<char>>,
    pub sub_background: Set<Seq<char>>,
    pub background_tools: Set<Seq<char>>,
}

/// The parents whose open block has been streamed.
pub open spec fn streamed_set(main: bool, sub: Set<Seq<char>>) -> Set<Option<Seq<char>>> {
    Set::new(
        |p: Option<Seq<char>>|
            match p {
                None => main,
                Some(id) => sub.contains(id),
            },
    )
}

impl View for StreamMapper {
    type V = MapperView;

    closed spec fn view(&self) -> MapperView {
        MapperView {
            session_id: self.session_id.deep_view(),
            cwd: self.cwd.deep_view(),
            announced: self.announced_tools@,
            streamed: streamed_set(self.streamed_main, self.streamed_sub@),
            background: self.background@,
            sub_background: self.sub_background@,
            background_tools: self.background_tools@,
        }
    }
}

impl MapperView {
    /// A mapper that has seen nothing.
    pub open spec fn fresh(session_id: Option<Seq<char>>, cwd: Option<Seq<char>>) -> MapperView {
        MapperView {
            session_id,
            cwd,
            announced: Set::empty(),
            streamed: Set::empty(),
            background: Set::empty(),
            sub_background: Set::empty(),
            background_tools: Set::empty(),
        }
    }

    /// Whether a background task still runs.
    pub open spec fn pending(self) -> bool {
        self.background != Set::<Seq<char>>::empty() || self.sub_background != Set::<
            Seq<char>,
        >::empty()
    }

    pub open spec fn with_streamed(self, p: Option<Seq<char>>) -> MapperView {
        MapperView { streamed: self.streamed.insert(p), ..self }
    }

    pub open spec fn without_streamed(self, p: Option<Seq<char>>) -> MapperView {
        MapperView { streamed: self.streamed.remove(p), ..self }
    }

    pub open spec fn with_announced(self, id: Seq<char>) -> MapperView {
        MapperView { announced: self.announced.insert(id), ..self }
    }

    /// The state once a task has ended.
    pub open spec fn settled(self, task: Option<Seq<char>>) -> MapperView {
        match task {
            Some(id) => MapperView {
                background: self.background.remove(id),
                sub_background: self.sub_background.remove(id),
                ..self
            },
            None => self,
        }
    }
}

/// A piece of prose of the main thread or of a sub-agent.
pub open spec fn prose(s: Seq<char>, thinking: bool, parent: Option<Seq<char>>) -> EventView {
    if thinking {
        EventView::Thinking { text: s, parent_tool_use_id: parent }
    } else {
        EventView::ContentDelta { text: s, parent_tool_use_id: parent }
    }
}

/// The tool call that a frame belongs to.
pub open spec fn parent(v: JsonView) -> Option<Seq<char>> {
    v.str_at("parent_tool_use_id"@)
}

/// The text of a tool result.
pub open spec fn result_text(content: JsonView) -> Seq<char> {
    match content {
        JsonView::Str(s) => s,
        JsonView::Array(parts) => text::join(json::texts_at(parts, "text"@), "\n"@),
        JsonView::Null => Seq::empty(),
        other => json::written(other),
    }
}

/// The news that a tool call has a result.
pub open spec fn result_news(id: Seq<char>, status: Seq<char>, content: JsonView) -> EventView {
    EventView::tool_update(
        None,
        id,
        None,
        status,
        None,
        Some(json::written(JsonView::Str(result_text(content)))),
        None,
    )
}

/// Whether a task status means that the task has ended.
pub open spec fn ended(status: Option<Seq<char>>) -> bool {
    ||| status == Some("completed"@)
    ||| status == Some("failed"@)
    ||| status == Some("killed"@)
    ||| status == Some("stopped"@)
    ||| status == Some("cancelled"@)
}

/// The state after a background task was launched.
pub open spec fn launched(m: MapperView, v: JsonView) -> MapperView {
    let sub = v.at("owned_by_subagent"@).as_bool() == Some(true);
    let a = match v.str_at("task_id"@) {
        Some(id) => if sub {
            MapperView { sub_background: m.sub_background.insert(id), ..m }
        } else {
            MapperView { background: m.background.insert(id), ..m }
        },
        None => m,
    };
    match v.str_at("tool_use_id"@) {
        Some(tool) => if sub {
            a
        } else {
            MapperView { background_tools: a.background_tools.insert(tool), ..a }
        },
        None => a,
    }
}

/// State and events after a task notification: the card of a background call of
/// the main thread gets the task's outcome and summary.
pub open spec fn notified(m: MapperView, v: JsonView) -> (MapperView, Seq<EventView>) {
    match v.str_at("tool_use_id"@) {
        Some(tool) => if m.background_tools.contains(tool) {
            (
                MapperView { background_tools: m.background_tools.remove(tool), ..m },
                seq![
                    result_news(
                        tool,
                        if v.str_at("status"@) == Some("completed"@) {
                            "completed"@
                        } else {
                            "failed"@
                        },
                        JsonView::Str(
                            match v.str_at("summary"@) {
                                Some(s) => s,
                                None => Seq::empty(),
                            },
                        ),
                    ),
                ],
            )
        } else {
            (m, Seq::empty())
        },
        None => (m, Seq::empty()),
    }
}

/// State and events after a `system` frame.
pub open spec fn on_system(m: MapperView, v: JsonView) -> (MapperView, Seq<EventView>) {
    let subtype = v.str_at("subtype"@);
    if subtype == Some("init"@) {
        match v.str_at("session_id"@) {
            Some(sid) => if m.session_id != Some(sid) {
                (
                    MapperView { session_id: Some(sid), ..m },
                    seq![EventView::SessionStarted { session_id: sid }],
                )
            } else {
                (m, Seq::empty())
            },
            None => (m, Seq::empty()),
        }
    } else if subtype == Some("background_tasks_changed"@) {
        match v.at("tasks"@).as_array() {
            Some(tasks) => (
                MapperView { background: json::texts_at(tasks, "task_id"@).to_set(), ..m },
                Seq::empty(),
            ),
            None => (m, Seq::empty()),
        }
    } else if subtype == Some("task_started"@) {
        if v.at("is_backgrounded"@).as_bool() == Some(true) {
            (launched(m, v), Seq::empty())
        } else {
            (m, Seq::empty())
        }
    } else if subtype == Some("task_updated"@) {
        if ended(v.at("patch"@).str_at("status"@)) {
            (m.settled(v.str_at("task_id"@)), Seq::empty())
        } else {
            (m, Seq::empty())
        }
    } else if subtype == Some("task_notification"@) {
        notified(m.settled(v.str_at("task_id"@)), v)
    } else {
        (m, Seq::empty())
    }
}

/// State and events after the start of a content block.
pub open spec fn block_started(m: MapperView, p: Option<Seq<char>>, block: JsonView) -> (
    MapperView,
    Seq<EventView>,
) {
    let kind = block.str_at("type"@);
    if kind == Some("tool_use"@) {
        match block.str_at("id"@) {
            Some(id) => if m.announced.contains(id) {
                (m, Seq::empty())
            } else {
                let shown = tool_info::tool_shown(
                    tool_info::or(block.str_at("name"@), ""@),
                    JsonView::empty_object(),
                    m.cwd,
                );
                (
                    m.with_announced(id),
                    seq![
                        EventView::tool_call(
                            None,
                            id,
                            shown.title,
                            shown.kind,
                            "pending"@,
                            None,
                            shown.locations,
                        ),
                    ],
                )
            },
            None => (m, Seq::empty()),
        }
    } else if kind == Some("text"@) || kind == Some("thinking"@) {
        (m.without_streamed(p), Seq::empty())
    } else {
        (m, Seq::empty())
    }
}

/// State and events after a delta of a content block.
pub open spec fn block_delta(m: MapperView, p: Option<Seq<char>>, delta: JsonView) -> (
    MapperView,
    Seq<EventView>,
) {
    if delta.str_at("type"@) == Some("text_delta"@) {
        match delta.filled("text"@) {
            Some(s) => (m.with_streamed(p), seq![prose(s, false, p)]),
            None => (m, Seq::empty()),
        }
    } else if delta.str_at("type"@) == Some("thinking_delta"@) {
        match delta.filled("thinking"@) {
            Some(s) => (m.with_streamed(p), seq![prose(s, true, p)]),
            None => (m, Seq::empty()),
        }
    } else {
        (m, Seq::empty())
    }
}

/// State and events after a `stream_event` frame.
pub open spec fn on_stream_event(m: MapperView, v: JsonView) -> (MapperView, Seq<EventView>) {
    let event = v.at("event"@);
    if event.str_at("type"@) == Some("content_block_start"@) {
        block_started(m, parent(v), event.at("content_block"@))
    } else if event.str_at("type"@) == Some("content_block_delta"@) {
        block_delta(m, parent(v), event.at("delta"@))
    } else {
        (m, Seq::empty())
    }
}

/// State and events after one block of an `assistant` frame.
pub open spec fn whole_block(m: MapperView, p: Option<Seq<char>>, block: JsonView) -> (
    MapperView,
    Seq<EventView>,
) {
    let kind = block.str_at("type"@);
    if kind == Some("text"@) || kind == Some("thinking"@) {
        let thinking = kind != Some("text"@);
        let shown = block.filled(
            if thinking {
                "thinking"@
            } else {
                "text"@
            },
        );
        (
            m.without_streamed(p),
            if shown is Some && !m.streamed.contains(p) {
                seq![prose(shown->0, thinking, p)]
            } else {
                Seq::empty()
            },
        )
    } else if kind == Some("tool_use"@) {
        match block.str_at("id"@) {
            Some(id) => {
                let input = block.at("input"@);
                let shown = tool_info::tool_shown(
                    tool_info::or(block.str_at("name"@), ""@),
                    input,
                    m.cwd,
                );
                let raw = Some(json::written(input));
                (
                    m.with_announced(id),
                    if m.announced.contains(id) {
                        seq![
                            EventView::tool_update(
                                None,
                                id,
                                Some(shown.title),
                                "in_progress"@,
                                raw,
                                None,
                                shown.locations,
                            ),
                        ]
                    } else {
                        seq![
                            EventView::tool_call(
                                None,
                                id,
                                shown.title,
                                shown.kind,
                                "in_progress"@,
                                raw,
                                shown.locations,
                            ),
                        ]
                    },
                )
            },
            None => (m, Seq::empty()),
        }
    } else {
        (m, Seq::empty())
    }
}

/// State and events after the blocks of an `assistant` frame.
pub open spec fn whole_blocks(m: MapperView, p: Option<Seq<char>>, blocks: Seq<JsonView>) -> (
    MapperView,
    Seq<EventView>,
)
    decreases blocks.len(),
{
    if blocks.len() == 0 {
        (m, Seq::empty())
    } else {
        let front = whole_blocks(m, p, blocks.drop_last());
        let last = whole_block(front.0, p, blocks.last());
        (last.0, front.1 + last.1)
    }
}

/// State and events after an `assistant` frame.
pub open spec fn on_assistant(m: MapperView, v: JsonView) -> (MapperView, Seq<EventView>) {
    match v.at("message"@).at("content"@).as_array() {
        Some(blocks) => whole_blocks(m, parent(v), blocks),
        None => (m, Seq::empty()),
    }
}

/// The status that a tool result gives its call.
pub open spec fn result_status(m: MapperView, id: Seq<char>, block: JsonView) -> Seq<char> {
    if block.at("is_error"@).as_bool() == Some(true) {
        "failed"@
    } else if m.background_tools.contains(id) {
        "in_progress"@
    } else {
        "completed"@
    }
}

/// The news in the tool results of a `user` frame.
pub open spec fn results(m: MapperView, blocks: Seq<JsonView>) -> Seq<EventView>
    decreases blocks.len(),
{
    if blocks.len() == 0 {
        Seq::empty()
    } else {
        let front = results(m, blocks.drop_last());
        let block = blocks.last();
        if block.str_at("type"@) == Some("tool_result"@) && block.str_at("tool_use_id"@) is Some {
            let id = block.str_at("tool_use_id"@)->0;
            front.push(result_news(id, result_status(m, id, block), block.at("content"@)))
        } else {
            front
        }
    }
}

/// The events of a `user` frame.
pub open spec fn user_news(m: MapperView, v: JsonView) -> Seq<EventView> {
    match v.at("message"@).at("content"@).as_array() {
        Some(blocks) => results(m, blocks),
        None => Seq::empty(),
    }
}

/// The larger of two optional numbers.
pub open spec fn larger(a: Option<u64>, b: Option<u64>) -> Option<u64> {
    match (a, b) {
        (Some(x), Some(y)) => Some(
            if x < y {
                y
            } else {
                x
            },
        ),
        (None, y) => y,
        (x, None) => x,
    }
}

/// The largest context window of the models used.
pub open spec fn largest_window(models: Seq<(Seq<char>, JsonView)>) -> Option<u64>
    decreases models.len(),
{
    if models.len() == 0 {
        None
    } else {
        larger(
            largest_window(models.drop_last()),
            models.last().1.at("contextWindow"@).as_u64(),
        )
    }
}

/// The tokens that one count contributes.
pub open spec fn tokens(usage: JsonView, key: Seq<char>) -> int {
    match usage.at(key).as_u64() {
        Some(n) => n as int,
        None => 0,
    }
}

/// The context that an API call took up, in tokens, within 64 bits.
pub open spec fn footprint(usage: JsonView) -> u64 {
    let sum = tokens(usage, "input_tokens"@) + tokens(usage, "cache_creation_input_tokens"@)
        + tokens(usage, "cache_read_input_tokens"@) + tokens(usage, "output_tokens"@);
    if sum <= u64::MAX {
        sum as u64
    } else {
        u64::MAX
    }
}

/// The usage of the last API call that a result reports.
pub open spec fn last_usage(usage: JsonView) -> JsonView {
    match usage.at("iterations"@).as_array() {
        Some(a) => if a.len() > 0 {
            a.last()
        } else {
            usage
        },
        None => usage,
    }
}

/// The context used by the last API call and the size of the context window.
pub open spec fn usage(v: JsonView) -> Option<(u64, u64)> {
    match v.at("modelUsage"@) {
        JsonView::Object(models) => match largest_window(models) {
            Some(size) => if size > 0 {
                Some((footprint(last_usage(v.at("usage"@))), size))
            } else {
                None
            },
            None => None,
        },
        _ => None,
    }
}

/// Whether one of the errors says that there is no conversation to resume.
pub open spec fn resume_failed(errors: Seq<Seq<char>>) -> bool {
    exists|i: int|
        0 <= i < errors.len() && text::contains(#[trigger] errors[i], "No conversation found"@)
}

/// How a `result` line ends the turn.
pub open spec fn finish(v: JsonView) -> FinishView {
    let agent = agents::called(DriverKind::Stream);
    let subtype = tool_info::or(v.str_at("subtype"@), ""@);
    let is_error = v.at("is_error"@).as_bool() == Some(true);
    if subtype == "success"@ && !is_error {
        FinishView::clean(
            if v.str_at("stop_reason"@) == Some("refusal"@) {
                "refusal"@
            } else if v.str_at("stop_reason"@) == Some("max_tokens"@) {
                "max_tokens"@
            } else {
                STOP_END_TURN@
            },
        )
    } else if subtype == "success"@ {
        let status = v.at("api_error_status"@).as_u64();
        FinishView::failed(
            if status == Some(401u64) || status == Some(403u64) {
                "auth_required"@
            } else {
                STOP_UNKNOWN@
            },
            "cli_api_error"@,
            tool_info::or(v.filled("result"@), agent + " reported an API error"@),
            match status {
                Some(s) => Some("api_error_status="@ + text::dec(s as nat)),
                None => None,
            },
        )
    } else if subtype == "error_max_turns"@ {
        FinishView::clean("max_turn_requests"@)
    } else {
        let errors = match v.at("errors"@).as_array() {
            Some(a) => json::texts(a),
            None => Seq::empty(),
        };
        FinishView::failed(
            STOP_UNKNOWN@,
            if resume_failed(errors) {
                "cli_resume_failed"@
            } else {
                "cli_execution_error"@
            },
            if errors.len() == 0 {
                agent + " turn failed ("@ + subtype + ")"@
            } else {
                text::join(errors, "; "@)
            },
            Some("subtype="@ + subtype),
        )
    }
}

/// State and outcome after one frame.
pub open spec fn step(m: MapperView, v: JsonView) -> (MapperView, OutcomeView) {
    let kind = v.str_at("type"@);
    if kind == Some("system"@) {
        let (n, e) = on_system(m, v);
        (n, OutcomeView::Events(e))
    } else if kind == Some("stream_event"@) {
        let (n, e) = on_stream_event(m, v);
        (n, OutcomeView::Events(e))
    } else if kind == Some("assistant"@) {
        let (n, e) = on_assistant(m, v);
        (n, OutcomeView::Events(e))
    } else if kind == Some("user"@) {
        (m, OutcomeView::Events(user_news(m, v)))
    } else if kind == Some("result"@) {
        (
            m,
            OutcomeView::Finished {
                events: match usage(v) {
                    Some((used, size)) => seq![EventView::UsageUpdate { used, size }],
                    None => Seq::empty(),
                },
                finish: finish(v),
            },
        )
    } else {
        (m, OutcomeView::Events(Seq::empty()))
    }
}

/// State and outcome after one line of output.
pub open spec fn step_line(m: MapperView, line: Seq<char>) -> (MapperView, OutcomeView) {
    match json::parsed(line) {
        Some(v) => step(m, v),
        None => (m, OutcomeView::Unparsable),
    }
}

impl StreamMapper {
    /// A mapper for a new turn.
    pub fn new(session_id: Option<String>, cwd: Option<String>) -> (r: StreamMapper)
        ensures
            r@ == MapperView::fresh(session_id.deep_view(), cwd.deep_view()),
    {
        let r = StreamMapper {
            session_id,
            cwd,
            announced_tools: IdSet::new(),
            streamed_main: false,
            streamed_sub: IdSet::new(),
            background: IdSet::new(),
            sub_background: IdSet::new(),
            background_tools: IdSet::new(),
        };
        assert(r@.streamed =~= Set::empty());
        r
    }

    /// Whether a background task still runs, so that a `result` seen now is not
    /// the last one that the process prints.
    pub fn background_pending(&self) -> (r: bool)
        ensures
            r == self@.pending(),
    {
        !self.background.is_empty() || !self.sub_background.is_empty()
    }

    /// Notes that the open block of a parent has been streamed.
    fn mark_streamed(&mut self, p: &Option<String>)
        ensures
            final(self)@ == old(self)@.with_streamed(p.deep_view()),
    {
        match p {
            None => {
                self.streamed_main = true;
            },
            Some(id) => {
                self.streamed_sub.insert(id.as_str());
            },
        }
        assert(self@.streamed =~= old(self)@.streamed.insert(p.deep_view()));
    }

    /// Forgets that the open block of a parent has been streamed, and tells
    /// whether it had been.
    fn take_streamed(&mut self, p: &Option<String>) -> (r: bool)
        ensures
            r == old(self)@.streamed.contains(p.deep_view()),
            final(self)@ == old(self)@.without_streamed(p.deep_view()),
    {
        let was = match p {
            None => {
                let was = self.streamed_main;
                self.streamed_main = false;
                was
            },
            Some(id) => self.streamed_sub.remove(id.as_str()),
        };
        assert(self@.streamed =~= old(self)@.streamed.remove(p.deep_view()));
        was
    }

    /// Maps one line of output.
    pub fn map_line(&mut self, line: &str) -> (r: LineOutcome)
        ensures
            (final(self)@, r@) == step_line(old(self)@, line@),
    {
        match json::read_text(line) {
            Some(value) => self.map_value(&value),
            None => LineOutcome::Unparsable,
        }
    }

    /// Maps one frame.
    pub fn map_value(&mut self, value: &Json) -> (r: LineOutcome)
        ensures
            (final(self)@, r@) == step(old(self)@, value@),
    {
        if value.is("type", "system") {
            LineOutcome::Events(self.on_system(value))
        } else if value.is("type", "stream_event") {
            LineOutcome::Events(self.on_stream_event(value))
        } else if value.is("type", "assistant") {
            LineOutcome::Events(self.on_assistant(value))
        } else if value.is("type", "user") {
            LineOutcome::Events(self.on_user(value))
        } else if value.is("type", "result") {
            let events = match usage_from_result(value) {
                Some((used, size)) => events::one(AcpEvent::UsageUpdate { used, size }),
                None => events::none(),
            };
            LineOutcome::Finished { events, finish: finish_from_result(value) }
        } else {
            LineOutcome::Events(events::none())
        }
    }

    /// Handles a `system` frame.
    fn on_system(&mut self, v: &Json) -> (r: Vec<AcpEvent>)
        ensures
            (final(self)@, r.deep_view()) == on_system(old(self)@, v@),
    {
        if v.is("subtype", "init") {
            match v.str_at("session_id") {
                Some(sid) => if !text::is_text(&self.session_id, sid) {
                    self.session_id = Some(sid.to_owned());
                    events::one(AcpEvent::SessionStarted { session_id: sid.to_owned() })
                } else {
                    events::none()
                },
                None => events::none(),
            }
        } else if v.is("subtype", "background_tasks_changed") {
            if let Some(tasks) = v.at("tasks").as_array() {
                self.background = IdSet::of(json::collect_texts_at(tasks, "task_id"));
            }
            events::none()
        } else if v.is("subtype", "task_started") {
            if v.at("is_backgrounded").as_bool() == Some(true) {
                self.on_launch(v);
            }
            events::none()
        } else if v.is("subtype", "task_updated") {
            let patch = v.at("patch");
            if patch.is("status", "completed") || patch.is("status", "failed") || patch.is(
                "status",
                "killed",
            ) || patch.is("status", "stopped") || patch.is("status", "cancelled") {
                self.settle(v);
            }
            events::none()
        } else if v.is("subtype", "task_notification") {
            self.settle(v);
            self.settle_background_tool(v)
        } else {
            events::none()
        }
    }

    /// Notes a launched background task.
    fn on_launch(&mut self, v: &Json)
        ensures
            final(self)@ == launched(old(self)@, v@),
    {
        let by_subagent = v.at("owned_by_subagent").as_bool() == Some(true);
        if let Some(id) = v.str_at("task_id") {
            if by_subagent {
                self.sub_background.insert(id);
            } else {
                self.background.insert(id);
            }
        }
        if !by_subagent {
            if let Some(tool) = v.str_at("tool_use_id") {
                self.background_tools.insert(tool);
            }
        }
    }

    /// Notes that a task has ended.
    fn settle(&mut self, v: &Json)
        ensures
            final(self)@ == old(self)@.settled(v@.str_at("task_id"@)),
    {
        if let Some(id) = v.str_at("task_id") {
            self.background.remove(id);
            self.sub_background.remove(id);
        }
    }

    /// Settles the card of a background call of the main thread.
    fn settle_background_tool(&mut self, v: &Json) -> (r: Vec<AcpEvent>)
        ensures
            (final(self)@, r.deep_view()) == notified(old(self)@, v@),
    {
        proof {
            reveal_strlit("");
            assert(""@ =~= Seq::<char>::empty());
        }
        match v.str_at("tool_use_id") {
            Some(tool) => if self.background_tools.contains(tool) {
                self.background_tools.remove(tool);
                let status = if v.is("status", "completed") {
                    "completed"
                } else {
                    "failed"
                };
                let summary = match v.str_at("summary") {
                    Some(s) => s,
                    None => "",
                };
                events::one(tool_result_update(tool, status, &Json::of_str(summary)))
            } else {
                events::none()
            },
            None => events::none(),
        }
    }

    /// Handles a `stream_event` frame.
    fn on_stream_event(&mut self, v: &Json) -> (r: Vec<AcpEvent>)
        ensures
            (final(self)@, r.deep_view()) == on_stream_event(old(self)@, v@),
    {
        let parent = parent_of(v);
        let event = v.at("event");
        if event.is("type", "content_block_start") {
            self.on_block_start(&parent, event.at("content_block"))
        } else if event.is("type", "content_block_delta") {
            self.on_block_delta(&parent, event.at("delta"))
        } else {
            events::none()
        }
    }

    /// Handles the start of a content block.
    fn on_block_start(&mut self, parent: &Option<String>, block: &Json) -> (r: Vec<AcpEvent>)
        ensures
            (final(self)@, r.deep_view()) == block_started(old(self)@, parent.deep_view(), block@),
    {
        if block.is("type", "tool_use") {
            match block.str_at("id") {
                Some(id) => {
                    if !self.announced_tools.insert(id) {
                        assert(old(self)@.announced.insert(id@) =~= old(self)@.announced);
                        return events::none();
                    }
                    let name = tool_info::text_or(block.str_at("name"), "");
                    let info = tool_info::tool_info(
                        name.as_str(),
                        &Json::empty_object(),
                        text::borrowed(&self.cwd),
                    );
                    events::one(
                        events::tool_call(
                            None,
                            id,
                            info.title,
                            info.kind,
                            "pending",
                            None,
                            info.locations,
                        ),
                    )
                },
                None => events::none(),
            }
        } else if block.is("type", "text") || block.is("type", "thinking") {
            self.take_streamed(parent);
            events::none()
        } else {
            events::none()
        }
    }

    /// Handles a delta of a content block.
    fn on_block_delta(&mut self, parent: &Option<String>, delta: &Json) -> (r: Vec<AcpEvent>)
        ensures
            (final(self)@, r.deep_view()) == block_delta(old(self)@, parent.deep_view(), delta@),
    {
        if delta.is("type", "text_delta") {
            match delta.filled("text") {
                Some(s) => {
                    self.mark_streamed(parent);
                    events::one(text_event(s, false, text::copied(parent)))
                },
                None => events::none(),
            }
        } else if delta.is("type", "thinking_delta") {
            match delta.filled("thinking") {
                Some(s) => {
                    self.mark_streamed(parent);
                    events::one(text_event(s, true, text::copied(parent)))
                },
                None => events::none(),
            }
        } else {
            events::none()
        }
    }

    /// Handles an `assistant` frame.
    fn on_assistant(&mut self, v: &Json) -> (r: Vec<AcpEvent>)
        ensures
            (final(self)@, r.deep_view()) == on_assistant(old(self)@, v@),
    {
        let parent = parent_of(v);
        match v.at("message").at("content").as_array() {
            Some(blocks) => {
                let mut out = events::none();
                let ghost all = blocks.deep_view();
                let ghost p = parent.deep_view();
                assert(all.take(0) =~= Seq::empty());
                for i in 0..blocks.len()
                    invariant
                        all == blocks.deep_view(),
                        p == parent.deep_view(),
                        (self@, out.deep_view()) == whole_blocks(old(self)@, p, all.take(i as int)),
                {
                    assert(all.take(i + 1).drop_last() =~= all.take(i as int));
                    assert(all.take(i + 1).last() == blocks@[i as int]@);
                    let more = self.on_whole_block(&parent, &blocks[i]);
                    events::extend(&mut out, more);
                }
                assert(all.take(all.len() as int) =~= all);
                out
            },
            None => events::none(),
        }
    }

    /// Handles one block of an `assistant` frame.
    fn on_whole_block(&mut self, parent: &Option<String>, block: &Json) -> (r: Vec<AcpEvent>)
        ensures
            (final(self)@, r.deep_view()) == whole_block(old(self)@, parent.deep_view(), block@),
    {
        if block.is("type", "text") || block.is("type", "thinking") {
            let thinking = !block.is("type", "text");
            let streamed = self.take_streamed(parent);
            let shown = block.filled(
                if thinking {
                    "thinking"
                } else {
                    "text"
                },
            );
            match shown {
                Some(s) => if streamed {
                    events::none()
                } else {
                    events::one(text_event(s, thinking, text::copied(parent)))
                },
                None => events::none(),
            }
        } else if block.is("type", "tool_use") {
            match block.str_at("id") {
                Some(id) => {
                    let name = tool_info::text_or(block.str_at("name"), "");
                    let input = block.at("input");
                    let info = tool_info::tool_info(
                        name.as_str(),
                        input,
                        text::borrowed(&self.cwd),
                    );
                    let raw_input = Some(input.write());
                    if self.announced_tools.insert(id) {
                        events::one(
                            events::tool_call(
                                None,
                                id,
                                info.title,
                                info.kind,
                                "in_progress",
                                raw_input,
                                info.locations,
                            ),
                        )
                    } else {
                        events::one(
                            events::tool_update(
                                None,
                                id,
                                Some(info.title),
                                "in_progress",
                                raw_input,
                                None,
                                info.locations,
                            ),
                        )
                    }
                },
                None => events::none(),
            }
        } else {
            events::none()
        }
    }

    /// Handles a `user` frame: the results of tool calls.
    pub fn on_user(&self, v: &Json) -> (r: Vec<AcpEvent>)
        ensures
            r.deep_view() == user_news(self@, v@),
    {
        match v.at("message").at("content").as_array() {
            Some(blocks) => {
                let mut out = events::none();
                let ghost all = blocks.deep_view();
                assert(all.take(0) =~= Seq::empty());
                for i in 0..blocks.len()
                    invariant
                        all == blocks.deep_view(),
                        out.deep_view() == results(self@, all.take(i as int)),
                {
                    assert(all.take(i + 1).drop_last() =~= all.take(i as int));
                    assert(all.take(i + 1).last() == blocks@[i as int]@);
                    let block = &blocks[i];
                    if block.is("type", "tool_result") {
                        if let Some(id) = block.str_at("tool_use_id") {
                            let status = if block.at("is_error").as_bool() == Some(true) {
                                "failed"
                            } else if self.background_tools.contains(id) {
                                "in_progress"
                            } else {
                                "completed"
                            };
                            events::add_to(
                                &mut out,
                                tool_result_update(id, status, block.at("content")),
                            );
                        }
                    }
                }
                assert(all.take(all.len() as int) =~= all);
                out
            },
            None => events::none(),
        }
    }
}

/// The news that a tool call has a result.
fn tool_result_update(id: &str, status: &str, content: &Json) -> (r: AcpEvent)
    ensures
        r@ == result_news(id@, status@, content@),
{
    let output = Json::Str(tool_result_text(content)).write();
    events::tool_update(None, id, None, status, None, Some(output), None)
}

/// A piece of prose.
pub fn text_event(text: &str, thinking: bool, parent_tool_use_id: Option<String>) -> (r: AcpEvent)
    ensures
        r@ == prose(text@, thinking, parent_tool_use_id.deep_view()),
{
    if thinking {
        AcpEvent::Thinking { text: text.to_owned(), parent_tool_use_id }
    } else {
        AcpEvent::ContentDelta { text: text.to_owned(), parent_tool_use_id }
    }
}

/// The tool call that a frame belongs to.
fn parent_of(v: &Json) -> (r: Option<String>)
    ensures
        r.deep_view() == parent(v@),
{
    text::owned(v.str_at("parent_tool_use_id"))
}

/// The text of a tool result.
fn tool_result_text(content: &Json) -> (r: String)
    ensures
        r@ == result_text(content@),
{
    match content {
        Json::Str(s) => s.clone(),
        Json::Array(parts) => {
            proof {
                json::array_content(*parts);
            }
            text::joined(&json::collect_texts_at(parts, "text"), "\n")
        },
        Json::Null => String::new(),
        other => other.write(),
    }
}

/// The tokens that one count contributes.
fn token_count(usage: &Json, key: &str) -> (r: u64)
    ensures
        r == tokens(usage@, key@),
{
    match usage.at(key).as_u64() {
        Some(n) => n,
        None => 0,
    }
}

/// The context used by the last API call and the size of the context window. A
/// sum past 64 bits counts as the largest number.
fn usage_from_result(v: &Json) -> (r: Option<(u64, u64)>)
    ensures
        r == usage(v@),
{
    match v.at("modelUsage") {
        Json::Object(models) => {
            proof {
                json::object_content(*models);
            }
            let mut best: Option<u64> = None;
            let ghost all = models.deep_view();
            assert(all.take(0) =~= Seq::empty());
            for i in 0..models.len()
                invariant
                    all == models.deep_view(),
                    best == largest_window(all.take(i as int)),
            {
                assert(all.take(i + 1).drop_last() =~= all.take(i as int));
                assert(all.take(i + 1).last() == (models@[i as int].0@, models@[i as int].1@));
                let window = models[i].1.at("contextWindow").as_u64();
                best = match (best, window) {
                    (Some(x), Some(y)) => Some(
                        if x < y {
                            y
                        } else {
                            x
                        },
                    ),
                    (None, y) => y,
                    (x, None) => x,
                };
            }
            assert(all.take(all.len() as int) =~= all);
            match best {
                Some(size) => if size > 0 {
                    let usage = v.at("usage");
                    let last = match usage.at("iterations").as_array() {
                        Some(a) => if a.len() > 0 {
                            &a[a.len() - 1]
                        } else {
                            usage
                        },
                        None => usage,
                    };
                    let sum: u128 = token_count(last, "input_tokens") as u128 + token_count(
                        last,
                        "cache_creation_input_tokens",
                    ) as u128 + token_count(last, "cache_read_input_tokens") as u128 + token_count(
                        last,
                        "output_tokens",
                    ) as u128;
                    let used: u64 = if sum <= u64::MAX as u128 {
                        sum as u64
                    } else {
                        u64::MAX
                    };
                    Some((used, size))
                } else {
                    None
                },
                None => None,
            }
        },
        _ => None,
    }
}

/// Whether one of the errors says that there is no conversation to resume.
fn is_resume_failure(errors: &Vec<String>) -> (r: bool)
    ensures
        r == resume_failed(errors.deep_view()),
{
    for i in 0..errors.len()
        invariant
            forall|j: int|
                0 <= j < i ==> !text::contains(
                    #[trigger] errors.deep_view()[j],
                    "No conversation found"@,
                ),
    {
        assert(errors.deep_view()[i as int] == errors@[i as int]@);
        if text::has(errors[i].as_str(), "No conversation found") {
            return true;
        }
    }
    false
}

/// How a `result` line ends the turn.
pub fn finish_from_result(v: &Json) -> (r: TurnFinish)
    ensures
        r@ == finish(v@),
{
    let agent = agents::name_of(DriverKind::Stream);
    let subtype = tool_info::text_or(v.str_at("subtype"), "");
    let is_error = v.at("is_error").as_bool() == Some(true);
    if text::same(subtype.as_str(), "success") && !is_error {
        if v.is("stop_reason", "refusal") {
            clean("refusal")
        } else if v.is("stop_reason", "max_tokens") {
            clean("max_tokens")
        } else {
            clean(STOP_END_TURN)
        }
    } else if text::same(subtype.as_str(), "success") {
        let status = v.at("api_error_status").as_u64();
        let reason = if status == Some(401u64) || status == Some(403u64) {
            "auth_required"
        } else {
            STOP_UNKNOWN
        };
        let details = match status {
            Some(s) => Some(text::cat2("api_error_status=", text::dec_u64(s).as_str())),
            None => None,
        };
        failed(
            reason,
            "cli_api_error",
            tool_info::text_or(
                v.filled("result"),
                text::cat2(agent.as_str(), " reported an API error").as_str(),
            ),
            details,
        )
    } else if text::same(subtype.as_str(), "error_max_turns") {
        clean("max_turn_requests")
    } else {
        let errors = match v.at("errors").as_array() {
            Some(a) => json::collect_texts(a),
            None => Vec::new(),
        };
        assert(v@.at("errors"@).as_array() is None ==> errors.deep_view() =~= Seq::empty());
        let code = if is_resume_failure(&errors) {
            "cli_resume_failed"
        } else {
            "cli_execution_error"
        };
        let message = if errors.len() == 0 {
            text::cat4(agent.as_str(), " turn failed (", subtype.as_str(), ")")
        } else {
            text::joined(&errors, "; ")
        };
        failed(
            STOP_UNKNOWN,
            code,
            message,
            Some(text::cat2("subtype=", subtype.as_str())),
        )
    }
}

/// The frame kinds are distinct.
pub(crate) proof fn kinds_are_distinct()
    ensures
        "stream_event"@ != "system"@,
        "assistant"@ != "system"@,
        "assistant"@ != "stream_event"@,
        "user"@ != "system"@,
        "user"@ != "stream_event"@,
        "user"@ != "assistant"@,
        "result"@ != "system"@,
        "result"@ != "stream_event"@,
        "result"@ != "assistant"@,
        "result"@ != "user"@,
{
    reveal_strlit("system");
    reveal_strlit("stream_event");
    reveal_strlit("assistant");
    reveal_strlit("user");
    reveal_strlit("result");
    assert("system"@.len() == 6 && "stream_event"@.len() == 12 && "assistant"@.len() == 9
        && "user"@.len() == 4 && "result"@.len() == 6);
    assert("result"@[0] == 'r' && "system"@[0] == 's');
}

/// The kinds of `system` frames that concern tasks are distinct.
pub(crate) proof fn task_frames_are_distinct()
    ensures
        "background_tasks_changed"@ != "init"@,
        "task_started"@ != "init"@,
        "task_started"@ != "background_tasks_changed"@,
        "task_updated"@ != "init"@,
        "task_updated"@ != "background_tasks_changed"@,
        "task_updated"@ != "task_started"@,
        "task_notification"@ != "init"@,
        "task_notification"@ != "background_tasks_changed"@,
        "task_notification"@ != "task_started"@,
        "task_notification"@ != "task_updated"@,
{
    reveal_strlit("init");
    reveal_strlit("background_tasks_changed");
    reveal_strlit("task_started");
    reveal_strlit("task_updated");
    reveal_strlit("task_notification");
    assert("init"@.len() == 4 && "background_tasks_changed"@.len() == 24 && "task_started"@.len()
        == 12 && "task_updated"@.len() == 12 && "task_notification"@.len() == 17);
    assert("task_started"@[5] == 's' && "task_updated"@[5] == 'u');
}

/// A turn is finished by `result` frames and by no others.
pub proof fn only_results_finish(m: MapperView, v: JsonView)
    ensures
        step(m, v).1 is Finished <==> v.str_at("type"@) == Some("result"@),
{
    kinds_are_distinct();
}

/// A list of the main thread's background tasks, even an empty one, leaves the
/// background tasks of sub-agents running.
pub proof fn list_keeps_subagent_tasks(m: MapperView, v: JsonView)
    requires
        v.str_at("type"@) == Some("system"@),
        v.str_at("subtype"@) == Some("background_tasks_changed"@),
    ensures
        step(m, v).0.sub_background == m.sub_background,
        m.sub_background != Set::<Seq<char>>::empty() ==> step(m, v).0.pending(),
{
    task_frames_are_distinct();
}

/// A background task keeps the turn pending from its start until a frame of its
/// own settles it: right after the start the mapper is pending.
pub proof fn launch_makes_pending(m: MapperView, v: JsonView)
    requires
        v.str_at("type"@) == Some("system"@),
        v.str_at("subtype"@) == Some("task_started"@),
        v.at("is_backgrounded"@).as_bool() == Some(true),
        v.str_at("task_id"@) is Some,
    ensures
        step(m, v).0.pending(),
{
    task_frames_are_distinct();
    let n = step(m, v).0;
    let id = v.str_at("task_id"@)->0;
    assert(n.background.contains(id) || n.sub_background.contains(id));
}

/// A session is announced once: the frame that announced it announces nothing
/// when it comes again.
pub proof fn session_is_announced_once(m: MapperView, v: JsonView)
    requires
        v.str_at("type"@) == Some("system"@),
        v.str_at("subtype"@) == Some("init"@),
    ensures
        step(step(m, v).0, v) == (step(m, v).0, OutcomeView::Events(Seq::empty())),
{
}

/// Prose that was streamed is not sent again by the `assistant` frame that
/// repeats its block.
pub proof fn streamed_prose_is_not_repeated(m: MapperView, delta: JsonView, whole: JsonView)
    requires
        delta.str_at("type"@) == Some("stream_event"@),
        delta.at("event"@).str_at("type"@) == Some("content_block_delta"@),
        step(m, delta).1 != OutcomeView::Events(Seq::empty()),
        whole.str_at("type"@) == Some("assistant"@),
        parent(whole) == parent(delta),
        whole.at("message"@).at("content"@).as_array() matches Some(blocks) && blocks.len() == 1
            && (blocks[0].str_at("type"@) == Some("text"@) || blocks[0].str_at("type"@) == Some(
            "thinking"@,
        )),
    ensures
        step(step(m, delta).0, whole).1 == OutcomeView::Events(Seq::empty()),
{
    kinds_are_distinct();
    reveal_strlit("content_block_start");
    reveal_strlit("content_block_delta");
    assert("content_block_start"@[14] == 's' && "content_block_delta"@[14] == 'd');
    let n = step(m, delta).0;
    let blocks = whole.at("message"@).at("content"@).as_array()->0;
    assert(n.streamed.contains(parent(whole)));
    reveal_with_fuel(whole_blocks, 2);
    assert(blocks.drop_last() =~= Seq::empty());
    assert(whole_blocks(n, parent(whole), blocks).1 =~= Seq::empty());
}

/// The announcement of a tool call.
pub open spec fn announces(e: EventView, id: Seq<char>) -> bool {
    e is ToolCall && e->ToolCall_tool_call_id == id
}

/// The blocks of one frame announce no tool call that was announced before, and
/// forget none.
proof fn blocks_announce_once(m: MapperView, p: Option<Seq<char>>, blocks: Seq<JsonView>, id: Seq<char>)
    requires
        m.announced.contains(id),
    ensures
        whole_blocks(m, p, blocks).0.announced.contains(id),
        forall|i: int|
            0 <= i < whole_blocks(m, p, blocks).1.len() ==> !announces(
                #[trigger] whole_blocks(m, p, blocks).1[i],
                id,
            ),
    decreases blocks.len(),
{
    if blocks.len() > 0 {
        blocks_announce_once(m, p, blocks.drop_last(), id);
        let front = whole_blocks(m, p, blocks.drop_last());
        let last = whole_block(front.0, p, blocks.last());
        assert(front.0.announced.contains(id));
        let all = whole_blocks(m, p, blocks).1;
        assert forall|i: int| 0 <= i < all.len() implies !announces(#[trigger] all[i], id) by {
            if i < front.1.len() {
                assert(all[i] == front.1[i]);
            } else {
                assert(all[i] == last.1[i - front.1.len()]);
            }
        }
    }
}

/// The events of an outcome.
pub open spec fn events_of(o: OutcomeView) -> Seq<EventView> {
    match o {
        OutcomeView::Events(e) => e,
        OutcomeView::Finished { events, .. } => events,
        OutcomeView::Unparsable => Seq::empty(),
    }
}

/// The results of tool calls announce nothing.
proof fn results_announce_nothing(m: MapperView, blocks: Seq<JsonView>)
    ensures
        forall|i: int| 0 <= i < results(m, blocks).len() ==> #[trigger] results(m, blocks)[i] is ToolCallUpdate,
    decreases blocks.len(),
{
    if blocks.len() > 0 {
        results_announce_nothing(m, blocks.drop_last());
        let front = results(m, blocks.drop_last());
        let all = results(m, blocks);
        assert forall|i: int| 0 <= i < all.len() implies #[trigger] all[i] is ToolCallUpdate by {
            if i < front.len() {
                assert(all[i] == front[i]);
            }
        }
    }
}

/// A tool call is announced at most once: no later frame announces it again, and
/// the mapper never forgets that it was announced.
pub proof fn tool_is_announced_once(m: MapperView, v: JsonView, id: Seq<char>)
    requires
        m.announced.contains(id),
    ensures
        step(m, v).0.announced.contains(id),
        forall|i: int|
            0 <= i < events_of(step(m, v).1).len() ==> !announces(
                #[trigger] events_of(step(m, v).1)[i],
                id,
            ),
{
    match v.at("message"@).at("content"@).as_array() {
        Some(blocks) => {
            blocks_announce_once(m, parent(v), blocks, id);
            results_announce_nothing(m, blocks);
        },
        None => {},
    }
}

/// The launch of a background call is no completion: while the call runs, a
/// result without an error leaves it in progress.
pub proof fn launch_is_not_completion(m: MapperView, started: JsonView, block: JsonView, tool: Seq<char>)
    requires
        started.str_at("type"@) == Some("system"@),
        started.str_at("subtype"@) == Some("task_started"@),
        started.at("is_backgrounded"@).as_bool() == Some(true),
        started.at("owned_by_subagent"@).as_bool() != Some(true),
        started.str_at("tool_use_id"@) == Some(tool),
        block.at("is_error"@).as_bool() != Some(true),
    ensures
        result_status(step(m, started).0, tool, block) == "in_progress"@,
{
    task_frames_are_distinct();
}

/// A notification settles the card of a background call once: it completes or
/// fails it, and the same notification then has nothing more to settle.
pub proof fn notification_settles_once(m: MapperView, v: JsonView, tool: Seq<char>)
    requires
        v.str_at("type"@) == Some("system"@),
        v.str_at("subtype"@) == Some("task_notification"@),
        v.str_at("tool_use_id"@) == Some(tool),
        m.background_tools.contains(tool),
    ensures
        events_of(step(m, v).1).len() == 1,
        events_of(step(m, v).1)[0] matches EventView::ToolCallUpdate {
            tool_call_id,
            status,
            ..
        } && tool_call_id == tool && (status == Some("completed"@) || status == Some("failed"@)),
        events_of(step(step(m, v).0, v).1).len() == 0,
{
    task_frames_are_distinct();
}

} // verus!
