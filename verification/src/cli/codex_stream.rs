//! Maps the notifications of the Codex app server to events. One mapper per turn.
//!
//! Items are keyed by their id. Agent messages and reasoning stream as deltas
//! and are repeated whole when they complete. Tool items become a card that is
//! opened when they start and settled when they complete.
use vstd::prelude::*;
use crate::cli::dsh_stream;
use crate::cli::outcome::{clean, failed, FinishView, LineOutcome, OutcomeView};
use crate::cli::outcome::{STOP_CANCELLED, STOP_END_TURN, STOP_UNKNOWN};
use crate::cli::tool_info;
use crate::cli::tool_info::{info, text_or, ToolInfo, ToolInfoView};
use crate::events;
use crate::events::{AcpEvent, EventView};
use crate::ids;
use crate::ids::IdSet;
use crate::json;
use crate::json::{Json, JsonView};
use crate::paths;
use crate::text;

verus! {

/// Maps the notifications of one turn.
pub struct CodexStreamMapper {
    cwd: Option<String>,
    /// The context window of the model, in tokens, where it is known.
    context_window: Option<u64>,
    /// The turn that this mapper follows; notifications of other turns are
    /// ignored once it is known.
    turn_id: Option<String>,
    /// Whether the last block was text, to keep two messages apart that arrive
    /// back to back.
    after_text: bool,
    /// Items that already streamed deltas.
    streamed: IdSet,
    /// Tool items whose card is open.
    open_tools: IdSet,
    /// Context used and size of the context window.
    usage: Option<(u64, u64)>,
    /// The last error that is not tried again.
    last_error: Option<String>,
}

/// The state of a mapper.
#[verifier::ext_equal]
pub struct CodexView {
    pub cwd: Option<Seq<char>>,
    pub context_window: Option<u64>,
    pub turn_id: Option<Seq<char>>,
    pub after_text: bool,
    pub streamed: Set<Seq<char>>,
    /// In the order in which the cards were opened.
    pub open_tools: Seq<Seq<char>>,
    pub usage: Option<(u64, u64)>,
    pub last_error: Option<Seq<char>>,
}

impl View for CodexStreamMapper {
    type V = CodexView;

    closed spec fn view(&self) -> CodexView {
        CodexView {
            cwd: self.cwd.deep_view(),
            context_window: self.context_window,
            turn_id: self.turn_id.deep_view(),
            after_text: self.after_text,
            streamed: self.streamed@,
            open_tools: self.open_tools.order(),
            usage: self.usage,
            last_error: self.last_error.deep_view(),
        }
    }
}

/// Whether an item is a tool call.
pub open spec fn tool_item(kind: Seq<char>) -> bool {
    ||| kind == "commandExecution"@
    ||| kind == "fileChange"@
    ||| kind == "mcpToolCall"@
    ||| kind == "webSearch"@
    ||| kind == "dynamicToolCall"@
    ||| kind == "collabAgentToolCall"@
    ||| kind == "imageGeneration"@
}

/// The kind of an item, the empty text where it has none.
pub open spec fn kind_of(item: JsonView) -> Seq<char> {
    tool_info::or(item.str_at("type"@), ""@)
}

/// Whether a tool item failed.
pub open spec fn item_failed(item: JsonView) -> bool {
    ||| item.str_at("status"@) == Some("failed"@)
    ||| item.str_at("status"@) == Some("declined"@)
    ||| item.at("error"@) != JsonView::Null
    ||| item.at("success"@).as_bool() == Some(false)
    ||| item.str_at("type"@) == Some("commandExecution"@) && item.at("exitCode"@).as_i64() is Some
        && item.at("exitCode"@).as_i64() != Some(0i64)
}

/// The command inside a `bash -lc '…'` wrapper.
pub open spec fn inner_command(command: Seq<char>) -> Option<Seq<char>> {
    let rest = match text::without_prefix(command, "/bin/bash -lc "@) {
        Some(r) => Some(r),
        None => text::without_prefix(command, "bash -lc "@),
    };
    match rest {
        Some(r) => match text::without_prefix(r, "'"@) {
            Some(q) => text::without_suffix(q, "'"@),
            None => None,
        },
        None => None,
    }
}

/// The texts that the items of an array member have under a key.
pub open spec fn texts_in(item: JsonView, list: Seq<char>, key: Seq<char>) -> Seq<Seq<char>> {
    match item.at(list).as_array() {
        Some(a) => json::texts_at(a, key),
        None => Seq::empty(),
    }
}

/// The command that the model asked for.
pub open spec fn shown_command(item: JsonView) -> Seq<char> {
    let actions = texts_in(item, "commandActions"@, "command"@);
    if actions.len() > 0 {
        text::join(actions, " && "@)
    } else {
        let command = tool_info::or(item.str_at("command"@), "Terminal"@);
        tool_info::or(inner_command(command), command)
    }
}

/// How a path is shown: relative to the working directory where it lies below it.
pub open spec fn shown_path(path: Seq<char>, cwd: Option<Seq<char>>) -> Seq<char> {
    match cwd {
        Some(base) => match paths::relative(path, base) {
            Some(rel) => if rel.len() > 0 {
                rel
            } else {
                path
            },
            None => path,
        },
        None => path,
    }
}

/// One changed file, as the input of a card.
pub open spec fn change_input(c: JsonView) -> JsonView {
    JsonView::empty_object().with("path"@, c.at("path"@)).with(
        "kind"@,
        c.at("kind"@).at("type"@),
    )
}

/// The items of an array member.
pub open spec fn items_of(item: JsonView, list: Seq<char>) -> Seq<JsonView> {
    match item.at(list).as_array() {
        Some(a) => a,
        None => Seq::empty(),
    }
}

/// What a card shows as the input of its call.
pub open spec fn input_of(item: JsonView) -> JsonView {
    let kind = kind_of(item);
    if kind == "commandExecution"@ {
        JsonView::empty_object().with("command"@, JsonView::Str(shown_command(item))).with(
            "cwd"@,
            item.at("cwd"@),
        )
    } else if kind == "fileChange"@ {
        JsonView::empty_object().with(
            "changes"@,
            JsonView::Array(items_of(item, "changes"@).map_values(|c: JsonView| change_input(c))),
        )
    } else if kind == "mcpToolCall"@ || kind == "dynamicToolCall"@ {
        item.at("arguments"@)
    } else if kind == "webSearch"@ {
        JsonView::empty_object().with("query"@, item.at("query"@))
    } else {
        JsonView::empty_object()
    }
}

/// The paths and diffs of the changed files.
pub open spec fn diffs(changes: Seq<JsonView>) -> Seq<Seq<char>>
    decreases changes.len(),
{
    if changes.len() == 0 {
        Seq::empty()
    } else {
        let front = diffs(changes.drop_last());
        let c = changes.last();
        match c.str_at("path"@) {
            Some(path) => front.push(path + "\n"@ + tool_info::or(c.str_at("diff"@), ""@)),
            None => front,
        }
    }
}

/// A readable message of an error. An upstream error arrives as JSON inside the
/// message and is unwrapped.
pub open spec fn message_of(error: JsonView) -> Option<Seq<char>> {
    match error.filled("message"@) {
        Some(raw) => match json::parsed(raw) {
            Some(v) => match v.at("error"@).str_at("message"@) {
                Some(inner) => Some(inner),
                None => Some(raw),
            },
            None => Some(raw),
        },
        None => None,
    }
}

/// What a card shows as the result of an MCP call.
pub open spec fn mcp_output(item: JsonView) -> JsonView {
    match message_of(item.at("error"@)) {
        Some(message) => JsonView::Str(message),
        None => {
            let content = item.at("result"@).at("content"@);
            match content.as_array() {
                Some(blocks) => {
                    let said = json::texts_at(blocks, "text"@);
                    if said.len() == 0 {
                        content
                    } else {
                        JsonView::Str(text::join(said, "\n"@))
                    }
                },
                None => item.at("result"@),
            }
        },
    }
}

/// What a card shows as the result of its call.
pub open spec fn output_of(item: JsonView) -> JsonView {
    let kind = kind_of(item);
    if kind == "commandExecution"@ {
        JsonView::Str(tool_info::or(item.str_at("aggregatedOutput"@), ""@))
    } else if kind == "fileChange"@ {
        JsonView::Str(text::join(diffs(items_of(item, "changes"@)), "\n"@))
    } else if kind == "mcpToolCall"@ {
        mcp_output(item)
    } else if kind == "dynamicToolCall"@ {
        item.at("contentItems"@)
    } else {
        JsonView::Null
    }
}

/// The canonical name of the tool of an item.
pub open spec fn name_of(item: JsonView) -> Option<Seq<char>> {
    let kind = kind_of(item);
    if kind == "commandExecution"@ {
        Some("Bash"@)
    } else if kind == "fileChange"@ {
        Some("Edit"@)
    } else if kind == "webSearch"@ {
        Some("WebSearch"@)
    } else if kind == "imageGeneration"@ {
        Some("ImageGeneration"@)
    } else if kind == "mcpToolCall"@ {
        Some(
            "mcp__"@ + tool_info::or(item.filled("server"@), "mcp"@) + "__"@ + tool_info::or(
                item.filled("tool"@),
                "tool"@,
            ),
        )
    } else if kind == "dynamicToolCall"@ || kind == "collabAgentToolCall"@ {
        item.filled("tool"@)
    } else if kind == ""@ {
        None
    } else {
        Some(kind)
    }
}

/// The places of several files.
pub open spec fn places(paths: Seq<Seq<char>>) -> JsonView {
    JsonView::Array(
        paths.map_values(
            |p: Seq<char>| JsonView::empty_object().with("path"@, JsonView::Str(p)),
        ),
    )
}

/// How a Codex tool item is shown.
pub open spec fn codex_shown(item: JsonView, cwd: Option<Seq<char>>) -> ToolInfoView {
    let kind = kind_of(item);
    if kind == "commandExecution"@ {
        ToolInfoView::plain(shown_command(item), "execute"@)
    } else if kind == "fileChange"@ {
        let files = texts_in(item, "changes"@, "path"@);
        ToolInfoView {
            title: if files.len() == 1 {
                "Edit "@ + shown_path(files[0], cwd)
            } else if files.len() == 0 {
                "Edit files"@
            } else {
                "Edit "@ + text::dec(files.len()) + " files"@
            },
            kind: "edit"@,
            locations: if files.len() > 0 {
                Some(places(files))
            } else {
                None
            },
        }
    } else if kind == "mcpToolCall"@ {
        ToolInfoView::plain(
            tool_info::or(item.filled("server"@), "mcp"@) + ": "@ + tool_info::or(
                item.filled("tool"@),
                "tool"@,
            ),
            "other"@,
        )
    } else if kind == "webSearch"@ {
        ToolInfoView::plain(tool_info::or(item.filled("query"@), "Web search"@), "fetch"@)
    } else if kind == "dynamicToolCall"@ {
        ToolInfoView::plain(tool_info::or(item.filled("tool"@), "Tool"@), "other"@)
    } else if kind == "collabAgentToolCall"@ {
        ToolInfoView::plain(tool_info::or(item.filled("tool"@), "Task"@), "think"@)
    } else if kind == "imageGeneration"@ {
        ToolInfoView::plain("Generate image"@, "other"@)
    } else {
        ToolInfoView::plain(kind, "other"@)
    }
}

/// The texts of a list that are not empty.
pub open spec fn nonempty(parts: Seq<Seq<char>>) -> Seq<Seq<char>>
    decreases parts.len(),
{
    if parts.len() == 0 {
        Seq::empty()
    } else if parts.last().len() > 0 {
        nonempty(parts.drop_last()).push(parts.last())
    } else {
        nonempty(parts.drop_last())
    }
}

/// The paragraphs of a list of texts, if there is any.
pub open spec fn paragraphs(parts: JsonView) -> Option<Seq<char>> {
    match parts.as_array() {
        Some(a) => {
            let said = nonempty(json::texts(a));
            if said.len() > 0 {
                Some(text::join(said, "\n\n"@))
            } else {
                None
            }
        },
        None => None,
    }
}

/// Whether a message says that the credential was refused.
pub open spec fn auth_error(message: Seq<char>) -> bool {
    let l = text::lower(message);
    text::contains(l, "401"@) || text::contains(l, "403"@) || text::contains(l, "unauthorized"@)
        || text::contains(l, "invalid api key"@) || text::contains(l, "invalid_api_key"@)
}

/// A piece of text of the main thread.
pub open spec fn said(s: Seq<char>) -> Seq<EventView> {
    seq![EventView::ContentDelta { text: s, parent_tool_use_id: None }]
}

/// A piece of thinking of the main thread.
pub open spec fn thought(s: Seq<char>) -> Seq<EventView> {
    seq![EventView::Thinking { text: s, parent_tool_use_id: None }]
}

/// The state with a note that an item streamed.
pub open spec fn noted(m: CodexView, id: Option<Seq<char>>) -> CodexView {
    match id {
        Some(i) => CodexView { streamed: m.streamed.insert(i), ..m },
        None => m,
    }
}

/// State and events after a delta of a message.
pub open spec fn on_text_delta(m: CodexView, p: JsonView) -> (CodexView, Seq<EventView>) {
    match p.filled("delta"@) {
        Some(d) => (CodexView { after_text: true, ..noted(m, p.str_at("itemId"@)) }, said(d)),
        None => (m, Seq::empty()),
    }
}

/// State and events after a delta of reasoning.
pub open spec fn on_reasoning_delta(m: CodexView, p: JsonView) -> (CodexView, Seq<EventView>) {
    match p.filled("delta"@) {
        Some(d) => (CodexView { after_text: false, ..noted(m, p.str_at("itemId"@)) }, thought(d)),
        None => (m, Seq::empty()),
    }
}

/// The announcement of a tool item.
pub open spec fn card(item: JsonView, id: Seq<char>, cwd: Option<Seq<char>>) -> EventView {
    let shown = codex_shown(item, cwd);
    EventView::tool_call(
        name_of(item),
        id,
        shown.title,
        shown.kind,
        "in_progress"@,
        Some(json::written(input_of(item))),
        shown.locations,
    )
}

/// State and events after an item started.
pub open spec fn on_started(m: CodexView, item: JsonView) -> (CodexView, Seq<EventView>) {
    match (item.str_at("id"@), item.str_at("type"@)) {
        (Some(id), Some(kind)) => if kind == "agentMessage"@ && m.after_text {
            (CodexView { after_text: false, ..m }, said("\n\n"@))
        } else if tool_item(kind) {
            (
                CodexView {
                    open_tools: ids::added(m.open_tools, id),
                    after_text: false,
                    ..m
                },
                seq![card(item, id, m.cwd)],
            )
        } else {
            (m, Seq::empty())
        },
        _ => (m, Seq::empty()),
    }
}

/// The news that a tool item is done.
pub open spec fn done(item: JsonView, id: Seq<char>) -> EventView {
    EventView::tool_update(
        name_of(item),
        id,
        None,
        if item_failed(item) {
            "failed"@
        } else {
            "completed"@
        },
        None,
        Some(json::written(output_of(item))),
        None,
    )
}

/// State and events after a tool item completed. One that never started gets its
/// card first.
pub open spec fn tool_completed(m: CodexView, item: JsonView, id: Seq<char>) -> (
    CodexView,
    Seq<EventView>,
) {
    let (a, e) = if m.open_tools.contains(id) {
        (m, Seq::empty())
    } else {
        on_started(m, item)
    };
    (
        CodexView { open_tools: ids::dropped(a.open_tools, id), after_text: false, ..a },
        e.push(done(item, id)),
    )
}

/// State and events after an item completed.
pub open spec fn on_completed(m: CodexView, item: JsonView) -> (CodexView, Seq<EventView>) {
    match (item.str_at("id"@), item.str_at("type"@)) {
        (Some(id), Some(kind)) => if kind == "agentMessage"@ && !m.streamed.contains(id) {
            match item.filled("text"@) {
                Some(s) => (CodexView { after_text: true, ..m }, said(s)),
                None => (m, Seq::empty()),
            }
        } else if kind == "reasoning"@ && !m.streamed.contains(id) {
            let s = match paragraphs(item.at("summary"@)) {
                Some(s) => Some(s),
                None => paragraphs(item.at("content"@)),
            };
            match s {
                Some(s) => (CodexView { after_text: false, ..m }, thought(s)),
                None => (m, Seq::empty()),
            }
        } else if tool_item(kind) {
            tool_completed(m, item, id)
        } else {
            (m, Seq::empty())
        },
        _ => (m, Seq::empty()),
    }
}

/// A positive number.
pub open spec fn positive(n: Option<u64>) -> Option<u64> {
    match n {
        Some(x) => if x > 0 {
            Some(x)
        } else {
            None
        },
        None => None,
    }
}

/// The state after a report of the tokens used.
pub open spec fn on_usage(m: CodexView, usage: JsonView) -> CodexView {
    let last = usage.at("last"@);
    match (last.at("inputTokens"@).as_u64(), last.at("outputTokens"@).as_u64()) {
        (Some(input), Some(output)) => {
            let size = match positive(usage.at("modelContextWindow"@).as_u64()) {
                Some(s) => Some(s),
                None => positive(m.context_window),
            };
            match size {
                Some(size) => CodexView {
                    usage: Some((dsh_stream::sum(input, output), size)),
                    ..m
                },
                None => m,
            }
        },
        _ => m,
    }
}

/// The cards that are still open at the end of the turn fail.
pub open spec fn abandoned(open: Seq<Seq<char>>) -> Seq<EventView> {
    open.map_values(
        |id: Seq<char>| EventView::tool_update(None, id, None, "failed"@, None, None, None),
    )
}

/// The message of a turn that neither completed nor was interrupted.
pub open spec fn failure_message(m: CodexView, turn: JsonView) -> Seq<char> {
    match message_of(turn.at("error"@)) {
        Some(s) => s,
        None => match m.last_error {
            Some(s) => s,
            None => "Codex turn ended with "@ + tool_info::or(
                turn.str_at("status"@),
                "no status"@,
            ),
        },
    }
}

/// How the end of the turn ends it.
pub open spec fn finish(m: CodexView, turn: JsonView) -> FinishView {
    if turn.str_at("status"@) == Some("completed"@) {
        FinishView::clean(STOP_END_TURN@)
    } else if turn.str_at("status"@) == Some("interrupted"@) {
        FinishView::clean(STOP_CANCELLED@)
    } else {
        let message = failure_message(m, turn);
        FinishView::failed(
            if auth_error(message) {
                "auth_required"@
            } else {
                STOP_UNKNOWN@
            },
            "cli_api_error"@,
            message,
            None,
        )
    }
}

/// Whether the end of the turn uses up the last error.
pub open spec fn uses_last_error(turn: JsonView) -> bool {
    &&& turn.str_at("status"@) != Some("completed"@)
    &&& turn.str_at("status"@) != Some("interrupted"@)
    &&& message_of(turn.at("error"@)) is None
}

/// State and outcome after the end of the turn.
pub open spec fn on_turn_completed(m: CodexView, turn: JsonView) -> (CodexView, OutcomeView) {
    (
        CodexView {
            open_tools: Seq::empty(),
            last_error: if uses_last_error(turn) {
                None
            } else {
                m.last_error
            },
            ..m
        },
        OutcomeView::Finished {
            events: match m.usage {
                Some((used, size)) => abandoned(m.open_tools).push(
                    EventView::UsageUpdate { used, size },
                ),
                None => abandoned(m.open_tools),
            },
            finish: finish(m, turn),
        },
    )
}

/// Whether a notification belongs to another turn than the mapper's.
pub open spec fn foreign(m: CodexView, params: JsonView) -> bool {
    m.turn_id is Some && params.str_at("turnId"@) is Some && m.turn_id != params.str_at("turnId"@)
}

/// State and outcome after one notification.
pub open spec fn step(m: CodexView, msg: JsonView) -> (CodexView, OutcomeView) {
    let method = tool_info::or(msg.str_at("method"@), ""@);
    let params = msg.at("params"@);
    if foreign(m, params) {
        (m, OutcomeView::Events(Seq::empty()))
    } else if method == "item/agentMessage/delta"@ {
        let (n, e) = on_text_delta(m, params);
        (n, OutcomeView::Events(e))
    } else if method == "item/reasoning/summaryTextDelta"@ || method
        == "item/reasoning/textDelta"@ {
        let (n, e) = on_reasoning_delta(m, params);
        (n, OutcomeView::Events(e))
    } else if method == "item/started"@ {
        let (n, e) = on_started(m, params.at("item"@));
        (n, OutcomeView::Events(e))
    } else if method == "item/completed"@ {
        let (n, e) = on_completed(m, params.at("item"@));
        (n, OutcomeView::Events(e))
    } else if method == "thread/tokenUsage/updated"@ {
        (on_usage(m, params.at("tokenUsage"@)), OutcomeView::Events(Seq::empty()))
    } else if method == "error"@ {
        if params.at("willRetry"@).as_bool() != Some(true) {
            (
                CodexView { last_error: message_of(params.at("error"@)), ..m },
                OutcomeView::Events(Seq::empty()),
            )
        } else {
            (m, OutcomeView::Events(Seq::empty()))
        }
    } else if method == "turn/completed"@ {
        on_turn_completed(m, params.at("turn"@))
    } else {
        (m, OutcomeView::Events(Seq::empty()))
    }
}

impl CodexStreamMapper {
    /// A mapper for a new turn.
    pub fn new(cwd: Option<String>, context_window: Option<u64>) -> (r: CodexStreamMapper)
        ensures
            r@ == (CodexView {
                cwd: cwd.deep_view(),
                context_window,
                turn_id: None,
                after_text: false,
                streamed: Set::empty(),
                open_tools: Seq::empty(),
                usage: None,
                last_error: None,
            }),
    {
        CodexStreamMapper {
            cwd,
            context_window,
            turn_id: None,
            after_text: false,
            streamed: IdSet::new(),
            open_tools: IdSet::new(),
            usage: None,
            last_error: None,
        }
    }

    /// Names the turn to follow.
    pub fn set_turn_id(&mut self, turn_id: &str)
        ensures
            final(self)@ == (CodexView { turn_id: Some(turn_id@), ..old(self)@ }),
    {
        self.turn_id = Some(turn_id.to_owned());
    }

    /// Maps one notification.
    pub fn map_notification(&mut self, msg: &Json) -> (r: LineOutcome)
        ensures
            (final(self)@, r@) == step(old(self)@, msg@),
    {
        let method = text_or(msg.str_at("method"), "");
        let method = method.as_str();
        let params = msg.at("params");
        if let Some(theirs) = params.str_at("turnId") {
            if self.turn_id.is_some() && !text::is_text(&self.turn_id, theirs) {
                return LineOutcome::Events(events::none());
            }
        }
        if text::same(method, "item/agentMessage/delta") {
            LineOutcome::Events(self.on_text_delta(params))
        } else if text::same(method, "item/reasoning/summaryTextDelta") || text::same(
            method,
            "item/reasoning/textDelta",
        ) {
            LineOutcome::Events(self.on_reasoning_delta(params))
        } else if text::same(method, "item/started") {
            LineOutcome::Events(self.on_item_started(params.at("item")))
        } else if text::same(method, "item/completed") {
            LineOutcome::Events(self.on_item_completed(params.at("item")))
        } else if text::same(method, "thread/tokenUsage/updated") {
            self.on_usage(params.at("tokenUsage"));
            LineOutcome::Events(events::none())
        } else if text::same(method, "error") {
            if params.at("willRetry").as_bool() != Some(true) {
                self.last_error = error_message(params.at("error"));
            }
            LineOutcome::Events(events::none())
        } else if text::same(method, "turn/completed") {
            self.on_turn_completed(params.at("turn"))
        } else {
            LineOutcome::Events(events::none())
        }
    }

    /// Notes that an item streamed.
    fn note(&mut self, id: Option<&str>)
        ensures
            final(self)@ == noted(old(self)@, id.deep_view()),
    {
        if let Some(i) = id {
            self.streamed.insert(i);
        }
    }

    /// Handles a delta of a message.
    fn on_text_delta(&mut self, p: &Json) -> (r: Vec<AcpEvent>)
        ensures
            (final(self)@, r.deep_view()) == on_text_delta(old(self)@, p@),
    {
        match p.filled("delta") {
            Some(d) => {
                self.note(p.str_at("itemId"));
                self.text(d.to_owned())
            },
            None => events::none(),
        }
    }

    /// Handles a delta of reasoning.
    fn on_reasoning_delta(&mut self, p: &Json) -> (r: Vec<AcpEvent>)
        ensures
            (final(self)@, r.deep_view()) == on_reasoning_delta(old(self)@, p@),
    {
        match p.filled("delta") {
            Some(d) => {
                self.note(p.str_at("itemId"));
                self.after_text = false;
                events::one(AcpEvent::Thinking { text: d.to_owned(), parent_tool_use_id: None })
            },
            None => events::none(),
        }
    }

    /// Handles the start of an item.
    fn on_item_started(&mut self, item: &Json) -> (r: Vec<AcpEvent>)
        ensures
            (final(self)@, r.deep_view()) == on_started(old(self)@, item@),
    {
        if let (Some(id), Some(kind)) = (item.str_at("id"), item.str_at("type")) {
            if text::same(kind, "agentMessage") && self.after_text {
                self.after_text = false;
                return events::one(
                    AcpEvent::ContentDelta { text: "\n\n".to_owned(), parent_tool_use_id: None },
                );
            }
            if !is_tool_item(kind) {
                return events::none();
            }
            self.open_tools.insert(id);
            self.after_text = false;
            let info = codex_tool_info(item, text::borrowed(&self.cwd));
            events::one(
                events::tool_call(
                    codex_tool_name(item),
                    id,
                    info.title,
                    info.kind,
                    "in_progress",
                    Some(tool_input(item).write()),
                    info.locations,
                ),
            )
        } else {
            events::none()
        }
    }

    /// Handles the completion of an item.
    fn on_item_completed(&mut self, item: &Json) -> (r: Vec<AcpEvent>)
        ensures
            (final(self)@, r.deep_view()) == on_completed(old(self)@, item@),
    {
        if let (Some(id), Some(kind)) = (item.str_at("id"), item.str_at("type")) {
            if text::same(kind, "agentMessage") && !self.streamed.contains(id) {
                match item.filled("text") {
                    Some(s) => self.text(s.to_owned()),
                    None => events::none(),
                }
            } else if text::same(kind, "reasoning") && !self.streamed.contains(id) {
                let said = match joined(item.at("summary")) {
                    Some(s) => Some(s),
                    None => joined(item.at("content")),
                };
                match said {
                    Some(s) => {
                        self.after_text = false;
                        events::one(AcpEvent::Thinking { text: s, parent_tool_use_id: None })
                    },
                    None => events::none(),
                }
            } else if is_tool_item(kind) {
                let mut out = events::none();
                if !self.open_tools.contains(id) {
                    out = self.on_item_started(item);
                }
                self.open_tools.remove(id);
                self.after_text = false;
                let status = if tool_failed(item) {
                    "failed"
                } else {
                    "completed"
                };
                events::add_to(
                    &mut out,
                    events::tool_update(
                        codex_tool_name(item),
                        id,
                        None,
                        status,
                        None,
                        Some(tool_output(item).write()),
                        None,
                    ),
                );
                out
            } else {
                events::none()
            }
        } else {
            events::none()
        }
    }

    /// Handles a report of the tokens used.
    fn on_usage(&mut self, usage: &Json)
        ensures
            final(self)@ == on_usage(old(self)@, usage@),
    {
        let last = usage.at("last");
        if let (Some(input), Some(output)) = (
            last.at("inputTokens").as_u64(),
            last.at("outputTokens").as_u64(),
        ) {
            let size = match only_positive(usage.at("modelContextWindow").as_u64()) {
                Some(s) => Some(s),
                None => only_positive(self.context_window),
            };
            if let Some(size) = size {
                self.usage = Some((dsh_stream::sum_of(input, output), size));
            }
        }
    }

    /// Handles the end of the turn. Cards that are still open fail, in the order
    /// in which they were opened.
    fn on_turn_completed(&mut self, turn: &Json) -> (r: LineOutcome)
        ensures
            (final(self)@, r@) == on_turn_completed(old(self)@, turn@),
    {
        let open = self.open_tools.to_vec();
        self.open_tools = IdSet::new();
        let mut out = events::none();
        let ghost all = abandoned(open.deep_view());
        for i in 0..open.len()
            invariant
                all == abandoned(open.deep_view()),
                out.deep_view() == all.take(i as int),
        {
            let e = events::tool_update(None, open[i].as_str(), None, "failed", None, None, None);
            assert(e@ == all[i as int]);
            events::add_to(&mut out, e);
            assert(out.deep_view() =~= all.take(i + 1));
        }
        assert(all.take(open@.len() as int) =~= all);
        if let Some((used, size)) = self.usage {
            events::add_to(&mut out, AcpEvent::UsageUpdate { used, size });
        }
        let finish = if turn.is("status", "completed") {
            clean(STOP_END_TURN)
        } else if turn.is("status", "interrupted") {
            clean(STOP_CANCELLED)
        } else {
            let message = match error_message(turn.at("error")) {
                Some(s) => s,
                None => match self.last_error.take() {
                    Some(s) => s,
                    None => text::cat2(
                        "Codex turn ended with ",
                        text_or(turn.str_at("status"), "no status").as_str(),
                    ),
                },
            };
            let reason = if is_auth_error(message.as_str()) {
                "auth_required"
            } else {
                STOP_UNKNOWN
            };
            failed(reason, "cli_api_error", message, None)
        };
        LineOutcome::Finished { events: out, finish }
    }

    /// A piece of text.
    fn text(&mut self, text: String) -> (r: Vec<AcpEvent>)
        ensures
            final(self)@ == (CodexView { after_text: true, ..old(self)@ }),
            r.deep_view() == said(text@),
    {
        self.after_text = true;
        events::one(AcpEvent::ContentDelta { text, parent_tool_use_id: None })
    }
}

/// A positive number.
fn only_positive(n: Option<u64>) -> (r: Option<u64>)
    ensures
        r == positive(n),
{
    match n {
        Some(x) => if x > 0 {
            Some(x)
        } else {
            None
        },
        None => None,
    }
}

/// Whether an item is a tool call.
pub fn is_tool_item(kind: &str) -> (r: bool)
    ensures
        r == tool_item(kind@),
{
    text::same(kind, "commandExecution") || text::same(kind, "fileChange") || text::same(
        kind,
        "mcpToolCall",
    ) || text::same(kind, "webSearch") || text::same(kind, "dynamicToolCall") || text::same(
        kind,
        "collabAgentToolCall",
    ) || text::same(kind, "imageGeneration")
}

/// Whether a tool item failed.
pub fn tool_failed(item: &Json) -> (r: bool)
    ensures
        r == item_failed(item@),
{
    let bad_exit = item.is("type", "commandExecution") && match item.at("exitCode").as_i64() {
        Some(c) => c != 0,
        None => false,
    };
    item.is("status", "failed") || item.is("status", "declined") || !item.at("error").is_null()
        || item.at("success").as_bool() == Some(false) || bad_exit
}

/// The changed files, as the input of a card.
fn change_inputs(changes: &Vec<Json>) -> (r: Vec<Json>)
    ensures
        r.deep_view() == changes.deep_view().map_values(|c: JsonView| change_input(c)),
{
    let mut out: Vec<Json> = Vec::new();
    let ghost all = changes.deep_view().map_values(|c: JsonView| change_input(c));
    for i in 0..changes.len()
        invariant
            all == changes.deep_view().map_values(|c: JsonView| change_input(c)),
            out.deep_view() == all.take(i as int),
    {
        let c = &changes[i];
        let ghost before = out.deep_view();
        let entry = Json::empty_object().with("path", c.at("path").copy()).with(
            "kind",
            c.at("kind").at("type").copy(),
        );
        assert(entry@ == all[i as int]);
        out.push(entry);
        assert(out.deep_view() =~= before.push(all[i as int]));
        assert(out.deep_view() =~= all.take(i + 1));
    }
    assert(all.take(changes@.len() as int) =~= all);
    out
}

/// What a card shows as the input of its call.
pub fn tool_input(item: &Json) -> (r: Json)
    ensures
        r@ == input_of(item@),
{
    let kind = text_or(item.str_at("type"), "");
    let kind = kind.as_str();
    if text::same(kind, "commandExecution") {
        Json::empty_object().with("command", Json::Str(display_command(item))).with(
            "cwd",
            item.at("cwd").copy(),
        )
    } else if text::same(kind, "fileChange") {
        let changes = match item.at("changes").as_array() {
            Some(c) => change_inputs(c),
            None => Vec::new(),
        };
        assert(changes.deep_view() =~= items_of(item@, "changes"@).map_values(
            |c: JsonView| change_input(c),
        ));
        Json::empty_object().with("changes", Json::of_vec(changes))
    } else if text::same(kind, "mcpToolCall") || text::same(kind, "dynamicToolCall") {
        item.at("arguments").copy()
    } else if text::same(kind, "webSearch") {
        Json::empty_object().with("query", item.at("query").copy())
    } else {
        Json::empty_object()
    }
}

/// The paths and diffs of the changed files.
fn diffs_of(changes: &Vec<Json>) -> (r: Vec<String>)
    ensures
        r.deep_view() == diffs(changes.deep_view()),
{
    let mut out: Vec<String> = Vec::new();
    let ghost all = changes.deep_view();
    assert(out.deep_view() =~= diffs(all.take(0)));
    for i in 0..changes.len()
        invariant
            all == changes.deep_view(),
            out.deep_view() == diffs(all.take(i as int)),
    {
        assert(all.take(i + 1).drop_last() =~= all.take(i as int));
        assert(all.take(i + 1).last() == changes@[i as int]@);
        let c = &changes[i];
        if let Some(path) = c.str_at("path") {
            let diff = text_or(c.str_at("diff"), "");
            text::push(&mut out, text::cat3(path, "\n", diff.as_str()));
        }
    }
    assert(all.take(all.len() as int) =~= all);
    out
}

/// What a card shows as the result of an MCP call.
fn mcp_result(item: &Json) -> (r: Json)
    ensures
        r@ == mcp_output(item@),
{
    if let Some(message) = error_message(item.at("error")) {
        return Json::Str(message);
    }
    let content = item.at("result").at("content");
    match content.as_array() {
        Some(blocks) => {
            let said = json::collect_texts_at(blocks, "text");
            if said.len() == 0 {
                content.copy()
            } else {
                Json::Str(text::joined(&said, "\n"))
            }
        },
        None => item.at("result").copy(),
    }
}

/// What a card shows as the result of its call.
pub fn tool_output(item: &Json) -> (r: Json)
    ensures
        r@ == output_of(item@),
{
    let kind = text_or(item.str_at("type"), "");
    let kind = kind.as_str();
    if text::same(kind, "commandExecution") {
        Json::Str(text_or(item.str_at("aggregatedOutput"), ""))
    } else if text::same(kind, "fileChange") {
        let parts = match item.at("changes").as_array() {
            Some(c) => diffs_of(c),
            None => Vec::new(),
        };
        assert(parts.deep_view() =~= diffs(items_of(item@, "changes"@)));
        Json::Str(text::joined(&parts, "\n"))
    } else if text::same(kind, "mcpToolCall") {
        mcp_result(item)
    } else if text::same(kind, "dynamicToolCall") {
        item.at("contentItems").copy()
    } else {
        Json::Null
    }
}

/// The canonical name of the tool of an item: that of a built-in tool, or
/// `mcp__<server>__<tool>` for MCP calls.
pub fn codex_tool_name(item: &Json) -> (r: Option<String>)
    ensures
        r.deep_view() == name_of(item@),
{
    let kind = text_or(item.str_at("type"), "");
    let kind = kind.as_str();
    if text::same(kind, "commandExecution") {
        Some("Bash".to_owned())
    } else if text::same(kind, "fileChange") {
        Some("Edit".to_owned())
    } else if text::same(kind, "webSearch") {
        Some("WebSearch".to_owned())
    } else if text::same(kind, "imageGeneration") {
        Some("ImageGeneration".to_owned())
    } else if text::same(kind, "mcpToolCall") {
        let server = text_or(item.filled("server"), "mcp");
        let tool = text_or(item.filled("tool"), "tool");
        Some(text::cat4("mcp__", server.as_str(), "__", tool.as_str()))
    } else if text::same(kind, "dynamicToolCall") || text::same(kind, "collabAgentToolCall") {
        text::owned(item.filled("tool"))
    } else if text::same(kind, "") {
        None
    } else {
        Some(kind.to_owned())
    }
}

/// The places of several files.
fn places_of(paths: &Vec<String>) -> (r: Json)
    ensures
        r@ == places(paths.deep_view()),
{
    let mut out: Vec<Json> = Vec::new();
    let ghost all = places(paths.deep_view())->Array_0;
    for i in 0..paths.len()
        invariant
            all == places(paths.deep_view())->Array_0,
            all.len() == paths@.len(),
            out.deep_view() == all.take(i as int),
    {
        let ghost before = out.deep_view();
        let place = Json::empty_object().with("path", Json::of_str(paths[i].as_str()));
        assert(place@ == all[i as int]);
        out.push(place);
        assert(out.deep_view() =~= before.push(all[i as int]));
        assert(out.deep_view() =~= all.take(i + 1));
    }
    assert(all.take(paths@.len() as int) =~= all);
    Json::of_vec(out)
}

/// Collects the texts that the items of an array member have under a key.
fn collect_in(item: &Json, list: &str, key: &str) -> (r: Vec<String>)
    ensures
        r.deep_view() == texts_in(item@, list@, key@),
{
    match item.at(list).as_array() {
        Some(a) => json::collect_texts_at(a, key),
        None => {
            let out: Vec<String> = Vec::new();
            assert(out.deep_view() =~= Seq::empty());
            out
        },
    }
}

/// Title, kind and locations of a Codex tool item.
pub fn codex_tool_info(item: &Json, cwd: Option<&str>) -> (r: ToolInfo)
    ensures
        r@ == codex_shown(item@, cwd.deep_view()),
{
    let kind = text_or(item.str_at("type"), "");
    let kind = kind.as_str();
    if text::same(kind, "commandExecution") {
        info(display_command(item).as_str(), "execute", None)
    } else if text::same(kind, "fileChange") {
        let files = collect_in(item, "changes", "path");
        let title = if files.len() == 1 {
            text::cat2("Edit ", display_path(files[0].as_str(), cwd).as_str())
        } else if files.len() == 0 {
            "Edit files".to_owned()
        } else {
            text::cat3("Edit ", text::dec_u64(files.len() as u64).as_str(), " files")
        };
        let locations = if files.len() > 0 {
            Some(places_of(&files))
        } else {
            None
        };
        info(title.as_str(), "edit", locations)
    } else if text::same(kind, "mcpToolCall") {
        let server = text_or(item.filled("server"), "mcp");
        let tool = text_or(item.filled("tool"), "tool");
        info(text::cat3(server.as_str(), ": ", tool.as_str()).as_str(), "other", None)
    } else if text::same(kind, "webSearch") {
        info(text_or(item.filled("query"), "Web search").as_str(), "fetch", None)
    } else if text::same(kind, "dynamicToolCall") {
        info(text_or(item.filled("tool"), "Tool").as_str(), "other", None)
    } else if text::same(kind, "collabAgentToolCall") {
        info(text_or(item.filled("tool"), "Task").as_str(), "think", None)
    } else if text::same(kind, "imageGeneration") {
        info("Generate image", "other", None)
    } else {
        info(kind, "other", None)
    }
}

/// The command that the model asked for, without the shell wrapper round it.
pub fn display_command(item: &Json) -> (r: String)
    ensures
        r@ == shown_command(item@),
{
    let actions = collect_in(item, "commandActions", "command");
    if actions.len() > 0 {
        return text::joined(&actions, " && ");
    }
    let command = text_or(item.str_at("command"), "Terminal");
    match unwrap_shell(command.as_str()) {
        Some(inner) => inner,
        None => command,
    }
}

/// The command inside a `bash -lc '…'` wrapper.
pub fn unwrap_shell(command: &str) -> (r: Option<String>)
    ensures
        r.deep_view() == inner_command(command@),
{
    let rest = match text::strip_prefix(command, "/bin/bash -lc ") {
        Some(r) => Some(r),
        None => text::strip_prefix(command, "bash -lc "),
    };
    match rest {
        Some(r) => match text::strip_prefix(r.as_str(), "'") {
            Some(q) => text::strip_suffix(q.as_str(), "'"),
            None => None,
        },
        None => None,
    }
}

/// Shows a path relative to the working directory where it lies below it.
pub fn display_path(path: &str, cwd: Option<&str>) -> (r: String)
    ensures
        r@ == shown_path(path@, cwd.deep_view()),
{
    match cwd {
        Some(base) => match paths::relative_to(path, base) {
            Some(rel) => if rel.as_str().is_empty() {
                path.to_owned()
            } else {
                rel
            },
            None => path.to_owned(),
        },
        None => path.to_owned(),
    }
}

/// Keeps the texts that are not empty.
fn keep_nonempty(parts: &Vec<String>) -> (r: Vec<String>)
    ensures
        r.deep_view() == nonempty(parts.deep_view()),
{
    let mut out: Vec<String> = Vec::new();
    let ghost all = parts.deep_view();
    assert(out.deep_view() =~= nonempty(all.take(0)));
    for i in 0..parts.len()
        invariant
            all == parts.deep_view(),
            out.deep_view() == nonempty(all.take(i as int)),
    {
        assert(all.take(i + 1).drop_last() =~= all.take(i as int));
        assert(all.take(i + 1).last() == parts@[i as int]@);
        if !parts[i].as_str().is_empty() {
            text::push(&mut out, parts[i].clone());
        }
    }
    assert(all.take(all.len() as int) =~= all);
    out
}

/// The paragraphs of a list of texts, if there is any.
fn joined(parts: &Json) -> (r: Option<String>)
    ensures
        r.deep_view() == paragraphs(parts@),
{
    match parts.as_array() {
        Some(a) => {
            let said = keep_nonempty(&json::collect_texts(a));
            if said.len() > 0 {
                Some(text::joined(&said, "\n\n"))
            } else {
                None
            }
        },
        None => None,
    }
}

/// A readable message of an error.
pub fn error_message(error: &Json) -> (r: Option<String>)
    ensures
        r.deep_view() == message_of(error@),
{
    match error.filled("message") {
        Some(raw) => match json::read_text(raw) {
            Some(v) => match v.at("error").str_at("message") {
                Some(inner) => Some(inner.to_owned()),
                None => Some(raw.to_owned()),
            },
            None => Some(raw.to_owned()),
        },
        None => None,
    }
}

/// Whether a message says that the credential was refused.
pub fn is_auth_error(message: &str) -> (r: bool)
    ensures
        r == auth_error(message@),
{
    let lower = text::to_lower(message);
    let lower = lower.as_str();
    text::has(lower, "401") || text::has(lower, "403") || text::has(lower, "unauthorized")
        || text::has(lower, "invalid api key") || text::has(lower, "invalid_api_key")
}

/// The methods that matter for a turn are distinct.
pub(crate) proof fn methods_are_distinct()
    ensures
        "item/started"@ != "item/agentMessage/delta"@,
        "item/started"@ != "item/reasoning/summaryTextDelta"@,
        "item/started"@ != "item/reasoning/textDelta"@,
        "item/completed"@ != "item/agentMessage/delta"@,
        "item/completed"@ != "item/reasoning/summaryTextDelta"@,
        "item/completed"@ != "item/reasoning/textDelta"@,
        "item/completed"@ != "item/started"@,
        "turn/completed"@ != "item/agentMessage/delta"@,
        "turn/completed"@ != "item/reasoning/summaryTextDelta"@,
        "turn/completed"@ != "item/reasoning/textDelta"@,
        "turn/completed"@ != "item/started"@,
        "turn/completed"@ != "item/completed"@,
        "turn/completed"@ != "thread/tokenUsage/updated"@,
        "turn/completed"@ != "error"@,
        "error"@ != "item/agentMessage/delta"@,
        "error"@ != "item/reasoning/summaryTextDelta"@,
        "error"@ != "item/reasoning/textDelta"@,
        "error"@ != "item/started"@,
        "error"@ != "item/completed"@,
        "error"@ != "thread/tokenUsage/updated"@,
        "turn/completed"@ != ""@,
        "item/started"@ != ""@,
        "item/completed"@ != ""@,
{
    reveal_strlit("item/started");
    reveal_strlit("item/completed");
    reveal_strlit("item/agentMessage/delta");
    reveal_strlit("item/reasoning/summaryTextDelta");
    reveal_strlit("item/reasoning/textDelta");
    reveal_strlit("thread/tokenUsage/updated");
    reveal_strlit("error");
    reveal_strlit("turn/completed");
    reveal_strlit("");
    assert("item/started"@.len() == 12 && "item/completed"@.len() == 14
        && "item/agentMessage/delta"@.len() == 23 && "item/reasoning/summaryTextDelta"@.len() == 31
        && "item/reasoning/textDelta"@.len() == 24 && "thread/tokenUsage/updated"@.len() == 25
        && "error"@.len() == 5 && "turn/completed"@.len() == 14 && ""@.len() == 0);
    assert("item/completed"@[0] == 'i' && "turn/completed"@[0] == 't');
}

/// A turn is finished by its own `turn/completed` and by nothing else.
pub proof fn only_turn_completed_finishes(m: CodexView, msg: JsonView)
    ensures
        step(m, msg).1 is Finished <==> msg.str_at("method"@) == Some("turn/completed"@)
            && !foreign(m, msg.at("params"@)),
{
    methods_are_distinct();
}

/// A notification of another turn changes nothing and shows nothing.
pub proof fn foreign_turns_are_ignored(m: CodexView, msg: JsonView)
    requires
        foreign(m, msg.at("params"@)),
    ensures
        step(m, msg) == (m, OutcomeView::Events(Seq::empty())),
{
}

/// A message that was streamed is not sent again when it completes.
pub proof fn streamed_message_is_not_repeated(m: CodexView, delta: JsonView, whole: JsonView)
    requires
        delta.str_at("method"@) == Some("item/agentMessage/delta"@),
        !foreign(m, delta.at("params"@)),
        delta.at("params"@).filled("delta"@) is Some,
        delta.at("params"@).str_at("itemId"@) is Some,
        whole.str_at("method"@) == Some("item/completed"@),
        whole.at("params"@).at("item"@).str_at("type"@) == Some("agentMessage"@),
        whole.at("params"@).at("item"@).str_at("id"@) == delta.at("params"@).str_at("itemId"@),
    ensures
        step(step(m, delta).0, whole).1 == OutcomeView::Events(Seq::empty()),
{
    methods_are_distinct();
    reveal_strlit("agentMessage");
    reveal_strlit("reasoning");
    reveal_strlit("commandExecution");
    reveal_strlit("fileChange");
    reveal_strlit("mcpToolCall");
    reveal_strlit("webSearch");
    reveal_strlit("dynamicToolCall");
    reveal_strlit("collabAgentToolCall");
    reveal_strlit("imageGeneration");
    assert("agentMessage"@.len() == 12 && "reasoning"@.len() == 9 && "commandExecution"@.len() == 16
        && "fileChange"@.len() == 10 && "mcpToolCall"@.len() == 11 && "webSearch"@.len() == 9
        && "dynamicToolCall"@.len() == 15 && "collabAgentToolCall"@.len() == 19
        && "imageGeneration"@.len() == 15);
}

/// At the end of the turn no card stays open: every open one fails.
pub proof fn turn_end_closes_every_card(m: CodexView, turn: JsonView, i: int)
    requires
        0 <= i < m.open_tools.len(),
    ensures
        on_turn_completed(m, turn).0.open_tools.len() == 0,
        on_turn_completed(m, turn).1 matches OutcomeView::Finished { events, .. } && i < events.len()
            && events[i] == EventView::tool_update(
            None,
            m.open_tools[i],
            None,
            "failed"@,
            None,
            None,
            None,
        ),
{
}

/// A tool item that completes ends with the news that it is done, and its card
/// is not open any more.
pub proof fn completion_closes_the_card(m: CodexView, item: JsonView, id: Seq<char>)
    ensures
        !tool_completed(m, item, id).0.open_tools.contains(id),
        tool_completed(m, item, id).1.last() == done(item, id),
{
    let a = if m.open_tools.contains(id) {
        m
    } else {
        on_started(m, item).0
    };
    ids::dropped_is_gone(a.open_tools, id);
}

/// What happens to a mapper.
pub enum Happening {
    /// It maps a notification.
    Notified(JsonView),
    /// It is told which turn to follow.
    Following(Seq<char>),
}

/// The state after something happened.
pub open spec fn moved(m: CodexView, h: Happening) -> CodexView {
    match h {
        Happening::Notified(msg) => step(m, msg).0,
        Happening::Following(id) => CodexView { turn_id: Some(id), ..m },
    }
}

/// The state after all that happened.
pub open spec fn after(m: CodexView, all: Seq<Happening>) -> CodexView
    decreases all.len(),
{
    if all.len() == 0 {
        m
    } else {
        moved(after(m, all.drop_last()), all.last())
    }
}

/// The tool item that a notification of this method is about, where it is mapped.
pub open spec fn tool_of(m: CodexView, h: Happening, method: Seq<char>) -> Option<Seq<char>> {
    match h {
        Happening::Notified(msg) => {
            let item = msg.at("params"@).at("item"@);
            if !foreign(m, msg.at("params"@)) && msg.str_at("method"@) == Some(method)
                && item.str_at("type"@) is Some && tool_item(item.str_at("type"@)->0) {
                item.str_at("id"@)
            } else {
                None
            }
        },
        Happening::Following(_) => None,
    }
}

/// Whether the end of the turn is mapped.
pub open spec fn ends(m: CodexView, h: Happening) -> bool {
    h matches Happening::Notified(msg) && !foreign(m, msg.at("params"@)) && msg.str_at("method"@)
        == Some("turn/completed"@)
}

/// Whether the start of a tool item is the `i`th thing that happened.
#[verifier::opaque]
pub open spec fn started_at(m: CodexView, all: Seq<Happening>, i: int, id: Seq<char>) -> bool {
    tool_of(after(m, all.take(i)), all[i], "item/started"@) == Some(id)
}

/// Whether the `i`th thing that happened closed the card of a tool item: it completed,
/// or the turn ended.
#[verifier::opaque]
pub open spec fn closed_at(m: CodexView, all: Seq<Happening>, i: int, id: Seq<char>) -> bool {
    tool_of(after(m, all.take(i)), all[i], "item/completed"@) == Some(id) || ends(
        after(m, all.take(i)),
        all[i],
    )
}

/// Whether a tool item was started at some point, and since then neither completed nor
/// abandoned by the end of a turn.
pub open spec fn is_open(m: CodexView, all: Seq<Happening>, id: Seq<char>) -> bool {
    exists|i: int|
        0 <= i < all.len() && #[trigger] started_at(m, all, i, id) && forall|j: int|
            i < j < all.len() ==> !(#[trigger] closed_at(m, all, j, id))
}

/// What happened at a point does not depend on what happened later.
proof fn points_stay(m: CodexView, all: Seq<Happening>, i: int, id: Seq<char>)
    requires
        0 <= i < all.len() - 1,
    ensures
        started_at(m, all, i, id) == started_at(m, all.drop_last(), i, id),
        closed_at(m, all, i, id) == closed_at(m, all.drop_last(), i, id),
{
    reveal(started_at);
    reveal(closed_at);
    assert(all.take(i) =~= all.drop_last().take(i));
    assert(all[i] == all.drop_last()[i]);
}

/// Whether a tool item is open once something more happened.
proof fn open_goes_on(m: CodexView, all: Seq<Happening>, id: Seq<char>)
    requires
        all.len() > 0,
    ensures
        is_open(m, all, id) <==> (started_at(m, all, all.len() - 1, id) || (!closed_at(
            m,
            all,
            all.len() - 1,
            id,
        ) && is_open(m, all.drop_last(), id))),
{
    let front = all.drop_last();
    let n = front.len() as int;
    assert forall|k: int| 0 <= k < n implies #[trigger] started_at(m, all, k, id) == started_at(
        m,
        front,
        k,
        id,
    ) by {
        points_stay(m, all, k, id);
    }
    assert forall|k: int| 0 <= k < n implies #[trigger] closed_at(m, all, k, id) == closed_at(
        m,
        front,
        k,
        id,
    ) by {
        points_stay(m, all, k, id);
    }
    if is_open(m, all, id) && !started_at(m, all, n, id) {
        let i = choose|i: int|
            0 <= i < all.len() && #[trigger] started_at(m, all, i, id) && forall|j: int|
                i < j < all.len() ==> !(#[trigger] closed_at(m, all, j, id));
        assert(!closed_at(m, all, n, id));
        assert(started_at(m, front, i, id));
        assert forall|j: int| i < j < n implies !(#[trigger] closed_at(m, front, j, id)) by {
            assert(!closed_at(m, all, j, id));
        }
    }
    if is_open(m, front, id) && !closed_at(m, all, n, id) {
        let i = choose|i: int|
            0 <= i < n && #[trigger] started_at(m, front, i, id) && forall|j: int|
                i < j < n ==> !(#[trigger] closed_at(m, front, j, id));
        assert(started_at(m, all, i, id));
        assert forall|j: int| i < j < all.len() implies !(#[trigger] closed_at(m, all, j, id)) by {
            if j < n {
                assert(!closed_at(m, front, j, id));
            }
        }
    }
}

/// A tool item is neither a message nor a thought.
pub(crate) proof fn tools_are_apart(kind: Seq<char>)
    requires
        tool_item(kind),
    ensures
        kind != "agentMessage"@,
        kind != "reasoning"@,
{
    reveal_strlit("agentMessage");
    reveal_strlit("reasoning");
    reveal_strlit("commandExecution");
    reveal_strlit("fileChange");
    reveal_strlit("mcpToolCall");
    reveal_strlit("webSearch");
    reveal_strlit("dynamicToolCall");
    reveal_strlit("collabAgentToolCall");
    reveal_strlit("imageGeneration");
    assert("agentMessage"@.len() == 12 && "reasoning"@.len() == 9 && "commandExecution"@.len() == 16
        && "fileChange"@.len() == 10 && "mcpToolCall"@.len() == 11 && "webSearch"@.len() == 9
        && "dynamicToolCall"@.len() == 15 && "collabAgentToolCall"@.len() == 19
        && "imageGeneration"@.len() == 15);
    assert("reasoning"@[0] == 'r' && "webSearch"@[0] == 'w');
}

/// What one happening does to the open cards.
proof fn moving_cards(m: CodexView, h: Happening, id: Seq<char>)
    ensures
        moved(m, h).open_tools.contains(id) <==> if tool_of(m, h, "item/started"@) == Some(id) {
            true
        } else {
            tool_of(m, h, "item/completed"@) != Some(id) && !ends(m, h) && m.open_tools.contains(
                id,
            )
        },
        m.open_tools.no_duplicates() ==> moved(m, h).open_tools.no_duplicates(),
{
    methods_are_distinct();
    if let Happening::Notified(msg) = h {
        let item = msg.at("params"@).at("item"@);
        if let (Some(own), Some(kind)) = (item.str_at("id"@), item.str_at("type"@)) {
            if tool_item(kind) {
                tools_are_apart(kind);
                ids::added_keeps_the_rest(m.open_tools, own);
                ids::dropped_keeps_the_rest(m.open_tools, own);
                ids::dropped_keeps_the_rest(ids::added(m.open_tools, own), own);
            }
        }
    }
}

/// The open cards are those of the tool items that were started and neither completed
/// nor abandoned since, each once.
pub proof fn open_cards_are_those_started(m: CodexView, all: Seq<Happening>)
    requires
        m.open_tools.len() == 0,
    ensures
        forall|id: Seq<char>| #[trigger]
            after(m, all).open_tools.contains(id) <==> is_open(m, all, id),
        after(m, all).open_tools.no_duplicates(),
    decreases all.len(),
{
    if all.len() > 0 {
        let front = all.drop_last();
        open_cards_are_those_started(m, front);
        assert forall|id: Seq<char>| #[trigger]
            after(m, all).open_tools.contains(id) <==> is_open(m, all, id) by {
            let n = front.len() as int;
            moving_cards(after(m, front), all.last(), id);
            open_goes_on(m, all, id);
            assert(all.take(n) =~= front);
            reveal(started_at);
            reveal(closed_at);
        }
        moving_cards(after(m, front), all.last(), ""@);
    }
}

/// The news that a card was abandoned.
pub open spec fn abandonment(id: Seq<char>) -> EventView {
    EventView::tool_update(None, id, None, "failed"@, None, None, None)
}

/// The end of a turn tells of exactly the tool items that were started and neither
/// completed nor abandoned since that they failed, each once, and of no other; and it
/// ends the turn by its status: `completed` and `interrupted` without an error, any
/// other with one.
pub proof fn turn_end_fails_what_is_open(m: CodexView, all: Seq<Happening>, msg: JsonView)
    requires
        m.open_tools.len() == 0,
        msg.str_at("method"@) == Some("turn/completed"@),
        !foreign(after(m, all), msg.at("params"@)),
    ensures
        step(after(m, all), msg).1 matches OutcomeView::Finished { events, finish } && {
            let status = msg.at("params"@).at("turn"@).str_at("status"@);
            &&& forall|id: Seq<char>| #[trigger]
                events.contains(abandonment(id)) <==> is_open(m, all, id)
            &&& forall|k: int|
                0 <= k < events.len() && (#[trigger] events[k] is ToolCallUpdate) ==> exists|
                    id: Seq<char>,
                | #[trigger] is_open(m, all, id) && events[k] == abandonment(id)
            &&& events.no_duplicates()
            &&& finish.stop_reason == STOP_END_TURN@ <==> status == Some("completed"@)
            &&& finish.stop_reason == STOP_CANCELLED@ <==> status == Some("interrupted"@)
            &&& finish.error is None <==> status == Some("completed"@) || status == Some(
                "interrupted"@,
            )
            &&& finish.error is Some ==> finish.stop_reason == "auth_required"@
                || finish.stop_reason == STOP_UNKNOWN@
        },
{
    methods_are_distinct();
    let now = after(m, all);
    open_cards_are_those_started(m, all);
    let open = now.open_tools;
    let events = step(now, msg).1->events;
    let failed = abandoned(open);
    assert(failed.len() == open.len());
    assert forall|k: int| 0 <= k < open.len() implies #[trigger] events[k] == abandonment(
        open[k],
    ) by {
        assert(events[k] == failed[k]);
    }
    assert forall|id: Seq<char>| #[trigger]
        events.contains(abandonment(id)) <==> is_open(m, all, id) by {
        if open.contains(id) {
            let k = choose|k: int| 0 <= k < open.len() && open[k] == id;
            assert(events[k] == abandonment(id));
        }
        if events.contains(abandonment(id)) {
            let k = choose|k: int| 0 <= k < events.len() && events[k] == abandonment(id);
            assert(k < open.len());
            assert(abandonment(open[k])->ToolCallUpdate_tool_call_id == open[k]);
            assert(open.contains(id));
        }
    }
    assert forall|k: int|
        0 <= k < events.len() && (#[trigger] events[k] is ToolCallUpdate) implies exists|
        id: Seq<char>,
    | #[trigger] is_open(m, all, id) && events[k] == abandonment(id) by {
        assert(k < open.len());
        assert(open.contains(open[k]));
        assert(is_open(m, all, open[k]));
    }
    assert forall|i: int, j: int|
        0 <= i < events.len() && 0 <= j < events.len() && i != j implies events[i] != events[j] by {
        if i < open.len() && j < open.len() {
            assert(abandonment(open[i])->ToolCallUpdate_tool_call_id == open[i]);
            assert(abandonment(open[j])->ToolCallUpdate_tool_call_id == open[j]);
        }
    }
    reveal_strlit("completed");
    reveal_strlit("interrupted");
    reveal_strlit("end_turn");
    reveal_strlit("cancelled");
    reveal_strlit("unknown");
    reveal_strlit("auth_required");
    assert("completed"@.len() == 9 && "interrupted"@.len() == 11 && "end_turn"@.len() == 8
        && "cancelled"@.len() == 9 && "unknown"@.len() == 7 && "auth_required"@.len() == 13);
}

} // verus!
