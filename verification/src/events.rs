//! The events that a connection sends to its viewers.
use vstd::prelude::*;
use crate::json::{Json, JsonView};

verus! {

/// What a connection is doing.
#[derive(Clone, Copy, Debug, PartialEq, Eq, Structural)]
pub enum ConnectionStatus {
    Connecting,
    Connected,
    Prompting,
    Disconnected,
    Error,
}

/// An event of a connection.
#[allow(inconsistent_fields)]
#[derive(Debug, PartialEq)]
pub enum AcpEvent {
    SessionStarted { session_id: String },
    StatusChanged { status: ConnectionStatus },
    UserMessage { message_id: String, blocks: Json },
    ContentDelta { text: String, parent_tool_use_id: Option<String> },
    Thinking { text: String, parent_tool_use_id: Option<String> },
    ToolCall {
        tool_name: Option<String>,
        description: Option<String>,
        tool_call_id: String,
        title: String,
        kind: String,
        status: String,
        content: Option<String>,
        raw_input: Option<String>,
        raw_output: Option<String>,
        locations: Option<Json>,
        meta: Option<Json>,
        images: Option<Json>,
    },
    ToolCallUpdate {
        tool_name: Option<String>,
        description: Option<String>,
        tool_call_id: String,
        title: Option<String>,
        status: Option<String>,
        content: Option<String>,
        raw_input: Option<String>,
        raw_output: Option<String>,
        raw_output_append: Option<bool>,
        locations: Option<Json>,
        meta: Option<Json>,
        images: Option<Json>,
    },
    UsageUpdate { used: u64, size: u64 },
    Error {
        message: String,
        agent_type: String,
        code: Option<String>,
        details: Option<String>,
        terminal: bool,
    },
    TurnComplete {
        session_id: String,
        stop_reason: String,
        agent_type: String,
        duration_ms: Option<u64>,
    },
}

/// The content of an event.
#[allow(inconsistent_fields)]
#[verifier::ext_equal]
pub enum EventView {
    SessionStarted { session_id: Seq<char> },
    StatusChanged { status: ConnectionStatus },
    UserMessage { message_id: Seq<char>, blocks: JsonView },
    ContentDelta { text: Seq<char>, parent_tool_use_id: Option<Seq<char>> },
    Thinking { text: Seq<char>, parent_tool_use_id: Option<Seq<char>> },
    ToolCall {
        tool_name: Option<Seq<char>>,
        description: Option<Seq<char>>,
        tool_call_id: Seq<char>,
        title: Seq<char>,
        kind: Seq<char>,
        status: Seq<char>,
        content: Option<Seq<char>>,
        raw_input: Option<Seq<char>>,
        raw_output: Option<Seq<char>>,
        locations: Option<JsonView>,
        meta: Option<JsonView>,
        images: Option<JsonView>,
    },
    ToolCallUpdate {
        tool_name: Option<Seq<char>>,
        description: Option<Seq<char>>,
        tool_call_id: Seq<char>,
        title: Option<Seq<char>>,
        status: Option<Seq<char>>,
        content: Option<Seq<char>>,
        raw_input: Option<Seq<char>>,
        raw_output: Option<Seq<char>>,
        raw_output_append: Option<bool>,
        locations: Option<JsonView>,
        meta: Option<JsonView>,
        images: Option<JsonView>,
    },
    UsageUpdate { used: u64, size: u64 },
    Error {
        message: Seq<char>,
        agent_type: Seq<char>,
        code: Option<Seq<char>>,
        details: Option<Seq<char>>,
        terminal: bool,
    },
    TurnComplete {
        session_id: Seq<char>,
        stop_reason: Seq<char>,
        agent_type: Seq<char>,
        duration_ms: Option<u64>,
    },
}

impl View for AcpEvent {
    type V = EventView;

    open spec fn view(&self) -> EventView {
        match *self {
            AcpEvent::SessionStarted { session_id } => EventView::SessionStarted {
                session_id: session_id@,
            },
            AcpEvent::StatusChanged { status } => EventView::StatusChanged { status },
            AcpEvent::UserMessage { message_id, blocks } => EventView::UserMessage {
                message_id: message_id@,
                blocks: blocks@,
            },
            AcpEvent::ContentDelta { text, parent_tool_use_id } => EventView::ContentDelta {
                text: text@,
                parent_tool_use_id: parent_tool_use_id.deep_view(),
            },
            AcpEvent::Thinking { text, parent_tool_use_id } => EventView::Thinking {
                text: text@,
                parent_tool_use_id: parent_tool_use_id.deep_view(),
            },
            AcpEvent::ToolCall {
                tool_name,
                description,
                tool_call_id,
                title,
                kind,
                status,
                content,
                raw_input,
                raw_output,
                locations,
                meta,
                images,
            } => EventView::ToolCall {
                tool_name: tool_name.deep_view(),
                description: description.deep_view(),
                tool_call_id: tool_call_id@,
                title: title@,
                kind: kind@,
                status: status@,
                content: content.deep_view(),
                raw_input: raw_input.deep_view(),
                raw_output: raw_output.deep_view(),
                locations: locations.deep_view(),
                meta: meta.deep_view(),
                images: images.deep_view(),
            },
            AcpEvent::ToolCallUpdate {
                tool_name,
                description,
                tool_call_id,
                title,
                status,
                content,
                raw_input,
                raw_output,
                raw_output_append,
                locations,
                meta,
                images,
            } => EventView::ToolCallUpdate {
                tool_name: tool_name.deep_view(),
                description: description.deep_view(),
                tool_call_id: tool_call_id@,
                title: title.deep_view(),
                status: status.deep_view(),
                content: content.deep_view(),
                raw_input: raw_input.deep_view(),
                raw_output: raw_output.deep_view(),
                raw_output_append,
                locations: locations.deep_view(),
                meta: meta.deep_view(),
                images: images.deep_view(),
            },
            AcpEvent::UsageUpdate { used, size } => EventView::UsageUpdate { used, size },
            AcpEvent::Error { message, agent_type, code, details, terminal } => EventView::Error {
                message: message@,
                agent_type: agent_type@,
                code: code.deep_view(),
                details: details.deep_view(),
                terminal,
            },
            AcpEvent::TurnComplete { session_id, stop_reason, agent_type, duration_ms } =>
                EventView::TurnComplete {
                session_id: session_id@,
                stop_reason: stop_reason@,
                agent_type: agent_type@,
                duration_ms,
            },
        }
    }
}

impl DeepView for AcpEvent {
    type V = EventView;

    open spec fn deep_view(&self) -> EventView {
        self@
    }
}

impl EventView {
    /// A tool call that is announced.
    pub open spec fn tool_call(
        tool_name: Option<Seq<char>>,
        tool_call_id: Seq<char>,
        title: Seq<char>,
        kind: Seq<char>,
        status: Seq<char>,
        raw_input: Option<Seq<char>>,
        locations: Option<JsonView>,
    ) -> EventView {
        EventView::ToolCall {
            tool_name,
            description: None,
            tool_call_id,
            title,
            kind,
            status,
            content: None,
            raw_input,
            raw_output: None,
            locations,
            meta: None,
            images: None,
        }
    }

    /// News of an announced tool call.
    pub open spec fn tool_update(
        tool_name: Option<Seq<char>>,
        tool_call_id: Seq<char>,
        title: Option<Seq<char>>,
        status: Seq<char>,
        raw_input: Option<Seq<char>>,
        raw_output: Option<Seq<char>>,
        locations: Option<JsonView>,
    ) -> EventView {
        EventView::ToolCallUpdate {
            tool_name,
            description: None,
            tool_call_id,
            title,
            status: Some(status),
            content: None,
            raw_input,
            raw_output,
            raw_output_append: None,
            locations,
            meta: None,
            images: None,
        }
    }
}

/// Announces a tool call.
pub fn tool_call(
    tool_name: Option<String>,
    tool_call_id: &str,
    title: String,
    kind: &str,
    status: &str,
    raw_input: Option<String>,
    locations: Option<Json>,
) -> (r: AcpEvent)
    ensures
        r@ == EventView::tool_call(
            tool_name.deep_view(),
            tool_call_id@,
            title@,
            kind@,
            status@,
            raw_input.deep_view(),
            locations.deep_view(),
        ),
{
    AcpEvent::ToolCall {
        tool_name,
        description: None,
        tool_call_id: tool_call_id.to_owned(),
        title,
        kind: kind.to_owned(),
        status: status.to_owned(),
        content: None,
        raw_input,
        raw_output: None,
        locations,
        meta: None,
        images: None,
    }
}

/// Tells news of an announced tool call.
pub fn tool_update(
    tool_name: Option<String>,
    tool_call_id: &str,
    title: Option<String>,
    status: &str,
    raw_input: Option<String>,
    raw_output: Option<String>,
    locations: Option<Json>,
) -> (r: AcpEvent)
    ensures
        r@ == EventView::tool_update(
            tool_name.deep_view(),
            tool_call_id@,
            title.deep_view(),
            status@,
            raw_input.deep_view(),
            raw_output.deep_view(),
            locations.deep_view(),
        ),
{
    AcpEvent::ToolCallUpdate {
        tool_name,
        description: None,
        tool_call_id: tool_call_id.to_owned(),
        title,
        status: Some(status.to_owned()),
        content: None,
        raw_input,
        raw_output,
        raw_output_append: None,
        locations,
        meta: None,
        images: None,
    }
}

/// The list of one event.
pub fn one(event: AcpEvent) -> (r: Vec<AcpEvent>)
    ensures
        r.deep_view() == seq![event@],
{
    let mut out: Vec<AcpEvent> = Vec::new();
    out.push(event);
    assert(out.deep_view() =~= seq![event@]);
    out
}

/// The list of no events.
pub fn none() -> (r: Vec<AcpEvent>)
    ensures
        r.deep_view() == Seq::<EventView>::empty(),
{
    let out: Vec<AcpEvent> = Vec::new();
    assert(out.deep_view() =~= Seq::empty());
    out
}

/// Adds an event at the end of a list.
pub fn add_to(list: &mut Vec<AcpEvent>, event: AcpEvent)
    ensures
        final(list).deep_view() == old(list).deep_view().push(event@),
{
    list.push(event);
    assert(list.deep_view() =~= old(list).deep_view().push(event@));
}

/// Adds the events of another list at the end of a list.
pub fn extend(list: &mut Vec<AcpEvent>, more: Vec<AcpEvent>)
    ensures
        final(list).deep_view() == old(list).deep_view() + more.deep_view(),
{
    let mut rest = more;
    list.append(&mut rest);
    assert(list.deep_view() =~= old(list).deep_view() + more.deep_view());
}

} // verus!
