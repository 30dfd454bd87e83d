//! The history records of live events.
use vstd::prelude::*;
use crate::events::{AcpEvent, EventView};
use crate::json;
use crate::json::{Json, JsonView};

verus! {

/// Whether `sacp` reads a value as a session update.
pub uninterp spec fn update_accepted(value: JsonView) -> bool;

/// `serde_json::from_value` into `sacp::schema::SessionUpdate`: whether the
/// protocol crate takes a value as a session update. The answer is named
/// `update_accepted`.
#[verifier::external_body]
fn accepts_update(value: &Json) -> (r: bool)
    ensures
        r == update_accepted(value@),
{
    serde_json::from_value::<sacp::schema::SessionUpdate>(json::to_value(value)).is_ok()
}

/// The JSON value of a text that holds JSON.
pub open spec fn read(s: Option<Seq<char>>) -> Option<JsonView> {
    match s {
        Some(t) => json::parsed(t),
        None => None,
    }
}

/// The extension field that keeps the name of the tool, which the protocol has no
/// place for.
pub open spec fn name_meta(v: JsonView, tool_name: Option<Seq<char>>) -> JsonView {
    match tool_name {
        Some(n) => if n.len() > 0 {
            v.with(
                "_meta"@,
                JsonView::empty_object().with("codeg.toolName"@, JsonView::Str(n)),
            )
        } else {
            v
        },
        None => v,
    }
}

/// A text, where there is one.
pub open spec fn text_value(s: Option<Seq<char>>) -> Option<JsonView> {
    match s {
        Some(t) => Some(JsonView::Str(t)),
        None => None,
    }
}

/// A piece of prose.
pub open spec fn chunk(kind: Seq<char>, s: Seq<char>) -> JsonView {
    JsonView::empty_object().with("sessionUpdate"@, JsonView::Str(kind)).with(
        "content"@,
        JsonView::empty_object().with("type"@, JsonView::Str("text"@)).with(
            "text"@,
            JsonView::Str(s),
        ),
    )
}

/// What the history holds of an event; nothing for events that it leaves out.
pub open spec fn transcript(event: EventView) -> Option<JsonView> {
    match event {
        EventView::ContentDelta { text, .. } => Some(chunk("agent_message_chunk"@, text)),
        EventView::Thinking { text, .. } => Some(chunk("agent_thought_chunk"@, text)),
        EventView::ToolCall {
            tool_call_id,
            title,
            kind,
            status,
            tool_name,
            raw_input,
            locations,
            ..
        } => Some(
            name_meta(
                JsonView::empty_object().with("sessionUpdate"@, JsonView::Str("tool_call"@)).with(
                    "toolCallId"@,
                    JsonView::Str(tool_call_id),
                ).with("title"@, JsonView::Str(title)).with("kind"@, JsonView::Str(kind)).with(
                    "status"@,
                    JsonView::Str(status),
                ).with_some("rawInput"@, read(raw_input)).with_some("locations"@, locations),
                tool_name,
            ),
        ),
        EventView::ToolCallUpdate {
            tool_call_id,
            title,
            status,
            tool_name,
            raw_input,
            raw_output,
            ..
        } => Some(
            name_meta(
                JsonView::empty_object().with(
                    "sessionUpdate"@,
                    JsonView::Str("tool_call_update"@),
                ).with("toolCallId"@, JsonView::Str(tool_call_id)).with_some(
                    "status"@,
                    text_value(status),
                ).with_some("title"@, text_value(title)).with_some(
                    "rawInput"@,
                    read(raw_input),
                ).with_some("rawOutput"@, read(raw_output)),
                tool_name,
            ),
        ),
        EventView::UsageUpdate { used, size } => Some(
            JsonView::empty_object().with("sessionUpdate"@, JsonView::Str("usage_update"@)).with(
                "used"@,
                JsonView::of_u64(used),
            ).with("size"@, JsonView::of_u64(size)),
        ),
        _ => None,
    }
}

/// The record of an event that the protocol crate takes.
pub open spec fn update(event: EventView) -> Option<JsonView> {
    match transcript(event) {
        Some(v) => if update_accepted(v) {
            Some(v)
        } else {
            None
        },
        None => None,
    }
}

/// The JSON value of a text that holds JSON.
fn read_opt(s: &Option<String>) -> (r: Option<Json>)
    ensures
        r.deep_view() == read(s.deep_view()),
{
    match s {
        Some(t) => json::read_text(t.as_str()),
        None => None,
    }
}

/// A copy of a value, where there is one.
fn copy_opt(v: &Option<Json>) -> (r: Option<Json>)
    ensures
        r.deep_view() == v.deep_view(),
{
    match v {
        Some(j) => Some(j.copy()),
        None => None,
    }
}

/// A text, where there is one.
fn text_opt(s: &Option<String>) -> (r: Option<Json>)
    ensures
        r.deep_view() == text_value(s.deep_view()),
{
    match s {
        Some(t) => Some(Json::of_str(t.as_str())),
        None => None,
    }
}

/// Adds the name of the tool as an extension field.
fn set_tool_name_meta(v: Json, tool_name: &Option<String>) -> (r: Json)
    ensures
        r@ == name_meta(v@, tool_name.deep_view()),
{
    match tool_name {
        Some(n) => if n.as_str().is_empty() {
            v
        } else {
            v.with("_meta", Json::empty_object().with("codeg.toolName", Json::of_str(n.as_str())))
        },
        None => v,
    }
}

/// A piece of prose.
fn chunk_value(kind: &str, s: &str) -> (r: Json)
    ensures
        r@ == chunk(kind@, s@),
{
    Json::empty_object().with("sessionUpdate", Json::of_str(kind)).with(
        "content",
        Json::empty_object().with("type", Json::of_str("text")).with("text", Json::of_str(s)),
    )
}

/// What the history holds of an event. The title and the input of an update are
/// kept too: a call is first announced with a placeholder, before its input is
/// known.
pub fn transcript_value(event: &AcpEvent) -> (r: Option<Json>)
    ensures
        r.deep_view() == transcript(event@),
{
    match event {
        AcpEvent::ContentDelta { text, .. } => Some(
            chunk_value("agent_message_chunk", text.as_str()),
        ),
        AcpEvent::Thinking { text, .. } => Some(chunk_value("agent_thought_chunk", text.as_str())),
        AcpEvent::ToolCall {
            tool_call_id,
            title,
            kind,
            status,
            tool_name,
            raw_input,
            locations,
            ..
        } => {
            let v = Json::empty_object().with("sessionUpdate", Json::of_str("tool_call")).with(
                "toolCallId",
                Json::of_str(tool_call_id.as_str()),
            ).with("title", Json::of_str(title.as_str())).with(
                "kind",
                Json::of_str(kind.as_str()),
            ).with("status", Json::of_str(status.as_str())).with_some(
                "rawInput",
                read_opt(raw_input),
            ).with_some("locations", copy_opt(locations));
            Some(set_tool_name_meta(v, tool_name))
        },
        AcpEvent::ToolCallUpdate {
            tool_call_id,
            title,
            status,
            tool_name,
            raw_input,
            raw_output,
            ..
        } => {
            let v = Json::empty_object().with(
                "sessionUpdate",
                Json::of_str("tool_call_update"),
            ).with("toolCallId", Json::of_str(tool_call_id.as_str())).with_some(
                "status",
                text_opt(status),
            ).with_some("title", text_opt(title)).with_some(
                "rawInput",
                read_opt(raw_input),
            ).with_some("rawOutput", read_opt(raw_output));
            Some(set_tool_name_meta(v, tool_name))
        },
        AcpEvent::UsageUpdate { used, size } => Some(
            Json::empty_object().with("sessionUpdate", Json::of_str("usage_update")).with(
                "used",
                Json::of_u64(*used),
            ).with("size", Json::of_u64(*size)),
        ),
        _ => None,
    }
}

/// The record of an event, as a session update that the protocol crate takes.
pub fn transcript_update_for(event: &AcpEvent) -> (r: Option<Json>)
    ensures
        r.deep_view() == update(event@),
{
    match transcript_value(event) {
        Some(v) => if accepts_update(&v) {
            Some(v)
        } else {
            None
        },
        None => None,
    }
}

} // verus!
