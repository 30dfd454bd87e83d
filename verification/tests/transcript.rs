use codeg::cli::transcript::transcript_update_for;
use codeg::events::{AcpEvent, ConnectionStatus};

fn update(
    tool_name: Option<&str>,
    tool_call_id: &str,
    title: Option<&str>,
    status: &str,
    raw_input: Option<&str>,
    raw_output: Option<&str>,
) -> AcpEvent {
    AcpEvent::ToolCallUpdate {
        tool_name: tool_name.map(String::from),
        description: None,
        tool_call_id: tool_call_id.into(),
        title: title.map(String::from),
        status: Some(status.into()),
        content: None,
        raw_input: raw_input.map(String::from),
        raw_output: raw_output.map(String::from),
        raw_output_append: None,
        locations: None,
        meta: None,
        images: None,
    }
}

#[test]
fn live_events_round_trip_into_recorded_session_updates() {
    let events = vec![
        (
            AcpEvent::ContentDelta { text: "hi".into(), parent_tool_use_id: None },
            "agent_message_chunk",
        ),
        (
            AcpEvent::Thinking { text: "hmm".into(), parent_tool_use_id: None },
            "agent_thought_chunk",
        ),
        (
            AcpEvent::ToolCall {
                tool_name: None,
                description: None,
                tool_call_id: "c1".into(),
                title: "app-notion: notion-fetch".into(),
                kind: "other".into(),
                status: "in_progress".into(),
                content: None,
                raw_input: Some(r#"{"id":"self"}"#.into()),
                raw_output: None,
                locations: None,
                meta: None,
                images: None,
            },
            "tool_call",
        ),
        (update(None, "c1", None, "completed", None, Some("\"ok\"")), "tool_call_update"),
        (AcpEvent::UsageUpdate { used: 10, size: 1000 }, "usage_update"),
    ];
    for (event, kind) in &events {
        let update = transcript_update_for(event).expect("recorded");
        assert_eq!(update.str_at("sessionUpdate"), Some(*kind));
    }
    assert!(transcript_update_for(&AcpEvent::StatusChanged {
        status: ConnectionStatus::Connected
    })
    .is_none());
}

#[test]
fn tool_call_update_carries_status_and_raw_output() {
    let v =
        transcript_update_for(&update(None, "c9", None, "failed", None, Some("\"boom\""))).unwrap();
    assert_eq!(v.str_at("toolCallId"), Some("c9"));
    assert_eq!(v.str_at("status"), Some("failed"));
    assert_eq!(v.str_at("rawOutput"), Some("boom"));
}

#[test]
fn tool_call_update_carries_title_and_raw_input() {
    let v = transcript_update_for(&update(
        None,
        "c1",
        Some("officecli save a.pptx"),
        "in_progress",
        Some("{\"command\":\"officecli save a.pptx\",\"description\":\"保存 PPT\"}"),
        None,
    ))
    .unwrap();
    assert_eq!(v.str_at("title"), Some("officecli save a.pptx"));
    assert_eq!(v.at("rawInput").str_at("command"), Some("officecli save a.pptx"));
    assert_eq!(v.at("rawInput").str_at("description"), Some("保存 PPT"));
}

#[test]
fn tool_name_is_recorded_in_meta() {
    let v = transcript_update_for(&AcpEvent::ToolCall {
        tool_name: Some("Edit".into()),
        description: None,
        tool_call_id: "c3".into(),
        title: "Edit a.rs".into(),
        kind: "edit".into(),
        status: "in_progress".into(),
        content: None,
        raw_input: Some("{\"file_path\":\"/a.rs\"}".into()),
        raw_output: None,
        locations: None,
        meta: None,
        images: None,
    })
    .unwrap();
    assert_eq!(v.at("_meta").str_at("codeg.toolName"), Some("Edit"));
    let v =
        transcript_update_for(&update(Some("Bash"), "c4", None, "completed", None, None)).unwrap();
    assert_eq!(v.at("_meta").str_at("codeg.toolName"), Some("Bash"));
}

#[test]
fn missing_tool_name_writes_no_meta() {
    let v = transcript_update_for(&update(None, "c5", None, "completed", None, None)).unwrap();
    assert!(v.at("_meta").get("codeg.toolName").is_none(), "{}", v.write());
}

#[test]
fn status_only_update_adds_no_title_or_input() {
    let v = transcript_update_for(&update(None, "c2", None, "completed", None, None)).unwrap();
    assert!(v.at("title").is_null(), "{}", v.write());
    assert!(v.at("rawInput").is_null(), "{}", v.write());
}

#[test]
fn a_status_that_the_protocol_lacks_is_not_recorded() {
    assert!(transcript_update_for(&update(None, "c2", None, "no such status", None, None)).is_none());
}
