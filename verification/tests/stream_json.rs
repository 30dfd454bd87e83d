use codeg::cli::outcome::{LineOutcome, TurnFinish};
use codeg::cli::stream_json::{finish_from_result, StreamMapper};
use codeg::events::AcpEvent;
use codeg::json::Json;

const SID: &str = "7a170f72-bff6-475a-bd3c-a3ead269f0b5";

const ID: &str = "claude_code";

/// What messages call the agent: the two words of its id, each with a capital.
fn called() -> String {
    format!("C{} C{}", &ID[1..6], &ID[8..])
}

fn json(text: &str) -> Json {
    Json::parse(text).unwrap()
}

fn mapper(session_id: Option<&str>, cwd: Option<&str>) -> StreamMapper {
    StreamMapper::new(session_id.map(String::from), cwd.map(String::from))
}

fn events(mapper: &mut StreamMapper, lines: &[&str]) -> Vec<AcpEvent> {
    let mut out = Vec::new();
    for line in lines {
        match mapper.map_line(line) {
            LineOutcome::Events(evs) | LineOutcome::Finished { events: evs, .. } => out.extend(evs),
            LineOutcome::Unparsable => panic!("unparsable fixture line"),
        }
    }
    out
}

fn kind_of(event: &AcpEvent) -> &'static str {
    match event {
        AcpEvent::SessionStarted { .. } => "session_started",
        AcpEvent::ContentDelta { .. } => "content_delta",
        AcpEvent::Thinking { .. } => "thinking",
        AcpEvent::ToolCall { .. } => "tool_call",
        AcpEvent::ToolCallUpdate { .. } => "tool_call_update",
        AcpEvent::UsageUpdate { .. } => "usage_update",
        _ => "other",
    }
}

fn types(evs: &[AcpEvent]) -> Vec<&'static str> {
    evs.iter().map(kind_of).collect()
}

fn status_of(event: &AcpEvent) -> &str {
    match event {
        AcpEvent::ToolCall { status, .. } => status,
        AcpEvent::ToolCallUpdate { status, .. } => status.as_deref().unwrap(),
        other => panic!("no tool event: {other:?}"),
    }
}

#[test]
fn plain_text_turn_streams_deltas_once() {
    let mut m = mapper(Some(SID), None);
    let init = format!(
        r#"{{"type":"system","subtype":"init","session_id":"{SID}","model":"{}-opus-5"}}"#,
        &ID[..6]
    );
    let evs = events(
        &mut m,
        &[
            init.as_str(),
            r#"{"type":"system","subtype":"status"}"#,
            r#"{"type":"stream_event","event":{"type":"message_start","message":{"id":"msg_1"}},"parent_tool_use_id":null}"#,
            r#"{"type":"stream_event","event":{"type":"content_block_start","index":0,"content_block":{"type":"text","text":""}},"parent_tool_use_id":null}"#,
            r#"{"type":"stream_event","event":{"type":"content_block_delta","index":0,"delta":{"type":"text_delta","text":"pong"}},"parent_tool_use_id":null}"#,
            r#"{"type":"assistant","message":{"id":"msg_1","content":[{"type":"text","text":"pong"}]},"parent_tool_use_id":null}"#,
            r#"{"type":"stream_event","event":{"type":"content_block_stop","index":0},"parent_tool_use_id":null}"#,
        ],
    );
    assert_eq!(types(&evs), vec!["content_delta"]);
    assert!(matches!(&evs[0], AcpEvent::ContentDelta { text, .. } if text == "pong"));
}

#[test]
fn assistant_text_without_deltas_is_emitted() {
    let mut m = mapper(Some(SID), None);
    let evs = events(
        &mut m,
        &[r#"{"type":"assistant","message":{"id":"msg_system","content":[{"type":"text","text":"Please restart"}]},"parent_tool_use_id":null}"#],
    );
    assert_eq!(types(&evs), vec!["content_delta"]);
}

#[test]
fn a_new_session_id_in_init_is_announced() {
    let mut m = mapper(Some("old"), None);
    let line = format!(r#"{{"type":"system","subtype":"init","session_id":"{SID}"}}"#);
    let evs = events(&mut m, &[line.as_str()]);
    assert_eq!(evs, vec![AcpEvent::SessionStarted { session_id: SID.to_string() }]);
}

#[test]
fn tool_use_is_announced_completed_then_resolved() {
    let mut m = mapper(Some(SID), Some("/w"));
    let evs = events(
        &mut m,
        &[
            r#"{"type":"stream_event","event":{"type":"content_block_start","index":1,"content_block":{"type":"tool_use","id":"toolu_015jqmuYEMbzTfZHit6metvt","name":"Bash","input":{}}},"parent_tool_use_id":null}"#,
            r#"{"type":"stream_event","event":{"type":"content_block_delta","index":1,"delta":{"type":"input_json_delta","partial_json":"{\"command\""}},"parent_tool_use_id":null}"#,
            r#"{"type":"assistant","message":{"id":"msg_2","content":[{"type":"tool_use","id":"toolu_015jqmuYEMbzTfZHit6metvt","name":"Bash","input":{"command":"ls /etc | head -3"}}]},"parent_tool_use_id":null}"#,
            r#"{"type":"user","message":{"role":"user","content":[{"tool_use_id":"toolu_015jqmuYEMbzTfZHit6metvt","type":"tool_result","content":"adduser.conf\napt","is_error":false}]},"parent_tool_use_id":null,"tool_use_result":{"stdout":"adduser.conf\napt"}}"#,
        ],
    );
    assert_eq!(types(&evs), vec!["tool_call", "tool_call_update", "tool_call_update"]);
    assert_eq!(status_of(&evs[0]), "pending");
    match &evs[0] {
        AcpEvent::ToolCall { kind, tool_call_id, .. } => {
            assert_eq!(kind, "execute");
            assert_eq!(tool_call_id, "toolu_015jqmuYEMbzTfZHit6metvt");
        }
        other => panic!("{other:?}"),
    }
    match &evs[1] {
        AcpEvent::ToolCallUpdate { title, raw_input, .. } => {
            assert_eq!(title.as_deref(), Some("ls /etc | head -3"));
            assert_eq!(raw_input.as_deref(), Some(r#"{"command":"ls /etc | head -3"}"#));
        }
        other => panic!("{other:?}"),
    }
    assert_eq!(status_of(&evs[2]), "completed");
    match &evs[2] {
        AcpEvent::ToolCallUpdate { raw_output, .. } => {
            assert_eq!(raw_output.as_deref(), Some("\"adduser.conf\\napt\""));
        }
        other => panic!("{other:?}"),
    }
}

#[test]
fn failed_tool_result_is_marked_failed() {
    let evs = mapper(None, None).on_user(&json(
        r#"{"type":"user","message":{"content":[{"type":"tool_result","tool_use_id":"t1","content":"Exit code 137","is_error":true}]}}"#,
    ));
    assert_eq!(status_of(&evs[0]), "failed");
}

#[test]
fn success_result_reports_usage_and_end_turn() {
    let mut m = mapper(Some(SID), None);
    let line = format!(
        r#"{{"type":"result","subtype":"success","is_error":false,"stop_reason":"end_turn","result":"pong",
            "usage":{{"input_tokens":2004,"cache_creation_input_tokens":10850,"cache_read_input_tokens":43816,"output_tokens":25,
                "iterations":[{{"input_tokens":2004,"output_tokens":25,"cache_read_input_tokens":43816,"cache_creation_input_tokens":10850}}]}},
            "modelUsage":{{"{}-opus-5[1m]":{{"contextWindow":1000000}}}}}}"#,
        &ID[..6]
    );
    match m.map_line(&line) {
        LineOutcome::Finished { events, finish } => {
            assert_eq!(events[0], AcpEvent::UsageUpdate { used: 56695, size: 1000000 });
            assert_eq!(finish, TurnFinish { stop_reason: "end_turn".into(), error: None });
        }
        other => panic!("expected Finished, got {other:?}"),
    }
}

#[test]
fn missing_resume_session_maps_to_cli_resume_failed() {
    let finish = finish_from_result(
        &json(
            r#"{"type":"result","subtype":"error_during_execution","is_error":true,
            "errors":["No conversation found with session ID: 03c1c0df-b77b-42d7-88c4-cd34cb1b83f6"]}"#,
        ),
    );
    assert_eq!(finish.stop_reason, "unknown");
    assert_eq!(finish.error.unwrap().code, "cli_resume_failed");
}

#[test]
fn api_errors_and_turn_limits_map_to_lifecycle_reasons() {
    let auth = finish_from_result(
        &json(r#"{"subtype":"success","is_error":true,"api_error_status":401,"result":"Invalid key"}"#),
    );
    assert_eq!(auth.stop_reason, "auth_required");
    assert_eq!(auth.error.unwrap().code, "cli_api_error");
    let turns =
        finish_from_result(&json(r#"{"subtype":"error_max_turns","is_error":true}"#));
    assert_eq!(turns, TurnFinish { stop_reason: "max_turn_requests".into(), error: None });
}

#[test]
fn a_backgrounded_agent_stays_in_progress_until_its_notification() {
    let mut m = mapper(Some(SID), None);
    let evs = events(
        &mut m,
        &[
            r#"{"type":"assistant","message":{"id":"m1","content":[{"type":"tool_use","id":"toolu_bg","name":"Agent","input":{"description":"sleep","prompt":"sleep 25","run_in_background":true}}]},"parent_tool_use_id":null}"#,
            r#"{"type":"system","subtype":"background_tasks_changed","tasks":[{"task_id":"a01","task_type":"local_agent","description":"sleep"}]}"#,
            r#"{"type":"system","subtype":"task_started","task_id":"a01","tool_use_id":"toolu_bg","is_backgrounded":true,"task_type":"local_agent"}"#,
            r#"{"type":"user","message":{"role":"user","content":[{"tool_use_id":"toolu_bg","type":"tool_result","content":[{"type":"text","text":"Async agent launched successfully."}]}]},"parent_tool_use_id":null}"#,
            r#"{"type":"system","subtype":"task_started","task_id":"b01","owned_by_subagent":true,"tool_use_id":"toolu_sub","is_backgrounded":false,"task_type":"local_bash"}"#,
        ],
    );
    assert_eq!(status_of(evs.last().unwrap()), "in_progress", "launch ack is not completion");
    assert!(m.background_pending());

    let evs = events(
        &mut m,
        &[
            r#"{"type":"system","subtype":"background_tasks_changed","tasks":[]}"#,
            r#"{"type":"system","subtype":"task_updated","task_id":"a01","patch":{"status":"completed"}}"#,
            r#"{"type":"system","subtype":"task_notification","task_id":"a01","tool_use_id":"toolu_bg","status":"completed","summary":"SUBAGENT_DONE"}"#,
        ],
    );
    assert!(!m.background_pending());
    assert_eq!(evs.len(), 1);
    assert_eq!(status_of(&evs[0]), "completed");
    match &evs[0] {
        AcpEvent::ToolCallUpdate { tool_call_id, raw_output, .. } => {
            assert_eq!(tool_call_id, "toolu_bg");
            assert!(raw_output.as_deref().unwrap().contains("SUBAGENT_DONE"));
        }
        other => panic!("{other:?}"),
    }
}

#[test]
fn a_sub_agents_background_task_survives_the_main_list_going_empty() {
    let mut m = mapper(Some(SID), None);
    events(
        &mut m,
        &[
            r#"{"type":"system","subtype":"task_started","task_id":"b1","owned_by_subagent":true,"tool_use_id":"toolu_sub","is_backgrounded":true,"task_type":"local_bash"}"#,
            r#"{"type":"system","subtype":"background_tasks_changed","tasks":[]}"#,
        ],
    );
    assert!(m.background_pending(), "the sub-agent still waits on it");
    let evs = events(
        &mut m,
        &[r#"{"type":"system","subtype":"task_notification","task_id":"b1","tool_use_id":"toolu_sub","status":"completed","summary":"BG_OK"}"#],
    );
    assert!(!m.background_pending());
    assert!(evs.is_empty(), "a sub-agent's task owns no main-thread card");
}

#[test]
fn a_failed_background_task_settles_its_card_as_failed() {
    let mut m = mapper(Some(SID), None);
    events(
        &mut m,
        &[r#"{"type":"system","subtype":"task_started","task_id":"t","tool_use_id":"toolu_x","is_backgrounded":true}"#],
    );
    assert!(m.background_pending());
    let evs = events(
        &mut m,
        &[r#"{"type":"system","subtype":"task_notification","task_id":"t","tool_use_id":"toolu_x","status":"failed","summary":"boom"}"#],
    );
    assert!(!m.background_pending());
    assert_eq!(status_of(&evs[0]), "failed");
}

#[test]
fn garbage_is_unparsable() {
    let mut m = mapper(None, None);
    assert!(matches!(m.map_line("not json"), LineOutcome::Unparsable));
}

#[test]
fn a_failed_result_names_the_agent_when_it_gives_no_reason() {
    let finish = finish_from_result(&json(r#"{"subtype":"x","is_error":true}"#));
    assert_eq!(finish.stop_reason, "unknown");
    let error = finish.error.unwrap();
    assert_eq!(error.code, "cli_execution_error");
    assert_eq!(error.message, format!("{} turn failed (x)", called()));
    let finish = finish_from_result(&json(r#"{"subtype":"success","is_error":true}"#));
    assert_eq!(finish.error.unwrap().message, format!("{} reported an API error", called()));
}

#[test]
fn thinking_deltas_become_thinking() {
    let mut m = mapper(Some(SID), None);
    let evs = events(
        &mut m,
        &[
            r#"{"type":"stream_event","event":{"type":"message_start","message":{"id":"m"}}}"#,
            r#"{"type":"stream_event","event":{"type":"content_block_delta","index":0,"delta":{"type":"thinking_delta","thinking":"hm"}}}"#,
        ],
    );
    assert_eq!(
        evs,
        vec![AcpEvent::Thinking { text: "hm".into(), parent_tool_use_id: None }]
    );
}
