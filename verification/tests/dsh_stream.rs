use codeg::cli::dsh_stream::DshStreamMapper;
use codeg::cli::outcome::LineOutcome;
use codeg::events::AcpEvent;

fn mapper() -> DshStreamMapper {
    DshStreamMapper::new(None, Some("/ws".into()), Some(256000))
}

fn events(outcome: LineOutcome) -> Vec<AcpEvent> {
    match outcome {
        LineOutcome::Events(e) => e,
        other => panic!("expected Events, got {other:?}"),
    }
}

#[test]
fn session_line_announces_the_id_once() {
    let mut m = mapper();
    let line = r#"{"type":"session","sessionId":"session-abc","cwd":"/ws"}"#;
    let first = events(m.map_line(line));
    assert!(
        matches!(&first[0], AcpEvent::SessionStarted { session_id } if session_id == "session-abc")
    );
    assert!(events(m.map_line(line)).is_empty());
}

#[test]
fn text_and_thinking_become_whole_block_events() {
    let mut m = mapper();
    let t = events(m.map_line(r#"{"type":"thinking","text":"hmm"}"#));
    assert!(matches!(&t[0], AcpEvent::Thinking { text, .. } if text == "hmm"));
    let c = events(m.map_line(r#"{"type":"text","text":"hi"}"#));
    assert!(matches!(&c[0], AcpEvent::ContentDelta { text, .. } if text == "hi"));
}

#[test]
fn tool_call_and_result_map_to_call_and_update() {
    let mut m = mapper();
    let call = events(m.map_line(
        r#"{"type":"tool_call","callId":"c1","tool":"mcp__app-notion__notion-fetch","input":{"id":"self"}}"#,
    ));
    match &call[0] {
        AcpEvent::ToolCall { tool_call_id, status, raw_input, kind, .. } => {
            assert_eq!(tool_call_id, "c1");
            assert_eq!(status, "in_progress");
            assert_eq!(raw_input.as_deref(), Some(r#"{"id":"self"}"#));
            assert_eq!(kind, "other");
        }
        other => panic!("{other:?}"),
    }
    let result = events(
        m.map_line(r#"{"type":"tool_result","callId":"c1","status":"error","result":"boom"}"#),
    );
    match &result[0] {
        AcpEvent::ToolCallUpdate { tool_call_id, status, raw_output, .. } => {
            assert_eq!(tool_call_id, "c1");
            assert_eq!(status.as_deref(), Some("failed"));
            assert_eq!(raw_output.as_deref(), Some("\"boom\""));
        }
        other => panic!("{other:?}"),
    }
}

#[test]
fn final_after_completed_turn_end_finishes_with_last_step_usage() {
    let mut m = mapper();
    m.map_line(r#"{"type":"status","phase":"step_end","turn":1,"step":1,"usage":{"inputTokens":8000,"outputTokens":100,"totalTokens":8100}}"#);
    m.map_line(r#"{"type":"status","phase":"step_end","turn":1,"step":2,"usage":{"inputTokens":9000,"outputTokens":50,"totalTokens":9050}}"#);
    m.map_line(r#"{"type":"text","text":"answer"}"#);
    m.map_line(r#"{"type":"status","phase":"turn_end","turn":1,"reason":{"kind":"completed"}}"#);
    match m.map_line(r#"{"type":"final","text":"answer"}"#) {
        LineOutcome::Finished { events, finish } => {
            assert_eq!(finish.stop_reason, "end_turn");
            assert!(finish.error.is_none());
            assert_eq!(events.len(), 1, "no duplicate text, one usage_update");
            assert!(matches!(events[0], AcpEvent::UsageUpdate { used: 9050, size } if size > 0));
        }
        other => panic!("{other:?}"),
    }
}

#[test]
fn final_without_a_text_block_supplies_the_text() {
    let mut m = mapper();
    match m.map_line(r#"{"type":"final","text":"only here"}"#) {
        LineOutcome::Finished { events, finish } => {
            assert!(
                matches!(&events[0], AcpEvent::ContentDelta { text, .. } if text == "only here")
            );
            assert_eq!(finish.stop_reason, "end_turn");
        }
        other => panic!("{other:?}"),
    }
}

#[test]
fn turn_end_error_is_an_api_error_and_auth_codes_map_to_auth_required() {
    let mut m = mapper();
    m.map_line(r#"{"type":"status","phase":"turn_end","turn":1,"reason":{"kind":"error","error":{"message":"no API key","code":"MISSING_CREDENTIAL"}}}"#);
    match m.map_line(r#"{"type":"final","text":""}"#) {
        LineOutcome::Finished { finish, .. } => {
            assert_eq!(finish.stop_reason, "auth_required");
            let err = finish.error.unwrap();
            assert_eq!(err.code, "cli_api_error");
            assert_eq!(err.message, "no API key");
        }
        other => panic!("{other:?}"),
    }
    let mut m = mapper();
    m.map_line(r#"{"type":"status","phase":"turn_end","turn":1,"reason":{"kind":"error","error":{"message":"rate limited","code":"RATE_LIMIT"}}}"#);
    match m.map_line(r#"{"type":"final","text":""}"#) {
        LineOutcome::Finished { finish, .. } => assert_eq!(finish.stop_reason, "unknown"),
        other => panic!("{other:?}"),
    }
}

#[test]
fn aborted_turn_end_is_cancelled() {
    let mut m = mapper();
    m.map_line(r#"{"type":"status","phase":"turn_end","turn":1,"reason":{"kind":"aborted"}}"#);
    assert_eq!(m.take_pending_finish().unwrap().stop_reason, "cancelled");
}

#[test]
fn runner_error_finishes_immediately_and_classifies_resume_failures() {
    let mut m = mapper();
    match m
        .map_line(r#"{"type":"error","message":"unknown session id session-x: no stored Session"}"#)
    {
        LineOutcome::Finished { finish, .. } => {
            assert_eq!(finish.error.unwrap().code, "cli_resume_failed")
        }
        other => panic!("{other:?}"),
    }
    match m.map_line(r#"{"type":"error","message":"error: unknown option '--bogus'"}"#) {
        LineOutcome::Finished { finish, .. } => {
            assert_eq!(finish.error.unwrap().code, "cli_execution_error")
        }
        other => panic!("{other:?}"),
    }
}

#[test]
fn garbage_is_unparsable_and_unknown_types_are_ignored() {
    let mut m = mapper();
    assert!(matches!(m.map_line("not json"), LineOutcome::Unparsable));
    assert!(events(m.map_line(r#"{"type":"status","phase":"turn_start","turn":1}"#)).is_empty());
    assert!(events(m.map_line(r#"{"type":"something_new"}"#)).is_empty());
}

#[test]
fn a_pending_finish_is_handed_out_once() {
    let mut m = mapper();
    m.map_line(r#"{"type":"status","phase":"turn_end","turn":1,"reason":{"kind":"completed"}}"#);
    assert!(m.take_pending_finish().is_some());
    assert!(m.take_pending_finish().is_none());
}

#[test]
fn without_a_context_window_no_usage_is_reported() {
    let mut m = DshStreamMapper::new(None, None, None);
    m.map_line(r#"{"type":"status","phase":"step_end","usage":{"inputTokens":9000,"outputTokens":50}}"#);
    assert_eq!(m.usage_update(), None);
    let mut m = DshStreamMapper::new(None, None, Some(1000));
    m.map_line(r#"{"type":"status","phase":"step_end","usage":{"inputTokens":9000,"outputTokens":50}}"#);
    assert_eq!(m.usage_update(), Some((9050, 1000)));
}
