use codeg::json::Json;
use codeg::replay_gate::{
    decide, session_id_of, update_kind_of, GateAction, Incoming, MessageKind, ReplayGate,
};

const RESUME: &str = "session/resume";

#[test]
fn captures_this_sessions_notifications_while_open() {
    assert_eq!(
        decide(false, true, false, "session/update", RESUME, true, Some("agent_message_chunk")),
        GateAction::Capture
    );
}

#[test]
fn the_restoring_response_closes_the_gate_and_passes() {
    assert_eq!(
        decide(false, false, true, RESUME, RESUME, false, None),
        GateAction::CloseAndPass
    );
}

#[test]
fn a_different_response_does_not_close_the_gate() {
    assert_eq!(
        decide(false, false, true, "session/set_mode", RESUME, false, None),
        GateAction::Pass
    );
}

#[test]
fn nothing_is_captured_after_the_gate_closes() {
    assert_eq!(
        decide(true, true, false, "session/update", RESUME, true, Some("agent_message_chunk")),
        GateAction::Pass
    );
}

#[test]
fn other_sessions_pass_through() {
    assert_eq!(
        decide(false, true, false, "session/update", RESUME, false, Some("agent_message_chunk")),
        GateAction::Pass
    );
}

#[test]
fn requests_are_never_captured() {
    assert_eq!(
        decide(false, false, false, "session/request_permission", RESUME, true, None),
        GateAction::Pass
    );
}

#[test]
fn state_updates_pass_before_the_response() {
    for kind in [
        "current_mode_update",
        "config_option_update",
        "available_commands_update",
        "usage_update",
        "session_info_update",
    ] {
        assert_eq!(
            decide(false, true, false, "session/update", RESUME, true, Some(kind)),
            GateAction::Pass,
            "{kind}"
        );
    }
}

#[test]
fn history_kinds_and_unknown_kinds_are_captured() {
    for kind in [
        "user_message_chunk",
        "agent_message_chunk",
        "agent_thought_chunk",
        "tool_call",
        "tool_call_update",
        "plan",
        "some_future_kind",
    ] {
        assert_eq!(
            decide(false, true, false, "session/update", RESUME, true, Some(kind)),
            GateAction::Capture,
            "{kind}"
        );
    }
}

#[test]
fn extension_notifications_for_the_session_are_captured() {
    assert_eq!(
        decide(false, true, false, "_grok/alert", RESUME, true, None),
        GateAction::Capture
    );
}

fn update(session: &str, kind: &str) -> Incoming {
    let text = format!(
        r#"{{"sessionId":"{session}","update":{{"sessionUpdate":"{kind}","content":{{"type":"text","text":"x"}}}}}}"#
    );
    Incoming {
        kind: MessageKind::Notification,
        method: "session/update".to_string(),
        params: Some(Json::parse(&text).unwrap()),
    }
}

fn answer(method: &str) -> Incoming {
    Incoming { kind: MessageKind::Response, method: method.to_string(), params: None }
}

#[test]
fn gate_splits_replay_from_live_output_at_the_response() {
    let mut gate = ReplayGate::new("s1", RESUME);
    let row = vec![
        update("s1", "user_message_chunk"),
        update("s1", "current_mode_update"),
        update("s1", "agent_message_chunk"),
        answer(RESUME),
        update("s1", "agent_message_chunk"),
    ];
    let actions: Vec<GateAction> = row.iter().map(|m| gate.on_message(m)).collect();
    assert_eq!(
        actions,
        vec![
            GateAction::Capture,
            GateAction::Pass,
            GateAction::Capture,
            GateAction::CloseAndPass,
            GateAction::Pass,
        ]
    );
}

#[test]
fn a_closed_gate_lets_everything_pass() {
    let mut gate = ReplayGate::new("s1", RESUME);
    assert_eq!(gate.on_message(&update("s2", "agent_message_chunk")), GateAction::Pass);
    assert_eq!(gate.on_message(&update("s1", "agent_message_chunk")), GateAction::Capture);
    gate.close();
    assert_eq!(gate.on_message(&update("s1", "agent_message_chunk")), GateAction::Pass);
    assert_eq!(gate.on_message(&answer(RESUME)), GateAction::Pass);
}

#[test]
fn the_gate_reads_session_and_kind() {
    let m = update("s1", "plan");
    assert_eq!(session_id_of(&m), Some("s1"));
    assert_eq!(update_kind_of(&m), Some("plan"));
    assert_eq!(session_id_of(&answer(RESUME)), None);
    assert_eq!(update_kind_of(&answer(RESUME)), None);
    assert_eq!(
        ReplayGate::new("s1", RESUME).describe(),
        "ReplayGate(s1 until session/resume response)"
    );
}
