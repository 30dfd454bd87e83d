use codeg::cli::codex_stream::{
    codex_tool_info, tool_failed, tool_output, unwrap_shell, CodexStreamMapper,
};
use codeg::cli::outcome::{LineOutcome, TurnFinish, STOP_CANCELLED, STOP_END_TURN, STOP_UNKNOWN};
use codeg::events::AcpEvent;
use codeg::json::Json;

fn json(text: &str) -> Json {
    Json::parse(text).unwrap()
}

fn mapper() -> CodexStreamMapper {
    CodexStreamMapper::new(Some("/tmp/codex-probe/work".into()), Some(272000))
}

/// A turn with streamed text, a command, an edit and a usage report.
fn recorded() -> Vec<String> {
    let mut lines: Vec<String> = Vec::new();
    lines.push(r#"{"method":"turn/started","params":{"turn":{"id":"t1","status":"inProgress"}}}"#.into());
    for word in ["I", " ", "will", " ", "list", " ", "the", " ", "files", " ", "of", " ", "/etc", "."] {
        lines.push(format!(
            r#"{{"method":"item/agentMessage/delta","params":{{"turnId":"t1","itemId":"m1","delta":"{word}"}}}}"#
        ));
    }
    lines.push(r#"{"method":"item/completed","params":{"turnId":"t1","item":{"type":"agentMessage","id":"m1","text":"I will list the files of /etc."}}}"#.into());
    lines.push(r#"{"method":"item/started","params":{"turnId":"t1","item":{"type":"commandExecution","id":"c1","command":"/bin/bash -lc 'ls -1 /etc'","status":"inProgress"}}}"#.into());
    lines.push(r#"{"method":"item/completed","params":{"turnId":"t1","item":{"type":"commandExecution","id":"c1","command":"/bin/bash -lc 'ls -1 /etc'","status":"completed","exitCode":0,"aggregatedOutput":"adduser.conf\napt\n"}}}"#.into());
    lines.push(r#"{"method":"item/started","params":{"turnId":"t1","item":{"type":"fileChange","id":"f1","status":"inProgress","changes":[{"path":"/tmp/codex-probe/work/note.txt","kind":{"type":"add"},"diff":"hi"}]}}}"#.into());
    lines.push(r#"{"method":"item/completed","params":{"turnId":"t1","item":{"type":"fileChange","id":"f1","status":"completed","changes":[{"path":"/tmp/codex-probe/work/note.txt","kind":{"type":"add"},"diff":"hi"}]}}}"#.into());
    lines.push(r#"{"method":"thread/tokenUsage/updated","params":{"turnId":"t1","tokenUsage":{"last":{"inputTokens":1100,"outputTokens":100},"modelContextWindow":258400}}}"#.into());
    lines.push(r#"{"method":"turn/completed","params":{"turn":{"id":"t1","status":"completed","error":null}}}"#.into());
    lines
}

fn replay() -> (Vec<AcpEvent>, TurnFinish) {
    let mut m = mapper();
    let mut events = Vec::new();
    for line in recorded() {
        match m.map_notification(&json(&line)) {
            LineOutcome::Events(e) => events.extend(e),
            LineOutcome::Finished { events: e, finish } => {
                events.extend(e);
                return (events, finish);
            }
            LineOutcome::Unparsable => panic!("unparsable"),
        }
    }
    panic!("no turn/completed");
}

fn finish(outcome: LineOutcome) -> TurnFinish {
    match outcome {
        LineOutcome::Finished { finish, .. } => finish,
        other => panic!("{other:?}"),
    }
}

fn plain(outcome: LineOutcome) -> Vec<AcpEvent> {
    match outcome {
        LineOutcome::Events(e) => e,
        other => panic!("{other:?}"),
    }
}

#[test]
fn recorded_turn_streams_text_tools_usage_and_ends_the_turn() {
    let (events, finish) = replay();
    assert_eq!(finish.stop_reason, STOP_END_TURN);
    assert!(finish.error.is_none());

    let deltas = events.iter().filter(|e| matches!(e, AcpEvent::ContentDelta { .. })).count();
    assert!(deltas > 10, "text should arrive as many small deltas, got {deltas}");

    let calls: Vec<(&str, &str)> = events
        .iter()
        .filter_map(|e| match e {
            AcpEvent::ToolCall { title, kind, .. } => Some((title.as_str(), kind.as_str())),
            _ => None,
        })
        .collect();
    assert_eq!(calls, vec![("ls -1 /etc", "execute"), ("Edit note.txt", "edit")]);

    let updates: Vec<&str> = events
        .iter()
        .filter_map(|e| match e {
            AcpEvent::ToolCallUpdate { status, .. } => status.as_deref(),
            _ => None,
        })
        .collect();
    assert_eq!(updates, vec!["completed", "completed"]);

    assert!(events.iter().any(|e| matches!(e, AcpEvent::UsageUpdate { size, .. } if *size > 0)));
}

#[test]
fn command_card_shows_the_bare_command_and_its_output() {
    let (events, _) = replay();
    let output = events
        .iter()
        .find_map(|e| match e {
            AcpEvent::ToolCallUpdate { raw_output, .. } => raw_output.clone(),
            _ => None,
        })
        .unwrap();
    assert!(output.contains("adduser.conf"));
}

#[test]
fn failed_and_interrupted_turns_map_to_error_and_cancelled() {
    let mut m = mapper();
    m.map_notification(&json(r#"{"method":"error","params":{"error":{"message":"{\"error\":{\"message\":\"The encrypted content could not be verified.\"}}"},"willRetry":false}}"#));
    let f = finish(m.map_notification(&json(
        r#"{"method":"turn/completed","params":{"turn":{"id":"t","status":"failed","error":null}}}"#,
    )));
    assert_eq!(f.stop_reason, STOP_UNKNOWN);
    assert_eq!(f.error.unwrap().message, "The encrypted content could not be verified.");

    let mut m = mapper();
    let f = finish(m.map_notification(&json(
        r#"{"method":"turn/completed","params":{"turn":{"id":"t","status":"interrupted","error":null}}}"#,
    )));
    assert_eq!(f.stop_reason, STOP_CANCELLED);
    assert!(f.error.is_none());
}

#[test]
fn auth_failures_ask_for_auth() {
    let mut m = mapper();
    let f = finish(m.map_notification(&json(
        r#"{"method":"turn/completed","params":{"turn":{"status":"failed","error":{"message":"unexpected status 401 Unauthorized"}}}}"#,
    )));
    assert_eq!(f.stop_reason, "auth_required");
}

#[test]
fn notifications_for_another_turn_are_ignored() {
    let mut m = mapper();
    m.set_turn_id("mine");
    let e = plain(m.map_notification(&json(
        r#"{"method":"item/agentMessage/delta","params":{"turnId":"other","itemId":"x","delta":"hi"}}"#,
    )));
    assert!(e.is_empty());
}

#[test]
fn message_without_deltas_is_emitted_on_completion_once() {
    let completed = r#"{"method":"item/completed","params":{"item":{"type":"agentMessage","id":"m1","text":"whole"}}}"#;
    let mut m = mapper();
    let e = plain(m.map_notification(&json(completed)));
    assert!(matches!(&e[..], [AcpEvent::ContentDelta { text, .. }] if text == "whole"));

    let mut m = mapper();
    m.map_notification(&json(
        r#"{"method":"item/agentMessage/delta","params":{"itemId":"m1","delta":"who"}}"#,
    ));
    let e = plain(m.map_notification(&json(completed)));
    assert!(e.is_empty());
}

#[test]
fn mcp_tool_call_title_and_failure() {
    let item = json(
        r#"{"type":"mcpToolCall","id":"c1","server":"app-notion","tool":"notion-fetch",
            "status":"failed","arguments":{"id":"x"},"result":null,"error":{"message":"boom"}}"#,
    );
    assert_eq!(codex_tool_info(&item, None).title, "app-notion: notion-fetch");
    assert!(tool_failed(&item));
    assert_eq!(tool_output(&item), Json::Str("boom".into()));
}

#[test]
fn the_shell_around_a_command_is_taken_off() {
    assert_eq!(unwrap_shell("/bin/bash -lc 'ls -1 /etc'").as_deref(), Some("ls -1 /etc"));
    assert_eq!(unwrap_shell("bash -lc 'ls'").as_deref(), Some("ls"));
    assert_eq!(unwrap_shell("bash -lc \"ls\""), None);
    assert_eq!(unwrap_shell("ls -1 /etc"), None);
}

#[test]
fn the_end_of_a_turn_fails_the_cards_that_are_open() {
    let mut m = mapper();
    let mut tell = |method: &str, id: &str, kind: &str| {
        let text = format!(
            r#"{{"method":"{method}","params":{{"item":{{"type":"{kind}","id":"{id}","command":"ls","status":"completed"}}}}}}"#
        );
        m.map_notification(&json(&text))
    };
    plain(tell("item/started", "a", "commandExecution"));
    plain(tell("item/started", "b", "commandExecution"));
    plain(tell("item/started", "c", "fileChange"));
    plain(tell("item/started", "x", "agentMessage"));
    plain(tell("item/completed", "b", "commandExecution"));
    plain(tell("item/completed", "d", "commandExecution"));
    plain(tell("item/started", "a", "commandExecution"));
    let end = json(r#"{"method":"turn/completed","params":{"turn":{"id":"t","status":"completed"}}}"#);
    let LineOutcome::Finished { events, finish } = m.map_notification(&end) else {
        panic!("the turn goes on")
    };
    let failed: Vec<String> = events
        .iter()
        .filter_map(|e| match e {
            AcpEvent::ToolCallUpdate { tool_call_id, status, .. } => {
                assert_eq!(status.as_deref(), Some("failed"));
                Some(tool_call_id.clone())
            }
            _ => None,
        })
        .collect();
    assert_eq!(failed, vec!["a", "c"]);
    assert_eq!(finish.stop_reason, STOP_END_TURN);
    assert!(finish.error.is_none());
}
