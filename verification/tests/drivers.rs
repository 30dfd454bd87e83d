use codeg::agents::DriverKind;
use codeg::cli::codex_driver::{
    app_server_args, build_input, ClientInfo, CodexPump, Deadline,
};
use codeg::cli::driver::{
    begin_turn, build_args, build_stdin_line, session_or, turn_args, turn_session, ClaudePump,
};
use codeg::cli::dsh_driver::{prepare_turn, DshPump};
use codeg::cli::outcome::CliTurnError;
use codeg::cli::prompt::{CompanionLaunchSpec, PromptInputBlock};
use codeg::cli::turn::{
    self, CommandKind, Idle, Leave, OutputTail, ProcessExit, Rejection, TurnEffect, TurnEnd, TurnInput,
    TurnRecord,
};
use codeg::events::{AcpEvent, ConnectionStatus};
use codeg::json::Json;

const SID: &str = "7a170f72-bff6-475a-bd3c-a3ead269f0b5";
const DSH_SID: &str = "session-11c2b268-f4fc-4eba-805a-ec1a49c08a8f";
const THREAD_ID: &str = "01a0b54e-568c-7310-aa4d-f777c3663fb7";

const ID: &str = "claude_code";

/// What messages call the agent: the two words of its id, each with a capital.
fn called() -> String {
    format!("C{} C{}", &ID[1..6], &ID[8..])
}

fn json(text: &str) -> Json {
    Json::parse(text).unwrap()
}

fn text(s: &str) -> PromptInputBlock {
    PromptInputBlock::Text { text: s.into() }
}

fn kind_of(event: &AcpEvent) -> &'static str {
    match event {
        AcpEvent::SessionStarted { .. } => "session_started",
        AcpEvent::StatusChanged { .. } => "status_changed",
        AcpEvent::UserMessage { .. } => "user_message",
        AcpEvent::ContentDelta { .. } => "content_delta",
        AcpEvent::Thinking { .. } => "thinking",
        AcpEvent::ToolCall { .. } => "tool_call",
        AcpEvent::ToolCallUpdate { .. } => "tool_call_update",
        AcpEvent::UsageUpdate { .. } => "usage_update",
        AcpEvent::Error { .. } => "error",
        AcpEvent::TurnComplete { .. } => "turn_complete",
    }
}

fn emitted(effects: &[TurnEffect]) -> Vec<&AcpEvent> {
    effects
        .iter()
        .filter_map(|e| match e {
            TurnEffect::Emit(event) => Some(event),
            _ => None,
        })
        .collect()
}

fn types(effects: &[TurnEffect]) -> Vec<&'static str> {
    emitted(effects).into_iter().map(kind_of).collect()
}

/// What was written to the history.
fn history(effects: &[TurnEffect]) -> Vec<&'static str> {
    effects
        .iter()
        .filter_map(|e| match e {
            TurnEffect::RecordStart { .. } => Some("prompt"),
            TurnEffect::RecordUpdate { .. } => Some("update"),
            TurnEffect::RecordError { .. } => Some("error"),
            TurnEffect::RecordEnd { .. } => Some("turn_end"),
            _ => None,
        })
        .collect()
}

fn stop_reason(effects: &[TurnEffect]) -> String {
    for event in emitted(effects) {
        if let AcpEvent::TurnComplete { stop_reason, .. } = event {
            return stop_reason.clone();
        }
    }
    panic!("no turn_complete")
}

fn error_of(effects: &[TurnEffect]) -> (String, String, Option<String>) {
    for event in emitted(effects) {
        if let AcpEvent::Error { code, message, details, .. } = event {
            return (code.clone().unwrap(), message.clone(), details.clone());
        }
    }
    panic!("no error event")
}

fn init_line() -> String {
    format!(
        r#"{{"type":"system","subtype":"init","session_id":"{SID}","model":"{}-opus-5"}}"#,
        &ID[..6]
    )
}

/// Runs one turn over the given output; `status` and `tail` tell how the process ended.
fn claude_turn(lines: &[&str], last: TurnInput, status: &str, tail: &str) -> Vec<TurnEffect> {
    let mut effects = begin_turn(None, SID, false);
    let mut pump = ClaudePump::new(SID, "/w");
    let mut end = None;
    for line in lines {
        let (more, done) = pump.on_input(TurnInput::Line(line.to_string()));
        effects.extend(more);
        if done.is_some() {
            end = done;
            break;
        }
    }
    let end = match end {
        Some(end) => end,
        None => {
            let (more, done) = pump.on_input(last);
            effects.extend(more);
            done.unwrap()
        }
    };
    let (finish, disconnect) = turn::conclude(DriverKind::Stream, end, status, tail);
    effects.extend(turn::end_turn(
        finish,
        Some(SID),
        Some(SID),
        "claude_code",
        5,
        None,
        disconnect,
    ));
    effects
}

const PONG: [&str; 4] = [
    r#"{"type":"stream_event","event":{"type":"content_block_start","index":0,"content_block":{"type":"text","text":""}},"parent_tool_use_id":null}"#,
    r#"{"type":"stream_event","event":{"type":"content_block_delta","index":0,"delta":{"type":"text_delta","text":"pong"}},"parent_tool_use_id":null}"#,
    r#"{"type":"assistant","message":{"id":"m1","content":[{"type":"text","text":"pong"}]},"parent_tool_use_id":null}"#,
    r#"{"type":"result","subtype":"success","is_error":false,"stop_reason":"end_turn","result":"pong","usage":{"input_tokens":10,"output_tokens":2},"modelUsage":{"m":{"contextWindow":200000}}}"#,
];

#[test]
fn a_turn_streams_events_and_returns_to_connected() {
    let init = init_line();
    let mut lines = vec![init.as_str()];
    lines.extend(PONG);
    let effects = claude_turn(&lines, TurnInput::Closed, "", "");
    assert_eq!(
        types(&effects),
        vec!["status_changed", "content_delta", "usage_update", "turn_complete", "status_changed"]
    );
    let events = emitted(&effects);
    assert_eq!(*events[0], AcpEvent::StatusChanged { status: ConnectionStatus::Prompting });
    match events[3] {
        AcpEvent::TurnComplete { session_id, stop_reason, .. } => {
            assert_eq!(stop_reason, "end_turn");
            assert_eq!(session_id, SID);
        }
        other => panic!("{other:?}"),
    }
    assert_eq!(*events[4], AcpEvent::StatusChanged { status: ConnectionStatus::Connected });

    let args = build_args(SID, false, None);
    assert!(args.windows(2).any(|w| w == ["--session-id", SID]));
    assert!(args.windows(2).any(|w| w == ["--permission-mode", "bypassPermissions"]));
    assert!(!args.iter().any(|a| a == "--resume"));
    assert_eq!(
        json(&build_stdin_line(&vec![text("hi")])).write(),
        json(r#"{"type":"user","message":{"role":"user","content":[{"type":"text","text":"hi"}]}}"#)
            .write()
    );
}

#[test]
fn an_existing_transcript_is_resumed_and_the_model_is_passed() {
    let model = format!("{}-sonnet-5", &ID[..6]);
    let args = build_args(SID, true, Some(&model));
    assert!(args.windows(2).any(|w| w == ["--resume", SID]));
    assert!(args.windows(2).any(|w| w[0] == "--model" && w[1] == model));
}

#[test]
fn an_early_exit_reports_cli_exited_and_frees_the_turn_gate() {
    let init = init_line();
    let effects = claude_turn(&[init.as_str()], TurnInput::Closed, "exit code 3", "boom");
    let (code, message, details) = error_of(&effects);
    assert_eq!(code, "cli_exited");
    assert!(message.contains("exit code 3"));
    assert!(details.unwrap().contains("boom"));
    assert_eq!(stop_reason(&effects), "unknown");
    assert_eq!(
        **emitted(&effects).last().unwrap(),
        AcpEvent::StatusChanged { status: ConnectionStatus::Connected }
    );
}

#[test]
fn a_resume_failure_maps_to_cli_resume_failed() {
    let effects = claude_turn(
        &[r#"{"type":"result","subtype":"error_during_execution","is_error":true,"errors":["No conversation found with session ID: x"]}"#],
        TurnInput::Closed,
        "exit code 1",
        "",
    );
    assert_eq!(error_of(&effects).0, "cli_resume_failed");
}

#[test]
fn cancel_kills_the_running_cli_and_completes_the_turn() {
    let init = init_line();
    let effects = claude_turn(&[init.as_str()], TurnInput::Cancel, "", "");
    assert_eq!(stop_reason(&effects), "cancelled");
    assert!(!types(&effects).contains(&"error"));
    assert_eq!(TurnEnd::Cancelled.leave(), Leave::Stop);
    assert_eq!(TurnEnd::Eof.leave(), Leave::Wait);
}

#[test]
fn disconnect_stops_the_driver_and_drops_the_connection() {
    assert_eq!(turn::on_idle_command(CommandKind::Disconnect), Idle::Stop);
    let effects = claude_turn(&[], TurnInput::Disconnect, "", "");
    assert_eq!(stop_reason(&effects), "cancelled");
    assert_eq!(kind_of(emitted(&effects).last().unwrap()), "turn_complete");
}

#[test]
fn a_turn_is_recorded_to_codegs_transcript() {
    let init = init_line();
    let mut lines = vec![init.as_str()];
    lines.extend(PONG);
    let effects = claude_turn(&lines, TurnInput::Closed, "", "");
    let kinds = history(&effects);
    assert_eq!(kinds.first(), Some(&"prompt"));
    assert!(kinds.contains(&"update"));
    assert_eq!(kinds.last(), Some(&"turn_end"));
    for event in emitted(&effects) {
        if let AcpEvent::TurnComplete { duration_ms, .. } = event {
            assert_eq!(*duration_ms, Some(5));
        }
    }
}

#[test]
fn a_background_task_keeps_the_turn_open_until_its_follow_up() {
    let init = init_line();
    let effects = claude_turn(
        &[
            init.as_str(),
            r#"{"type":"assistant","message":{"id":"m1","content":[{"type":"tool_use","id":"toolu_bg","name":"Agent","input":{"description":"sleep","prompt":"sleep 25","run_in_background":true}}]},"parent_tool_use_id":null}"#,
            r#"{"type":"system","subtype":"background_tasks_changed","tasks":[{"task_id":"a01"}]}"#,
            r#"{"type":"system","subtype":"task_started","task_id":"a01","tool_use_id":"toolu_bg","is_backgrounded":true}"#,
            r#"{"type":"user","message":{"role":"user","content":[{"tool_use_id":"toolu_bg","type":"tool_result","content":"Async agent launched successfully."}]},"parent_tool_use_id":null}"#,
            r#"{"type":"assistant","message":{"id":"m2","content":[{"type":"text","text":"started"}]},"parent_tool_use_id":null}"#,
            r#"{"type":"result","subtype":"success","is_error":false,"stop_reason":"end_turn","result":"started"}"#,
            r#"{"type":"assistant","message":{"id":"s1","content":[{"type":"text","text":"SIDECHAIN"}]},"parent_tool_use_id":"toolu_bg"}"#,
            r#"{"type":"system","subtype":"background_tasks_changed","tasks":[]}"#,
            r#"{"type":"system","subtype":"task_notification","task_id":"a01","tool_use_id":"toolu_bg","status":"completed","summary":"SUBAGENT_DONE"}"#,
            init.as_str(),
            r#"{"type":"assistant","message":{"id":"m3","content":[{"type":"text","text":"done"}]},"parent_tool_use_id":null}"#,
            r#"{"type":"result","subtype":"success","is_error":false,"stop_reason":"end_turn","result":"done"}"#,
        ],
        TurnInput::Closed,
        "",
        "",
    );
    let events = emitted(&effects);
    assert_eq!(events.iter().filter(|e| kind_of(e) == "turn_complete").count(), 1);
    let texts: Vec<&str> = events
        .iter()
        .filter_map(|e| match e {
            AcpEvent::ContentDelta { text, .. } => Some(text.as_str()),
            _ => None,
        })
        .collect();
    assert!(texts.contains(&"started") && texts.contains(&"done"), "{texts:?}");
    let done_at = events
        .iter()
        .position(|e| matches!(e, AcpEvent::ContentDelta { text, .. } if text == "done"))
        .unwrap();
    let complete_at = events.iter().position(|e| kind_of(e) == "turn_complete").unwrap();
    assert!(done_at < complete_at, "the follow-up lands inside the turn");
    let card: Vec<&str> = events
        .iter()
        .filter_map(|e| match e {
            AcpEvent::ToolCallUpdate { tool_call_id, status, .. } if tool_call_id == "toolu_bg" => {
                Some(status.as_deref().unwrap_or_default())
            }
            _ => None,
        })
        .collect();
    assert_eq!(card.last(), Some(&"completed"), "{card:?}");
    assert!(card.contains(&"in_progress"), "{card:?}");

    let recorded: String = effects
        .iter()
        .filter_map(|e| match e {
            TurnEffect::RecordUpdate { update, .. } => Some(update.write()),
            _ => None,
        })
        .collect();
    assert!(recorded.contains("done"));
    assert!(!recorded.contains("SIDECHAIN"), "sub-agent prose is live-only");
    assert_eq!(history(&effects).iter().filter(|k| **k == "turn_end").count(), 1);
}

#[test]
fn eof_after_a_deferred_result_finishes_normally() {
    let init = init_line();
    let effects = claude_turn(
        &[
            init.as_str(),
            r#"{"type":"system","subtype":"task_started","task_id":"a01","tool_use_id":"toolu_bg","is_backgrounded":true}"#,
            r#"{"type":"assistant","message":{"id":"m1","content":[{"type":"text","text":"started"}]},"parent_tool_use_id":null}"#,
            r#"{"type":"result","subtype":"success","is_error":false,"stop_reason":"end_turn","result":"started"}"#,
        ],
        TurnInput::Closed,
        "",
        "",
    );
    assert_eq!(stop_reason(&effects), "end_turn");
    assert!(!types(&effects).contains(&"error"));
}

#[test]
fn garbage_ends_the_turn_after_fifty_lines() {
    let mut pump = ClaudePump::new(SID, "/w");
    for _ in 0..49 {
        assert!(pump.on_input(TurnInput::Line("garbage".into())).1.is_none());
    }
    let (_, end) = pump.on_input(TurnInput::Line("garbage".into()));
    let (finish, disconnect) = turn::conclude(DriverKind::Stream, end.unwrap(), "", "");
    assert!(!disconnect);
    let error = finish.error.unwrap();
    assert_eq!(error.code, "cli_protocol");
    assert_eq!(
        error.message,
        format!("{} produced 50 consecutive unparsable output lines", called())
    );
    assert_eq!(error.details.as_deref(), Some("garbage"));
}

#[test]
fn unsupported_commands_are_answered() {
    assert_eq!(turn::on_idle_command(CommandKind::Prompt), Idle::RunTurn);
    assert_eq!(turn::on_idle_command(CommandKind::Cancel), Idle::Ignore);
    assert_eq!(turn::on_idle_command(CommandKind::Fork), Idle::Reject);
    assert_eq!(turn::reject_unsupported(CommandKind::Fork), Rejection::Unsupported);
    assert_eq!(turn::reject_unsupported(CommandKind::GoalControl), Rejection::No);
    assert_eq!(turn::reject_unsupported(CommandKind::SetMode), Rejection::Silent);
    assert_eq!(
        turn::unsupported(),
        "unsupported_for_cli: not available on the CLI transport"
    );
}

#[test]
fn a_process_that_does_not_start_fails_the_turn() {
    let finish = turn::spawn_failed(DriverKind::Stream, "no such file", "/bin/agent");
    let error = finish.error.unwrap();
    assert_eq!(finish.stop_reason, "unknown");
    assert_eq!(error.code, "cli_spawn_failed");
    assert_eq!(error.message, format!("Failed to start {}: no such file", called()));
    assert_eq!(error.details.as_deref(), Some("/bin/agent"));
}

#[test]
fn the_tail_keeps_the_newest_lines() {
    let mut tail = OutputTail::new();
    tail.push("a".repeat(turn::STDERR_TAIL_BYTES - 1));
    tail.push("last".into());
    assert_eq!(tail.text(), "last");
    tail.push("more".into());
    assert_eq!(tail.text(), "last\nmore");
}

fn dsh_lines(text: &str) -> Vec<String> {
    vec![
        format!(r#"{{"type":"session","sessionId":"{DSH_SID}","cwd":"/ws"}}"#),
        r#"{"type":"status","phase":"turn_start","turn":1}"#.into(),
        r#"{"type":"thinking","text":"thinking"}"#.into(),
        r#"{"type":"tool_call","callId":"c1","tool":"mcp__app-notion__notion-fetch","input":{"id":"self"}}"#.into(),
        r#"{"type":"tool_result","callId":"c1","status":"completed","result":"{\"ok\":true}"}"#.into(),
        r#"{"type":"status","phase":"step_end","turn":1,"step":1,"usage":{"inputTokens":8000,"outputTokens":100,"totalTokens":8100}}"#.into(),
        format!(r#"{{"type":"text","text":"{text}"}}"#),
        r#"{"type":"status","phase":"turn_end","turn":1,"reason":{"kind":"completed"}}"#.into(),
        format!(r#"{{"type":"final","text":"{text}"}}"#),
    ]
}

fn dsh_turn(
    session: Option<&str>,
    lines: &[String],
    last: TurnInput,
    status: &str,
    tail: &str,
) -> (Vec<TurnEffect>, Option<String>) {
    let (record, mut effects) = turn::begin_turn(None, session);
    let mut pump = DshPump::new(record, "/ws", Some(256000));
    let mut end = None;
    for line in lines {
        let (more, done) = pump.on_input(TurnInput::Line(line.clone()));
        effects.extend(more);
        if done.is_some() {
            end = done;
            break;
        }
    }
    let end = match end {
        Some(end) => end,
        None => {
            let (more, done) = pump.on_input(last);
            effects.extend(more);
            done.unwrap()
        }
    };
    let (finish, disconnect) = pump.conclude(end, status, tail);
    let known = pump.session_id().map(String::from);
    effects.extend(turn::end_turn(
        finish,
        known.as_deref(),
        known.as_deref(),
        "deepseek",
        5,
        Some("kimi-k3"),
        disconnect,
    ));
    (effects, known)
}

#[test]
fn first_turn_has_no_session_flag_and_binds_the_minted_id() {
    let args = codeg::cli::dsh_prompt::build_args("/h/codeg-c1.patch.yml", None, "hello");
    assert_eq!(&args[..2], &["--profile", "headless"]);
    assert_eq!(args[2], "--patch");
    assert!(args[3].ends_with("codeg-c1.patch.yml"));
    assert_eq!(args[4], "--json");
    assert!(!args.contains(&"--session-id".to_string()));
    assert_eq!(&args[args.len() - 2..], &["--", "hello"]);

    let (effects, session) = dsh_turn(None, &dsh_lines("done"), TurnInput::Closed, "", "");
    let kinds = types(&effects);
    for kind in ["session_started", "thinking", "tool_call", "tool_call_update", "content_delta"] {
        assert!(kinds.contains(&kind), "{kind}");
    }
    assert_eq!(stop_reason(&effects), "end_turn");
    assert_eq!(session.as_deref(), Some(DSH_SID));
    let kinds = history(&effects);
    assert_eq!(kinds[0], "prompt");
    assert!(kinds.contains(&"update"));
    assert_eq!(*kinds.last().unwrap(), "turn_end");
    let last = effects
        .iter()
        .find_map(|e| match e {
            TurnEffect::RecordEnd { stop_reason, model, session_id, .. } => {
                Some((stop_reason.as_str(), model.as_deref(), session_id.as_str()))
            }
            _ => None,
        })
        .unwrap();
    assert_eq!(last, ("end_turn", Some("kimi-k3"), DSH_SID));
}

#[test]
fn second_turn_continues_the_session() {
    let args = codeg::cli::dsh_prompt::build_args("/h/p.yml", Some(DSH_SID), "second");
    assert!(args.windows(2).any(|w| w == ["--session-id", DSH_SID]));
    let (effects, _) = dsh_turn(Some(DSH_SID), &dsh_lines("two"), TurnInput::Closed, "", "");
    assert!(!types(&effects).contains(&"session_started"), "same id, no re-announce");
    assert_eq!(stop_reason(&effects), "end_turn");
}

#[test]
fn image_blocks_are_written_to_the_workspace_and_referenced() {
    let blocks = vec![
        text("what is this"),
        PromptInputBlock::Image {
            data: "aGVsbG8=".into(),
            mime_type: "image/png".into(),
            uri: None,
        },
    ];
    let (writes, prompt) =
        codeg::cli::dsh_prompt::flatten_prompt(&blocks, "/ws", &vec![false, false]);
    let prompt = prompt.unwrap();
    assert!(prompt.starts_with("what is this\n\n[附件: "));
    let path = prompt.trim_start_matches("what is this\n\n[附件: ").trim_end_matches(']');
    assert_eq!(writes[0].path, path);
    assert_eq!(writes[0].bytes, b"hello");
    assert!(path.starts_with("/ws/.codeg/attachments"));
}

#[test]
fn runner_error_is_surfaced_before_turn_complete() {
    let (effects, _) = dsh_turn(
        None,
        &[r#"{"type":"error","message":"unknown session id session-x: no stored Session"}"#.into()],
        TurnInput::Closed,
        "exit code 1",
        "",
    );
    assert_eq!(error_of(&effects).0, "cli_resume_failed");
    assert_eq!(stop_reason(&effects), "unknown");
    let kinds = types(&effects);
    let error_at = kinds.iter().position(|k| *k == "error").unwrap();
    let complete_at = kinds.iter().position(|k| *k == "turn_complete").unwrap();
    assert!(error_at < complete_at);
}

#[test]
fn silent_exit_is_cli_exited_with_the_stderr_tail() {
    let (effects, _) = dsh_turn(None, &[], TurnInput::Closed, "exit code 1", "dsh: boom");
    let (code, _, details) = error_of(&effects);
    assert_eq!(code, "cli_exited");
    assert!(details.unwrap().contains("dsh: boom"));
}

#[test]
fn cancel_terminates_the_process_and_ends_with_cancelled() {
    let lines = dsh_lines("x");
    let (effects, session) = dsh_turn(None, &lines[..1], TurnInput::Cancel, "", "");
    assert_eq!(stop_reason(&effects), "cancelled");
    assert!(!types(&effects).contains(&"error"));
    assert_eq!(session.as_deref(), Some(DSH_SID));
    assert!(effects.iter().any(
        |e| matches!(e, TurnEffect::RecordEnd { stop_reason, .. } if stop_reason == "cancelled")
    ));
}

#[test]
fn a_lost_final_line_does_not_fail_the_turn() {
    let lines = dsh_lines("x");
    let (effects, _) = dsh_turn(None, &lines[..8], TurnInput::Closed, "exit code 0", "");
    assert_eq!(stop_reason(&effects), "end_turn");
    assert!(!types(&effects).contains(&"error"));
}

fn happy_turn(text: &str) -> Vec<String> {
    let mut lines: Vec<String> = vec![
        r#"{"id":3,"result":{"turn":{"id":"T1","status":"inProgress"}}}"#.into(),
        format!(r#"{{"method":"turn/started","params":{{"threadId":"{THREAD_ID}","turn":{{"id":"T1"}}}}}}"#),
        r#"{"method":"item/started","params":{"turnId":"T1","item":{"type":"commandExecution","id":"c1","command":"/bin/bash -lc 'ls'","commandActions":[{"command":"ls"}],"cwd":"/ws","status":"inProgress"}}}"#.into(),
        r#"{"method":"item/completed","params":{"turnId":"T1","item":{"type":"commandExecution","id":"c1","command":"/bin/bash -lc 'ls'","commandActions":[{"command":"ls"}],"cwd":"/ws","status":"completed","aggregatedOutput":"a\n","exitCode":0}}}"#.into(),
        r#"{"method":"item/started","params":{"turnId":"T1","item":{"type":"agentMessage","id":"m1","text":""}}}"#.into(),
    ];
    for chunk in text.chars().collect::<Vec<_>>().chunks(2) {
        let delta: String = chunk.iter().collect();
        lines.push(format!(
            r#"{{"method":"item/agentMessage/delta","params":{{"turnId":"T1","itemId":"m1","delta":"{delta}"}}}}"#
        ));
    }
    lines.push(format!(
        r#"{{"method":"item/completed","params":{{"turnId":"T1","item":{{"type":"agentMessage","id":"m1","text":"{text}"}}}}}}"#
    ));
    lines.push(r#"{"method":"thread/tokenUsage/updated","params":{"turnId":"T1","tokenUsage":{"last":{"inputTokens":10000,"outputTokens":50},"modelContextWindow":258400}}}"#.into());
    lines.push(format!(
        r#"{{"method":"turn/completed","params":{{"threadId":"{THREAD_ID}","turn":{{"id":"T1","status":"completed","error":null}}}}}}"#
    ));
    lines
}

fn thread_ok() -> String {
    format!(r#"{{"id":2,"result":{{"thread":{{"id":"{THREAD_ID}","status":{{"type":"idle"}}}}}}}}"#)
}

/// An app server that answers each request from the scripts; `cancel` is sent once the
/// script of the turn has been read.
struct CodexRun {
    requests: Vec<Json>,
    effects: Vec<TurnEffect>,
    session: Option<String>,
}

fn codex_turn(session: Option<&str>, prompt: &str, thread: &str, turn: &[String]) -> CodexRun {
    let input = build_input(&vec![text(prompt)], "/ws", &vec![false]).1.unwrap();
    let (record, mut effects) = turn::begin_turn(None, session);
    let client = ClientInfo { name: "codeg".into(), title: "Codeg".into(), version: "1".into() };
    let (mut pump, first) =
        CodexPump::new(&client, record, input, "/ws", Some("gpt-5.4-mini"), Some(272000));
    let mut requests: Vec<Json> = Vec::new();
    let mut queue: Vec<TurnInput> = Vec::new();
    let mut end = None;
    let mut todo = first;
    let mut cancelled = false;
    loop {
        for effect in todo.drain(..) {
            if let TurnEffect::Send { payload, .. } = &effect {
                match payload.str_at("method") {
                    Some("initialize") => {
                        let answer = r#"{"id":1,"result":{"userAgent":"fake-codex"}}"#;
                        queue.push(TurnInput::Line(answer.into()));
                    }
                    Some("thread/start") | Some("thread/resume") => {
                        queue.push(TurnInput::Line(thread.into()))
                    }
                    Some("turn/start") => {
                        queue.extend(turn.iter().map(|l| TurnInput::Line(l.clone())))
                    }
                    Some("turn/interrupt") => queue.push(TurnInput::Line(
                        r#"{"method":"turn/completed","params":{"turn":{"id":"T1","status":"interrupted","error":null}}}"#.into(),
                    )),
                    _ => {}
                }
                requests.push(payload.copy());
            } else {
                effects.push(effect);
            }
        }
        if end.is_some() {
            break;
        }
        let input = if !queue.is_empty() {
            queue.remove(0)
        } else if !cancelled {
            cancelled = true;
            TurnInput::Cancel
        } else {
            TurnInput::Closed
        };
        let (more, done) = pump.on_input(input);
        todo = more;
        end = done;
    }
    let (finish, disconnect) = turn::conclude(DriverKind::Codex, end.unwrap(), "", "");
    let known = pump.session_id().map(String::from);
    effects.extend(turn::end_turn(
        finish,
        known.as_deref(),
        known.as_deref(),
        "codex",
        5,
        Some("gpt-5.4-mini"),
        disconnect,
    ));
    CodexRun { requests, effects, session: known }
}

#[test]
fn first_turn_starts_a_thread_streams_and_binds_the_thread_id() {
    let run = codex_turn(None, "hello", &thread_ok(), &happy_turn("done!"));
    let methods: Vec<&str> = run.requests.iter().filter_map(|r| r.str_at("method")).collect();
    assert_eq!(methods, vec!["initialize", "initialized", "thread/start", "turn/start"]);
    let start = run.requests[2].at("params");
    assert_eq!(start.str_at("approvalPolicy"), Some("never"));
    assert_eq!(start.str_at("sandbox"), Some("danger-full-access"));
    assert_eq!(start.str_at("model"), Some("gpt-5.4-mini"));
    let turn = run.requests[3].at("params");
    assert_eq!(turn.str_at("threadId"), Some(THREAD_ID));
    assert_eq!(
        turn.at("input").as_array().unwrap()[0].write(),
        json(r#"{"type":"text","text":"hello","text_elements":[]}"#).write()
    );
    assert_eq!(app_server_args(None), vec!["app-server".to_string()]);

    let kinds = types(&run.effects);
    for kind in ["session_started", "tool_call", "tool_call_update", "usage_update"] {
        assert!(kinds.contains(&kind), "{kind}");
    }
    let deltas = kinds.iter().filter(|k| **k == "content_delta").count();
    assert!(deltas >= 3, "text streams as several deltas, got {deltas}");
    assert_eq!(stop_reason(&run.effects), "end_turn");
    assert_eq!(run.session.as_deref(), Some(THREAD_ID));

    let kinds = history(&run.effects);
    assert_eq!(kinds[0], "prompt");
    assert!(kinds.contains(&"update"));
    assert_eq!(*kinds.last().unwrap(), "turn_end");
    assert!(run.effects.iter().any(|e| matches!(
        e,
        TurnEffect::RecordEnd { model, .. } if model.as_deref() == Some("gpt-5.4-mini")
    )));
}

#[test]
fn continued_session_resumes_the_thread() {
    let run = codex_turn(Some(THREAD_ID), "second", &thread_ok(), &happy_turn("again"));
    assert_eq!(run.requests[2].str_at("method"), Some("thread/resume"));
    assert_eq!(run.requests[2].at("params").str_at("threadId"), Some(THREAD_ID));
    assert!(!types(&run.effects).contains(&"session_started"), "same id, no re-announce");
    assert_eq!(stop_reason(&run.effects), "end_turn");
}

#[test]
fn resume_failure_is_surfaced_before_turn_complete() {
    let run = codex_turn(
        Some(THREAD_ID),
        "hi",
        r#"{"id":2,"error":{"code":-32600,"message":"thread not found: no rollout for id"}}"#,
        &[],
    );
    assert_eq!(error_of(&run.effects).0, "cli_resume_failed");
    assert_eq!(stop_reason(&run.effects), "unknown");
}

#[test]
fn failed_turn_reports_the_upstream_message() {
    let run = codex_turn(
        None,
        "hi",
        &thread_ok(),
        &[
            r#"{"id":3,"result":{"turn":{"id":"T1","status":"inProgress"}}}"#.into(),
            r#"{"method":"error","params":{"turnId":"T1","willRetry":false,"error":{"message":"{\"error\":{\"message\":\"The encrypted content could not be verified.\"}}"}}}"#.into(),
            r#"{"method":"turn/completed","params":{"turn":{"id":"T1","status":"failed","error":null}}}"#.into(),
        ],
    );
    let (code, message, _) = error_of(&run.effects);
    assert_eq!(code, "cli_api_error");
    assert_eq!(message, "The encrypted content could not be verified.");
}

#[test]
fn cancel_interrupts_the_running_turn() {
    let run = codex_turn(
        None,
        "long task",
        &thread_ok(),
        &[
            r#"{"id":3,"result":{"turn":{"id":"T1","status":"inProgress"}}}"#.into(),
            r#"{"method":"item/agentMessage/delta","params":{"turnId":"T1","itemId":"m1","delta":"partial"}}"#.into(),
        ],
    );
    assert_eq!(stop_reason(&run.effects), "cancelled");
    let interrupt = run
        .requests
        .iter()
        .find(|r| r.str_at("method") == Some("turn/interrupt"))
        .expect("turn/interrupt sent");
    assert_eq!(
        interrupt.at("params").write(),
        format!(r#"{{"threadId":"{THREAD_ID}","turnId":"T1"}}"#)
    );
}

#[test]
fn a_server_request_is_refused_and_the_turn_goes_on() {
    let mut turn = happy_turn("ok");
    turn.insert(1, r#"{"id":77,"method":"item/commandExecution/requestApproval"}"#.into());
    let run = codex_turn(None, "hi", &thread_ok(), &turn);
    let refusal = run.requests.iter().find(|r| r.at("id").as_u64() == Some(77)).unwrap();
    assert!(refusal.get("error").is_some());
    assert_eq!(stop_reason(&run.effects), "end_turn");
}

#[test]
fn a_silent_app_server_times_out() {
    let client = ClientInfo { name: "codeg".into(), title: "Codeg".into(), version: "1".into() };
    let record = TurnRecord { session_id: None, prompt_recorded: false };
    let (mut pump, _) = CodexPump::new(&client, record, json("[]"), "/ws", None, None);
    assert_eq!(pump.deadline(), Deadline::Handshake);
    assert!(pump.takes_commands());
    let (_, end) = pump.on_input(TurnInput::Timeout);
    match end {
        Some(TurnEnd::Failed(e)) => assert_eq!(e.code, "cli_handshake_timeout"),
        other => panic!("{other:?}"),
    }
}

#[test]
fn the_end_of_a_process_is_told() {
    assert_eq!(turn::describe_status(Some(3), None), "exit code 3");
    assert_eq!(turn::describe_status(Some(-1), Some(9)), "exit code -1");
    assert_eq!(turn::describe_status(None, Some(9)), "signal 9");
    assert_eq!(turn::describe_status(None, None), "unknown exit status");
    let exit = ProcessExit::Exited { code: Some(0), signal: None };
    assert_eq!(exit.describe(), "exit code 0");
    assert_eq!(ProcessExit::WaitFailed("gone".into()).describe(), "wait failed: gone");
    assert_eq!(ProcessExit::Stopped.describe(), "did not exit on its own; terminated");
}

#[test]
fn the_companion_comes_behind_the_other_arguments() {
    let plain = build_args(SID, true, Some("m"));
    assert_eq!(turn_args(SID, true, Some("m"), &None), plain);
    let companion = CompanionLaunchSpec {
        command: "/opt/codeg/codeg-mcp".into(),
        args: vec!["--token".into(), "t".into()],
        token: "t".into(),
        feedback_available: true,
        delegation_enabled: false,
    };
    let all = turn_args(SID, true, Some("m"), &Some(companion));
    assert_eq!(all.len(), plain.len() + 2);
    assert_eq!(all[..plain.len()], plain[..]);
    assert_eq!(all[plain.len()], "--mcp-config");
    let server = json(&all[plain.len() + 1]);
    let server = server.at("mcpServers").at("codeg-mcp");
    assert_eq!(server.str_at("command"), Some("/opt/codeg/codeg-mcp"));
}

#[test]
fn a_turn_without_a_session_gets_a_new_one() {
    assert_eq!(session_or(Some(SID), "new".into()), (SID.to_string(), false));
    assert_eq!(session_or(None, "new".into()), ("new".to_string(), true));
    assert_eq!(turn_session(Some(SID)), (SID.to_string(), false));
    let (a, minted) = turn_session(None);
    assert!(minted);
    assert_eq!(a.len(), 36);
    assert_ne!(a, turn_session(None).0);
}

#[test]
fn a_turn_needs_its_prompt_and_its_patch() {
    let args = prepare_turn(Ok("hi".into()), Ok("/h/p.yml".into()), Some(DSH_SID)).unwrap();
    let expected: Vec<&str> = vec![
        "--profile", "headless", "--patch", "/h/p.yml", "--json", "--session-id", DSH_SID, "--", "hi",
    ];
    assert_eq!(args, expected);
    let e = prepare_turn(Ok("hi".into()), Err("could not write /h/p.yml: full".into()), None)
        .unwrap_err();
    assert_eq!(e.code, "dsh_profile_failed");
    assert_eq!(e.message, "could not write /h/p.yml: full");
    let refused = CliTurnError { code: "prompt_too_large", message: "no".into(), details: None };
    let e = prepare_turn(Err(refused), Err("full".into()), None).unwrap_err();
    assert_eq!(e.code, "prompt_too_large");
}

#[test]
fn the_events_of_a_turn_are_in_order() {
    let status = |e: &AcpEvent| match e {
        AcpEvent::StatusChanged { status } => Some(*status),
        _ => None,
    };
    for (last, closes) in [
        (TurnInput::Closed, false),
        (TurnInput::Cancel, false),
        (TurnInput::Disconnect, true),
    ] {
        let effects = claude_turn(&[&init_line(), PONG[0], PONG[1]], last, "exit code 1", "");
        let events = emitted(&effects);
        assert_eq!(status(events[0]), Some(ConnectionStatus::Prompting));
        let kinds = types(&effects);
        let done = kinds.iter().position(|k| *k == "turn_complete").unwrap();
        assert_eq!(kinds.iter().filter(|k| **k == "turn_complete").count(), 1);
        if let Some(error) = kinds.iter().position(|k| *k == "error") {
            assert_eq!(error + 1, done);
        }
        if closes {
            assert_eq!(done + 1, kinds.len());
        } else {
            assert_eq!(done + 2, kinds.len());
            assert_eq!(status(events[done + 1]), Some(ConnectionStatus::Connected));
        }
    }
    let failed = claude_turn(&[], TurnInput::Closed, "exit code 1", "");
    assert_eq!(types(&failed), vec!["status_changed", "error", "turn_complete", "status_changed"]);
}

#[test]
fn nothing_is_asked_before_the_answer_to_what_was_asked() {
    let client = ClientInfo { name: "codeg".into(), title: "Codeg".into(), version: "1".into() };
    let (record, _) = turn::begin_turn(None, None);
    let input = build_input(&vec![text("hi")], "/ws", &vec![false]).1.unwrap();
    let (mut pump, first) = CodexPump::new(&client, record, input, "/ws", None, None);
    let methods = |effects: &[TurnEffect]| -> Vec<String> {
        effects
            .iter()
            .filter_map(|e| match e {
                TurnEffect::Send { payload, .. } => {
                    Some(payload.str_at("method").unwrap_or("refusal").to_string())
                }
                _ => None,
            })
            .collect()
    };
    assert_eq!(methods(&first), vec!["initialize"]);
    let mut say = |line: &str| methods(&pump.on_input(TurnInput::Line(line.into())).0);
    assert!(say(&thread_ok()).is_empty());
    assert!(say(r#"{"id":3,"result":{}}"#).is_empty());
    assert_eq!(say(r#"{"id":2,"method":"ask","params":{}}"#), vec!["refusal"]);
    assert_eq!(say(r#"{"id":1,"result":{}}"#), vec!["initialized", "thread/start"]);
    assert!(say(r#"{"id":1,"result":{}}"#).is_empty());
    assert_eq!(say(&thread_ok()), vec!["turn/start"]);
    assert!(say(&thread_ok()).is_empty());
}
