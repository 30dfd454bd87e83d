use codeg::agents::{AgentType, ConnectionTransport};
use codeg::cli::connection::CliConnectError;
use codeg::cli::prompt::PromptInputBlock;
use codeg::errors::AppErrorCode;
use codeg::handlers::cli::{
    cancel_error, check_prompt, cli_cancel, cli_not_installed, connect_error, connect_request,
    ensure_cli_connection, extend_env, finish_prompt, plan_connect, prompt_error,
    reject_cli_connection, runtime_env_failed, trimmed_text, validate_cli_session_id, AcpFailure,
    AcpFailureKind, CliCancelParams, CliPromptParams,
};
use codeg::handlers::exec::{
    clamp_output, exec_result, plan_exec, ExecEnd, ExecParams,
};
use codeg::handlers::mcp::{
    call_tool, codeg_port, entry, initialize_result, rpc, tools_list_result, upload_reply,
    valid_agent_segment, CompanionFeatures, EntryError, RpcRequest, RpcStep, ToolStep,
    COMPANION_SERVER_NAME, HTTP_FEATURES,
};
use codeg::handlers::metrics::{
    disk_usage, parse_cpu_stat_usec, parse_meminfo_kb, parse_memory_stat_key,
    parse_proc_stat_busy_ticks, read_cgroup_limit, read_cpu_usage, read_memory, CpuUsage,
    MemoryGroup,
};
use codeg::handlers::runner::{
    limit_time, ExecRequest, RunState, RunStatus, Stream, MAX_OUTPUT_BYTES,
};
use codeg::handlers::task::{status_str, TaskStore, MAX_TASKS};
use codeg::handlers::ws_invoke::{invoke_result, read_body, route_job, valid_name, InvokeJob};
use codeg::handlers::ws_snapshot::{first_frame, second_frame, Release, SNAPSHOT_CHANNEL};
use codeg::json::Json;

fn json(text: &str) -> Json {
    Json::parse(text).unwrap()
}

const SCHEMA: &str = r#"[
    {"name":"delegate_to_agent","description":"d"},
    {"name":"upload_file","description":"u"},
    {"name":"ask_user_question","description":"a"}]"#;

fn features() -> CompanionFeatures {
    CompanionFeatures::parse(Some(HTTP_FEATURES))
}

fn reply(step: ToolStep) -> Json {
    match step {
        ToolStep::Reply(v) => v,
        ToolStep::Upload { path } => panic!("upload of {path}"),
    }
}

#[test]
fn tools_list_exposes_only_upload_file() {
    let result = tools_list_result(SCHEMA, features()).unwrap();
    let names: Vec<&str> = result
        .at("tools")
        .as_array()
        .unwrap()
        .iter()
        .map(|t| t.str_at("name").unwrap())
        .collect();
    assert_eq!(names, vec!["upload_file"]);
}

#[test]
fn session_scoped_tools_are_rejected_as_unknown() {
    for name in ["delegate_to_agent", "ask_user_question", "check_user_feedback", "create_work_task"] {
        let params = Some(json(&format!(r#"{{"name":"{name}","arguments":{{}}}}"#)));
        let out = reply(call_tool(&json("1"), features(), &params));
        assert_eq!(out.at("error").at("code").as_i64(), Some(-32602), "{name} must be refused");
        assert_eq!(
            out.at("error").str_at("message"),
            Some(format!("unknown tool: {name}").as_str())
        );
    }
}

#[test]
fn upload_success_renders_the_url_only() {
    let params = Some(json(r#"{"name":"upload_file","arguments":{"path":"./x.pptx"}}"#));
    match call_tool(&json("7"), features(), &params) {
        ToolStep::Upload { path } => assert_eq!(path, "./x.pptx"),
        ToolStep::Reply(v) => panic!("{}", v.write()),
    }
    let out = upload_reply(&json("7"), Ok("https://bucket/x.pptx".into()));
    assert_eq!(out.at("id").as_u64(), Some(7));
    let content = out.at("result").at("content").as_array().unwrap();
    assert_eq!(content[0].str_at("text"), Some("https://bucket/x.pptx"));
    assert_eq!(out.at("result").at("isError").as_bool(), Some(false));
}

#[test]
fn upload_failure_is_an_is_error_result_not_a_protocol_error() {
    let out =
        upload_reply(&json("8"), Err("the platform refused the upload (HTTP 413)".into()));
    assert!(out.get("error").is_none(), "must not be a JSON-RPC error");
    assert_eq!(out.at("result").at("isError").as_bool(), Some(true));
    let content = out.at("result").at("content").as_array().unwrap();
    assert_eq!(
        content[0].str_at("text"),
        Some("the platform refused the upload (HTTP 413)")
    );
}

#[test]
fn blank_path_is_rejected_before_any_upload() {
    for args in ["{}", r#"{"path":"   "}"#, r#"{"path":5}"#] {
        let params = Some(json(&format!(r#"{{"name":"upload_file","arguments":{args}}}"#)));
        let out = reply(call_tool(&json("1"), features(), &params));
        assert_eq!(out.at("error").at("code").as_i64(), Some(-32602));
    }
}

#[test]
fn initialize_matches_the_stdio_companion() {
    let r = initialize_result("1.2.3");
    assert_eq!(r.str_at("protocolVersion"), Some("2024-11-05"));
    assert_eq!(r.at("serverInfo").str_at("name"), Some(COMPANION_SERVER_NAME));
    assert_eq!(r.at("serverInfo").str_at("version"), Some("1.2.3"));
}

#[test]
fn agent_segment_is_validated() {
    assert!(valid_agent_segment("va-c4a9f7cd-c3b1-4ee4-baac-24ae8c8c465f"));
    assert!(valid_agent_segment("main"));
    for bad in [
        "",
        "-leading",
        "../etc",
        "va/../x",
        "VA-UPPER",
        "has space",
        "x?y=1",
        &"a".repeat(49),
    ] {
        assert!(!valid_agent_segment(bad), "{bad:?} must be refused");
    }
}

fn request(id: Option<&str>, method: &str, params: Option<&str>) -> RpcRequest {
    RpcRequest {
        id: id.map(json),
        method: method.into(),
        params: params.map(json),
    }
}

#[test]
fn requests_are_answered_by_their_method() {
    assert!(matches!(
        rpc("bad/segment", request(Some("1"), "ping", None), SCHEMA, "1"),
        RpcStep::BadRequest
    ));
    assert!(matches!(
        rpc("main", request(None, "notifications/initialized", None), SCHEMA, "1"),
        RpcStep::Accepted
    ));
    match rpc("main", request(Some("1"), "no/such", None), SCHEMA, "1") {
        RpcStep::Reply(v) => assert_eq!(v.at("error").at("code").as_i64(), Some(-32601)),
        _ => panic!("no reply"),
    }
    match rpc("main", request(Some("1"), "tools/list", None), "no json", "1") {
        RpcStep::Reply(v) => assert_eq!(v.at("error").at("code").as_i64(), Some(-32603)),
        _ => panic!("no reply"),
    }
    match rpc(
        "main",
        request(
            Some("\"x\""),
            "tools/call",
            Some(r#"{"name":"upload_file","arguments":{"path":"a.txt"}}"#),
        ),
        SCHEMA,
        "1",
    ) {
        RpcStep::Upload { id, path } => {
            assert_eq!(id.as_str(), Some("x"));
            assert_eq!(path, "a.txt");
        }
        _ => panic!("no upload"),
    }
}

#[test]
fn the_entry_names_the_port_and_carries_the_authorization() {
    let e = entry("main", Some("Bearer t"), 3080, SCHEMA).unwrap();
    assert!(e.url.contains(":3080/"), "{}", e.url);
    assert!(e.url.ends_with("/main"), "{}", e.url);
    assert_eq!(e.headers, vec![("Authorization".to_string(), "Bearer t".to_string())]);
    assert_eq!(e.tools, vec!["upload_file".to_string()]);
    assert!(matches!(entry("../x", None, 1, SCHEMA), Err(EntryError::BadRequest)));
    assert!(matches!(entry("main", None, 1, "no json"), Err(EntryError::Internal(_))));
    assert_eq!(codeg_port(Some("81")), 81);
    assert_eq!(codeg_port(Some("x")), 3080);
    assert_eq!(codeg_port(None), 3080);
}

#[test]
fn features_are_read_from_the_list() {
    assert!(!CompanionFeatures::parse(None).allows_tool("upload_file"));
    assert!(CompanionFeatures::parse(Some("tasks,uploads")).allows_tool("upload_file"));
    assert!(!CompanionFeatures::parse(Some("uploads")).allows_tool("delegate_to_agent"));
}

#[test]
fn parses_cgroup_v2_cpu_stat() {
    let s = "usage_usec 1234567\nuser_usec 1000000\nsystem_usec 234567\n";
    assert_eq!(parse_cpu_stat_usec(s), Some(1_234_567));
    assert_eq!(parse_cpu_stat_usec("nr_periods 0\n"), None);
}

#[test]
fn parses_proc_stat_busy_without_idle_and_iowait() {
    let s = "cpu  100 20 30 900 40 1 2 3\ncpu0 1 2 3 4 5 6 7 8\n";
    assert_eq!(parse_proc_stat_busy_ticks(s), Some(156));
    assert_eq!(parse_proc_stat_busy_ticks("intr 1\n"), None);
}

#[test]
fn parses_meminfo_and_memory_stat() {
    let mi = "MemTotal:        8000000 kB\nMemFree:  10 kB\nMemAvailable:    6000000 kB\n";
    assert_eq!(parse_meminfo_kb(mi, "MemTotal"), Some(8_000_000));
    assert_eq!(parse_meminfo_kb(mi, "MemAvailable"), Some(6_000_000));
    assert_eq!(parse_meminfo_kb(mi, "MemTotalX"), None);
    let ms = "anon 100\ninactive_file 4096\nslab 7\n";
    assert_eq!(parse_memory_stat_key(ms, "inactive_file"), Some(4096));
    assert_eq!(parse_memory_stat_key(ms, "nope"), None);
}

fn group(current: Option<&str>, stat: Option<&str>, max: Option<&str>) -> MemoryGroup {
    MemoryGroup {
        current: current.map(String::from),
        stat: stat.map(String::from),
        max: max.map(String::from),
    }
}

#[test]
fn the_memory_of_the_container_is_preferred() {
    let mi = Some("MemTotal: 8000 kB\nMemAvailable: 6000 kB\n".to_string());
    let none = group(None, None, None);
    assert_eq!(read_memory(&mi, &none, &none), (Some(2000), Some(8000)));
    let v2 = group(Some("2097152"), Some("inactive_file 1048576\n"), Some("4194304"));
    assert_eq!(read_memory(&mi, &v2, &none), (Some(1024), Some(4096)));
    assert_eq!(read_memory(&None, &v2, &none), (Some(1024), Some(4096)));
    assert_eq!(read_cgroup_limit("max"), None);
    assert_eq!(read_cgroup_limit("4194304"), Some(4194304));
}

#[test]
fn the_first_counter_that_is_there_is_read() {
    let stat = Some("usage_usec 5\n".to_string());
    let nanos = Some("7\n".to_string());
    let proc_stat = Some("cpu 1 2 3 4 5 6 7 8\n".to_string());
    assert!(matches!(
        read_cpu_usage(&stat, &nanos, &None, &proc_stat),
        Some(CpuUsage::Micros(5))
    ));
    assert!(matches!(
        read_cpu_usage(&None, &nanos, &None, &proc_stat),
        Some(CpuUsage::Nanos(7))
    ));
    assert!(matches!(
        read_cpu_usage(&None, &None, &None, &proc_stat),
        Some(CpuUsage::Ticks(27))
    ));
    assert!(read_cpu_usage(&None, &None, &None, &None).is_none());
}

#[test]
fn disk_space_counts_blocks_of_the_fragment_size() {
    assert_eq!(disk_usage(1024, 4096, 100, 40), (Some(61440), Some(102400)));
    assert_eq!(disk_usage(0, 4096, 10, 4), (Some(24576), Some(40960)));
}

#[test]
fn name_must_be_a_plain_route_path() {
    assert!(valid_name("terminal_write"));
    assert!(valid_name("myclaw/exec"));
    assert!(!valid_name(""));
    assert!(!valid_name("/terminal_write"));
    assert!(!valid_name("../health"));
    assert!(!valid_name("a//b"));
    assert!(!valid_name("a?b=1"));
    assert!(!valid_name("a b"));
}

#[test]
fn jobs_with_a_bad_name_are_answered_at_once() {
    let job = |name: &str| InvokeJob { request_id: "r".into(), name: name.into(), body: Json::Null };
    match route_job(job("/x")) {
        Err(r) => {
            assert_eq!(r.request_id, "r");
            assert_eq!(r.status, 400);
            assert!(!r.ok);
        }
        Ok(_) => panic!("routed"),
    }
    match route_job(job("echo")) {
        Ok((id, path, body)) => {
            assert_eq!(id, "r");
            assert_eq!(path, "/echo");
            assert_eq!(body.write(), Json::Null.write());
        }
        Err(_) => panic!("refused"),
    }
}

#[test]
fn answers_carry_the_body_and_whether_it_went_well() {
    assert_eq!(read_body(&b"{\"k\":\"v\"}".to_vec()).write(), r#"{"k":"v"}"#);
    assert_eq!(read_body(&b"plain \xff text".to_vec()), Json::Str("plain \u{fffd} text".into()));
    assert!(read_body(&vec![]).is_null());
    assert!(invoke_result("r".into(), 200, Json::Null).ok);
    assert!(invoke_result("r".into(), 299, Json::Null).ok);
    assert!(!invoke_result("r".into(), 404, Json::Null).ok);
}

#[test]
fn first_frame_carries_version_and_metrics_without_network() {
    let frame = first_frame(
        "1.2.3",
        Json::Null,
        "server",
        500,
        json(r#"{"collected_at":"2026-01-01T00:00:00Z"}"#),
    );
    assert_eq!(frame.channel, SNAPSHOT_CHANNEL);
    assert_eq!(frame.payload.str_at("version"), Some("1.2.3"));
    assert_eq!(frame.payload.at("updateChecked").as_bool(), Some(false));
    assert!(frame.payload.at("metrics").str_at("collected_at").is_some());
    let release = Release { version: "1.3.0".into(), notes: None, date: None };
    let frame = second_frame("1.2.3", true, &release);
    assert_eq!(frame.payload.at("updateChecked").as_bool(), Some(true));
    assert!(frame.payload.write().contains("1.3.0"));
}

fn exec_params(command: &str) -> ExecParams {
    ExecParams { command: command.into(), cwd: None, stdin: None, env: vec![], timeout_ms: None }
}

#[test]
fn empty_command_is_rejected() {
    assert!(plan_exec(&exec_params("   ")).is_err());
    let plan = plan_exec(&exec_params("ls")).unwrap();
    assert_eq!(plan.timeout_ms, 60_000);
    assert_eq!(plan.cwd, None);
}

#[test]
fn runs_command_and_captures_stdout() {
    let end = ExecEnd::Finished { stdout: b"hello".to_vec(), stderr: vec![], exit_code: Some(0) };
    let res = exec_result(end, 3);
    assert_eq!(res.stdout, "hello");
    assert_eq!(res.exit_code, Some(0));
    assert!(!res.timed_out);
    assert_eq!(res.duration_ms, 3);
}

#[test]
fn times_out_long_command() {
    let res = exec_result(ExecEnd::TimedOut { limit_ms: 200 }, 200);
    assert!(res.timed_out);
    assert_eq!(res.exit_code, None);
}

#[test]
fn output_is_clamped() {
    let (text, cut) = clamp_output(vec![b'x'; MAX_OUTPUT_BYTES + 1]);
    assert!(cut);
    assert_eq!(text.len(), MAX_OUTPUT_BYTES);
    let (text, cut) = clamp_output(vec![b'a', 0xff]);
    assert!(!cut);
    assert_eq!(text, "a\u{fffd}");
}

#[test]
fn time_limits_are_bounded() {
    assert_eq!(limit_time(None), 60_000);
    assert_eq!(limit_time(Some(200)), 200);
    assert_eq!(limit_time(Some(u64::MAX)), 1_800_000);
}

fn req(command: &str) -> ExecRequest {
    ExecRequest { command: command.into(), cwd: None, stdin: None, env: vec![], timeout_ms: None }
}

#[test]
fn submit_returns_id_and_get_reaches_completed() {
    let mut store = TaskStore::new();
    let id = store.submit(&req("printf done"), 0).unwrap().task_id;
    assert!(!id.is_empty());
    assert_eq!(store.get(&id, 1).unwrap().status, "running");
    store.take_output(&id, Stream::Stdout, b"done");
    store.complete(&id, Some(0), false, 20);
    let snap = store.get(&id, 50).unwrap();
    assert_eq!(snap.status, "completed");
    assert_eq!(snap.stdout, "done");
    assert_eq!(snap.exit_code, Some(0));
    assert_eq!(snap.duration_ms, 20);
}

#[test]
fn unknown_task_is_404() {
    let err = TaskStore::new().get("no-such-task", 0).unwrap_err();
    assert_eq!(err.code, AppErrorCode::NotFound);
}

#[test]
fn running_task_reports_accumulated_output() {
    let mut store = TaskStore::new();
    let id = store.submit(&req("echo first; sleep 2"), 0).unwrap().task_id;
    store.take_output(&id, Stream::Stdout, b"first\n");
    let snap = store.get(&id, 300).unwrap();
    assert_eq!(snap.status, "running");
    assert!(snap.stdout.contains("first"));
    assert_eq!(snap.exit_code, None);
    assert_eq!(snap.duration_ms, 300);
}

#[test]
fn blank_command_is_rejected() {
    assert!(TaskStore::new().submit(&req("  "), 0).is_err());
}

#[test]
fn a_failed_task_tells_why() {
    let mut store = TaskStore::new();
    let id = store.submit(&req("x"), 0).unwrap().task_id;
    store.fail(&id, "no such file".into(), 5);
    let snap = store.get(&id, 9).unwrap();
    assert_eq!(snap.status, status_str(RunStatus::Failed));
    assert_eq!(snap.error.as_deref(), Some("no such file"));
    assert_eq!(snap.duration_ms, 5);
}

#[test]
fn only_ended_tasks_make_room() {
    let mut store = TaskStore::new();
    let running = store.submit_as(&req("x"), "running".into(), 0).unwrap().task_id;
    let ended = store.submit_as(&req("x"), "ended".into(), 1).unwrap().task_id;
    store.complete(&ended, Some(0), false, 2);
    for i in 0..MAX_TASKS {
        store.submit_as(&req("x"), format!("t{i}"), 3).unwrap();
    }
    assert!(store.get(&running, 4).is_ok());
    assert!(store.get(&ended, 4).is_err());
}

#[test]
fn kept_output_is_the_front_of_each_stream() {
    let mut run = RunState::new_running(0);
    run.take_output(Stream::Stdout, b"out");
    run.take_output(Stream::Stderr, b"err");
    assert_eq!(run.stdout, b"out");
    assert_eq!(run.stderr, b"err");
    assert!(!run.truncated());
    run.take_output(Stream::Stdout, &vec![b'x'; MAX_OUTPUT_BYTES]);
    assert!(run.truncated());
    assert_eq!(run.stdout.len(), MAX_OUTPUT_BYTES);
    assert_eq!(&run.stdout[..3], b"out");
    assert_eq!(run.stderr, b"err");
}

#[test]
fn session_id_shape_depends_on_the_agent() {
    let uuid = "55960ec1-365e-4af9-8681-e6576043af2d";
    assert!(validate_cli_session_id(AgentType::ClaudeCode, uuid).is_ok());
    assert!(validate_cli_session_id(AgentType::ClaudeCode, "session-x").is_err());
    assert!(validate_cli_session_id(AgentType::DeepSeek, &format!("session-{uuid}")).is_ok());
    assert!(
        validate_cli_session_id(AgentType::DeepSeek, uuid).is_ok(),
        "a bridge id is continued, not rejected"
    );
    assert!(validate_cli_session_id(AgentType::DeepSeek, "session-nope").is_err());
    assert!(
        validate_cli_session_id(AgentType::Codex, "01a0b54e-568c-7310-aa4d-f777c3663fb7").is_ok()
    );
    assert!(validate_cli_session_id(AgentType::Codex, "thread-x").is_err());
}

fn prompt() -> CliPromptParams {
    CliPromptParams {
        connection_id: None,
        agent_type: Some(AgentType::ClaudeCode),
        working_dir: Some(" /w ".into()),
        session_id: None,
        folder_id: None,
        conversation_id: None,
        blocks: vec![PromptInputBlock::Text { text: "hi".into() }],
        client_message_id: None,
        model: Some(" m ".into()),
        provider: None,
        runtime_env: None,
    }
}

#[test]
fn a_prompt_needs_blocks() {
    assert!(check_prompt(&prompt()).is_ok());
    let mut p = prompt();
    p.blocks = vec![];
    assert_eq!(check_prompt(&p).unwrap_err().code, AppErrorCode::InvalidInput);
}

#[test]
fn a_connection_needs_an_agent_and_a_directory() {
    match plan_connect(&prompt(), "claude_code", true) {
        Ok((agent, dir)) => {
            assert_eq!(agent, AgentType::ClaudeCode);
            assert_eq!(dir, "/w");
        }
        Err(e) => panic!("{}", e.message),
    }
    let mut p = prompt();
    p.agent_type = None;
    assert!(plan_connect(&p, "", true).is_err());
    p.agent_type = Some(AgentType::Hermes);
    assert!(plan_connect(&p, "hermes", true).is_err());
    assert!(plan_connect(&prompt(), "claude_code", false).is_err());
    let mut p = prompt();
    p.session_id = Some("nope".into());
    assert!(plan_connect(&p, "claude_code", true).is_err());
}

#[test]
fn the_request_carries_what_was_asked() {
    let r = connect_request(
        &prompt(),
        AgentType::ClaudeCode,
        "/w".into(),
        vec![("A".into(), "1".into())],
        "/bin/x".into(),
    );
    assert_eq!(r.working_dir, "/w");
    assert_eq!(r.executable, "/bin/x");
    assert_eq!(r.runtime_env, vec![("A".to_string(), "1".to_string())]);
    assert_eq!(trimmed_text(&Some(" m ".into())).as_deref(), Some("m"));
    assert_eq!(trimmed_text(&Some("  ".into())), None);
}

#[test]
fn the_overlay_wins() {
    let base = vec![("A".to_string(), "1".to_string()), ("B".to_string(), "2".to_string())];
    let extra = Some(vec![("B".to_string(), "3".to_string()), ("C".to_string(), "4".to_string())]);
    let mut all = extend_env(base, &extra);
    all.sort();
    assert_eq!(
        all,
        vec![
            ("A".to_string(), "1".to_string()),
            ("B".to_string(), "3".to_string()),
            ("C".to_string(), "4".to_string())
        ]
    );
}

#[test]
fn each_transport_has_its_own_calls() {
    let cli = Some(ConnectionTransport::Cli);
    let acp = Some(ConnectionTransport::Acp);
    assert!(ensure_cli_connection(cli, "c").is_ok());
    assert!(ensure_cli_connection(acp, "c").is_err());
    assert_eq!(ensure_cli_connection(None, "c").unwrap_err().code, AppErrorCode::NotFound);
    assert!(reject_cli_connection(acp, "x").is_ok());
    assert!(reject_cli_connection(cli, "x").unwrap_err().message.contains("x"));
}

#[test]
fn errors_are_told_by_their_code() {
    assert_eq!(
        connect_error(&CliConnectError::SessionLocked { connection_id: "c1".into() }).code,
        AppErrorCode::AlreadyExists
    );
    assert_eq!(
        connect_error(&CliConnectError::ProfileWriteFailed("x".into())).code,
        AppErrorCode::ConfigurationMissing
    );
    let failure = |kind: AcpFailureKind| AcpFailure { kind, message: "m".into() };
    assert_eq!(
        prompt_error(failure(AcpFailureKind::TurnInProgress)).code,
        AppErrorCode::TurnInProgress
    );
    assert_eq!(
        prompt_error(failure(AcpFailureKind::ConnectionNotFound("c".into()))).code,
        AppErrorCode::NotFound
    );
    assert_eq!(
        prompt_error(failure(AcpFailureKind::Other)).code,
        AppErrorCode::TaskExecutionFailed
    );
    let params = CliCancelParams { connection_id: "c".into() };
    assert_eq!(
        cancel_error(&params, failure(AcpFailureKind::ConnectionNotFound("c".into()))).code,
        AppErrorCode::NotFound
    );
    assert!(runtime_env_failed("why").message.contains("why"));
    assert_eq!(cli_not_installed("why").code, AppErrorCode::DependencyMissing);
}

#[test]
fn a_new_connection_is_dropped_when_its_prompt_fails() {
    let (drop_it, result) = finish_prompt("c".into(), true, Ok(Some(4)), Some("s".into()));
    assert!(!drop_it);
    let result = result.unwrap();
    assert_eq!(result.conversation_id, Some(4));
    assert_eq!(result.session_id.as_deref(), Some("s"));
    let failed = || Err(AcpFailure { kind: AcpFailureKind::Other, message: "m".into() });
    assert!(finish_prompt("c".into(), true, failed(), None).0);
    assert!(!finish_prompt("c".into(), false, failed(), None).0);
}

#[test]
fn only_a_running_turn_is_cancelled() {
    let params = CliCancelParams { connection_id: "c".into() };
    let cli = Some(ConnectionTransport::Cli);
    assert_eq!(cli_cancel(&params, cli, Some(true)).ok(), Some(true));
    assert_eq!(cli_cancel(&params, cli, Some(false)).ok(), Some(false));
    assert!(cli_cancel(&params, None, Some(true)).is_err());
}
