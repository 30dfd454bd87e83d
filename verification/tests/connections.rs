use codeg::agents::{
    family_of, id_of, name_of, runs_on_cli, AgentType, ConnectionTransport, DriverKind,
};
use codeg::cli::binary::{
    adapter_package, candidate_paths, check_explicit, check_help_text, explicit_executable,
    first_executable, judge_probe, node_modules_dir, platform_package_binaries,
    resolve_claude_executable, resolve_codex_executable, resolve_dsh_executable, ProbeCache,
    ProbeRun, CODEX_EXECUTABLE_ENV, DSH_EXECUTABLE_ENV, DSH_REQUIRED_PACKAGE,
};
use codeg::cli::connection::{
    connection_transport, create_or_reuse_cli_connection, is_dsh_session_id, plan_connection,
    CliConnectError, CliConnectRequest, ConnectionPlan, LiveConnection,
};
use codeg::events::{AcpEvent, ConnectionStatus};

const ID: &str = "claude_code";

/// What messages call the agent: the two words of its id, each with a capital.
fn called() -> String {
    format!("C{} C{}", &ID[1..6], &ID[8..])
}

/// The name that the packages and the program carry.
fn family() -> &'static str {
    &ID[..6]
}

fn packages() -> Vec<(String, String)> {
    vec![(format!("{}-agent-sdk-linux-x64", family()), family().to_string())]
}

fn strings(items: &[&str]) -> Vec<String> {
    items.iter().map(|s| s.to_string()).collect()
}

fn hoisted(prefix: &str) -> String {
    let family = family();
    format!("{prefix}/lib/node_modules/@anthropic-ai/{family}-agent-sdk-linux-x64/{family}")
}

fn nested(prefix: &str) -> String {
    let family = family();
    format!(
        "{prefix}/lib/node_modules/@agentclientprotocol/{family}-agent-acp/node_modules/@anthropic-ai/{family}-agent-sdk-linux-x64/{family}"
    )
}

/// The first candidate that is among the executable files.
fn found(prefixes: &[&str], files: &[String]) -> Option<String> {
    let candidates = candidate_paths(&strings(prefixes), &packages(), false);
    let flags: Vec<bool> = candidates.iter().map(|c| files.contains(c)).collect();
    first_executable(&candidates, &flags)
}

#[test]
fn prefers_the_sdk_nested_under_the_adapter() {
    assert_eq!(found(&["/p"], &[nested("/p"), hoisted("/p")]), Some(nested("/p")));
}

#[test]
fn falls_back_to_a_hoisted_sdk_and_later_prefixes() {
    assert_eq!(found(&["/first", "/second"], &[hoisted("/second")]), Some(hoisted("/second")));
}

#[test]
fn ignores_files_without_the_execute_bit() {
    assert_eq!(found(&["/p"], &[]), None);
}

#[test]
fn packages_depend_on_the_platform() {
    let family = family();
    let linux = platform_package_binaries("x86_64", "linux", false);
    assert_eq!(linux[0].0, format!("{family}-agent-sdk-linux-x64"));
    assert_eq!(linux[0].1, family);
    let musl = platform_package_binaries("x86_64", "linux", true);
    assert_eq!(linux[1].0, format!("{family}-agent-sdk-linux-x64-musl"));
    assert_eq!(musl[0].0, format!("{family}-agent-sdk-linux-x64-musl"));
    assert_eq!(musl[1].0, format!("{family}-agent-sdk-linux-x64"));
    let mac = platform_package_binaries("aarch64", "macos", false);
    assert_eq!(mac, vec![(format!("{family}-agent-sdk-darwin-arm64"), family.to_string())]);
    let windows = platform_package_binaries("x86_64", "windows", false);
    assert_eq!(windows, vec![(format!("{family}-agent-sdk-win32-x64"), format!("{family}.exe"))]);
    assert_eq!(adapter_package(), format!("@agentclientprotocol/{family}-agent-acp"));
    assert_eq!(node_modules_dir("/p", false), "/p/lib/node_modules");
    assert_eq!(node_modules_dir("/p", true), "/p/node_modules");
}

#[test]
fn a_missing_executable_is_told_with_its_candidates() {
    let candidates = strings(&["/a", "/b"]);
    let err = resolve_claude_executable(None, false, &candidates, &vec![false, false])
        .unwrap_err();
    assert_eq!(
        err,
        format!(
            "{} native binary not found; install @agentclientprotocol/{}-agent-acp or set CLAUDE_CODE_EXECUTABLE (looked in: /a, /b)",
            called(),
            family()
        )
    );
    assert_eq!(
        resolve_claude_executable(None, false, &candidates, &vec![false, true]),
        Ok("/b".to_string())
    );
    assert_eq!(
        resolve_claude_executable(Some("/x"), true, &candidates, &vec![true, true]),
        Ok("/x".to_string())
    );
}

#[test]
fn codex_binary_explicit_executable_env_must_be_executable() {
    let env = vec![(CODEX_EXECUTABLE_ENV.to_string(), "/nonexistent/codex".to_string())];
    let explicit = explicit_executable(&env, None, CODEX_EXECUTABLE_ENV);
    assert!(resolve_codex_executable(explicit.as_deref(), false, None)
        .unwrap_err()
        .contains("not an executable file"));
}

#[test]
fn explicit_executable_env_wins() {
    let env = vec![(CODEX_EXECUTABLE_ENV.to_string(), "/tmp/codex".to_string())];
    let explicit = explicit_executable(&env, Some("/other"), CODEX_EXECUTABLE_ENV);
    assert_eq!(
        resolve_codex_executable(explicit.as_deref(), true, Some("/usr/bin/codex")).unwrap(),
        "/tmp/codex"
    );
}

#[test]
fn dsh_binary_explicit_executable_env_must_be_executable() {
    let env = vec![(DSH_EXECUTABLE_ENV.to_string(), "/nonexistent/dsh".to_string())];
    let explicit = explicit_executable(&env, None, DSH_EXECUTABLE_ENV);
    assert!(resolve_dsh_executable(explicit.as_deref(), false, None)
        .unwrap_err()
        .contains("not an executable file"));
    assert!(check_explicit("X", "/x", true).is_ok());
}

#[test]
fn help_text_check_is_exact() {
    assert!(check_help_text("/x", "  --json  --session-id <id>").is_ok());
    let err = check_help_text("/x", "--json only").unwrap_err();
    assert!(err.contains(DSH_REQUIRED_PACKAGE));
}

#[test]
fn probe_accepts_a_launcher_that_lists_both_flags_and_caches_failures_by_mtime() {
    let old = ProbeRun::Output { stdout: "Options: --help".into(), stderr: String::new() };
    let verdict = judge_probe("/dsh", &old);
    assert!(verdict.is_err());
    let mut cache = ProbeCache::new();
    assert_eq!(cache.cached_probe("/dsh", Some(5)), None);
    cache.store("/dsh", Some(5), verdict.err());
    assert!(matches!(cache.cached_probe("/dsh", Some(5)), Some(Some(_))));
    assert_eq!(cache.cached_probe("/dsh", Some(65)), None);
    let new = ProbeRun::Output { stdout: "--json --session-id <id>".into(), stderr: String::new() };
    let verdict = judge_probe("/dsh", &new);
    assert!(verdict.is_ok());
    cache.store("/dsh", Some(65), verdict.err());
    assert_eq!(cache.cached_probe("/dsh", Some(65)), Some(None));
}

#[test]
fn a_probe_that_fails_or_hangs_is_no_support() {
    assert!(judge_probe("/dsh", &ProbeRun::Failed("no such file".into()))
        .unwrap_err()
        .contains("no such file"));
    assert!(judge_probe("/dsh", &ProbeRun::TimedOut).is_err());
    let on_stderr = ProbeRun::Output { stdout: "--json".into(), stderr: "--session-id".into() };
    assert!(judge_probe("/dsh", &on_stderr).is_ok());
}

fn request(agent: AgentType, dir: &str, session: Option<&str>) -> CliConnectRequest {
    CliConnectRequest {
        agent_type: agent,
        working_dir: dir.into(),
        session_id: session.map(String::from),
        runtime_env: vec![],
        executable: "/bin/false".into(),
        provider: None,
        model: None,
        owner_window_label: None,
    }
}

fn live(id: &str, session: &str, dir: &str, status: ConnectionStatus) -> LiveConnection {
    LiveConnection {
        id: id.into(),
        agent_type: AgentType::ClaudeCode,
        transport: ConnectionTransport::Cli,
        status,
        external_id: Some(session.into()),
        working_dir: Some(dir.into()),
    }
}

const SESSION: &str = "55960ec1-365e-4af9-8681-e6576043af2d";

#[test]
fn a_live_session_is_reused_in_place_and_locked_elsewhere() {
    let all = vec![live("c1", SESSION, "/w", ConnectionStatus::Connected)];
    assert_eq!(connection_transport(&all, "c1"), Some(ConnectionTransport::Cli));
    assert_eq!(connection_transport(&all, "c2"), None);
    match create_or_reuse_cli_connection(&request(AgentType::ClaudeCode, "/w", Some(SESSION)), &all) {
        Ok(ConnectionPlan::Reuse(c)) => {
            assert!(c.reused);
            assert_eq!(c.connection_id, "c1");
            assert_eq!(c.session_id.as_deref(), Some(SESSION));
        }
        other => panic!("{other:?}"),
    }
    match create_or_reuse_cli_connection(
        &request(AgentType::ClaudeCode, "/elsewhere", Some(SESSION)),
        &all,
    ) {
        Err(CliConnectError::SessionLocked { connection_id }) => assert_eq!(connection_id, "c1"),
        other => panic!("{other:?}"),
    }
}

#[test]
fn a_dead_connection_holds_no_session() {
    for status in [ConnectionStatus::Disconnected, ConnectionStatus::Error] {
        let all = vec![live("c1", SESSION, "/elsewhere", status)];
        assert!(matches!(
            create_or_reuse_cli_connection(&request(AgentType::ClaudeCode, "/w", Some(SESSION)), &all),
            Ok(ConnectionPlan::Create(_))
        ));
    }
}

#[test]
fn new_connections_are_named_apart() {
    let req = request(AgentType::ClaudeCode, "/w", None);
    let mut ids = Vec::new();
    for _ in 0..2 {
        match create_or_reuse_cli_connection(&req, &vec![]) {
            Ok(ConnectionPlan::Create(n)) => {
                assert!(uuid::Uuid::parse_str(&n.connection.connection_id).is_ok());
                let session = n.connection.session_id.unwrap();
                assert!(uuid::Uuid::parse_str(&session).is_ok());
                assert_ne!(session, n.connection.connection_id);
                assert_eq!(n.driver, DriverKind::Stream);
                assert_eq!(n.owner_window_label, "web");
                ids.push(n.connection.connection_id);
            }
            other => panic!("{other:?}"),
        }
    }
    assert_ne!(ids[0], ids[1]);
}

fn created(req: &CliConnectRequest) -> codeg::cli::connection::NewConnection {
    match plan_connection(req, &vec![], "id".into(), "minted".into()) {
        Ok(ConnectionPlan::Create(n)) => n,
        other => panic!("{other:?}"),
    }
}

#[test]
fn spawn_agent_gives_claude_code_a_cli_connection() {
    let resumed = "0b0f7c1e-2b44-4e8e-9a51-0c6c3f0b7d21";
    let mut req = request(AgentType::ClaudeCode, "/w", Some(resumed));
    req.owner_window_label = Some("automation".into());
    let n = created(&req);
    assert_eq!(n.connection.session_id.as_deref(), Some(resumed));
    assert_eq!(n.owner_window_label, "automation");
    assert_eq!(
        n.events,
        vec![
            AcpEvent::SessionStarted { session_id: resumed.into() },
            AcpEvent::StatusChanged { status: ConnectionStatus::Connected },
        ]
    );
}

#[test]
fn spawn_agent_gives_deepseek_a_cli_connection() {
    let mut req =
        request(AgentType::DeepSeek, "/w", Some("11c2b268-f4fc-4eba-805a-ec1a49c08a8f"));
    req.owner_window_label = Some("work_task".into());
    req.model = Some("kimi-k3".into());
    req.provider = Some("myclaw".into());
    let n = created(&req);
    assert_eq!(n.driver, DriverKind::Dsh);
    assert_eq!(n.connection.session_id, None, "a bridge id is not resumed");
    assert_eq!(n.cli_model.as_deref(), Some("kimi-k3"));
    assert_eq!(n.provider.as_deref(), Some("myclaw"));
    assert_eq!(n.owner_window_label, "work_task");
}

#[test]
fn a_bridge_session_is_continued_not_replaced() {
    let bridge = "b4cbcfb7-641e-4b03-be6b-f248082166c9";
    let n = created(&request(AgentType::DeepSeek, "/w", Some(bridge)));
    assert_eq!(n.connection.session_id, None, "the bridge id is not resumed");
    assert_eq!(n.continues_from.as_deref(), Some(bridge));
    let own = format!("session-{bridge}");
    let n = created(&request(AgentType::DeepSeek, "/w", Some(&own)));
    assert_eq!(n.connection.session_id.as_deref(), Some(own.as_str()));
    assert_eq!(n.continues_from, None);
}

#[test]
fn codex_names_its_own_sessions() {
    let n = created(&request(AgentType::Codex, "/w", None));
    assert_eq!(n.driver, DriverKind::Codex);
    assert_eq!(n.connection.session_id, None);
    assert_eq!(n.events, vec![AcpEvent::StatusChanged { status: ConnectionStatus::Connected }]);
}

#[test]
fn blank_models_and_providers_are_none() {
    let mut req = request(AgentType::DeepSeek, "/w", None);
    req.model = Some("  ".into());
    req.provider = Some("".into());
    let n = created(&req);
    assert_eq!(n.cli_model, None);
    assert_eq!(n.provider, None);
}

#[test]
fn harness_ids_carry_a_prefix() {
    assert!(is_dsh_session_id("session-b4cbcfb7-641e-4b03-be6b-f248082166c9"));
    assert!(!is_dsh_session_id("b4cbcfb7-641e-4b03-be6b-f248082166c9"));
    assert!(!is_dsh_session_id("session-nope"));
}

#[test]
fn cli_transport_allow_list() {
    assert!(runs_on_cli(AgentType::ClaudeCode));
    assert!(runs_on_cli(AgentType::DeepSeek));
    assert!(runs_on_cli(AgentType::Codex));
    assert!(!runs_on_cli(AgentType::Hermes));
}

#[test]
fn the_names_of_an_agent_follow_from_its_id() {
    assert_eq!(id_of(AgentType::ClaudeCode), Some(ID));
    assert_eq!(id_of(AgentType::DeepSeek), Some("deepseek"));
    assert_eq!(id_of(AgentType::Codex), Some("codex"));
    assert_eq!(id_of(AgentType::Pi), None);
    assert_eq!(family_of(ID), family());
    assert_eq!(family_of("codex"), "codex");
    assert_eq!(name_of(DriverKind::Stream), called());
    assert_eq!(name_of(DriverKind::Dsh), "DeepSeek Harness");
    assert_eq!(name_of(DriverKind::Codex), "Codex");
}
