use base64::Engine;
use codeg::cli::attachments::{attachment_path, extension_for, io_error, local_upload, uploads};
use codeg::cli::codex_driver::{
    app_server_args, build_input, classify, interrupt_request, refuse_request, request_failed,
    thread_request, turn_request, Message, ID_THREAD, ID_TURN,
};
use codeg::cli::driver::{build_args, build_stdin_line, mcp_config_json};
use codeg::cli::dsh_prompt::{flatten_prompt, MAX_PROMPT_BYTES};
use codeg::cli::prompt::{CompanionLaunchSpec, PromptInputBlock};
use codeg::json::Json;

fn json(text: &str) -> Json {
    Json::parse(text).unwrap()
}

fn text(s: &str) -> PromptInputBlock {
    PromptInputBlock::Text { text: s.into() }
}

fn link() -> PromptInputBlock {
    PromptInputBlock::ResourceLink {
        uri: "https://x".into(),
        name: "x".into(),
        mime_type: None,
        description: None,
    }
}

fn companion() -> CompanionLaunchSpec {
    CompanionLaunchSpec {
        command: "/opt/codeg/codeg-mcp".into(),
        args: vec!["--parent".into(), "c1".into()],
        token: "t".into(),
        feedback_available: false,
        delegation_enabled: true,
    }
}

#[test]
fn args_put_launcher_flags_before_app_flags_and_separate_the_prompt() {
    let args = codeg::cli::dsh_prompt::build_args("/h/codeg-x.patch.yml", None, "-hello");
    assert_eq!(
        args,
        vec![
            "--profile",
            "headless",
            "--patch",
            "/h/codeg-x.patch.yml",
            "--json",
            "--",
            "-hello"
        ]
    );
    let args = codeg::cli::dsh_prompt::build_args("/h/p.yml", Some("session-1"), "hi");
    assert_eq!(&args[5..], &["--session-id", "session-1", "--", "hi"]);
}

#[test]
fn flatten_joins_text_and_writes_images_to_the_workspace() {
    let png = base64::engine::general_purpose::STANDARD.encode(b"\x89PNG fake");
    let blocks = vec![
        text("look"),
        PromptInputBlock::Image { data: png, mime_type: "image/png".into(), uri: None },
        link(),
    ];
    let none = vec![false, false, false];
    let (writes, prompt) = flatten_prompt(&blocks, "/ws", &none);
    let prompt = prompt.unwrap();
    let lines: Vec<&str> = prompt.split("\n\n").collect();
    assert_eq!(lines[0], "look");
    assert!(lines[1].starts_with("[附件: "));
    assert!(lines[1].ends_with(".png]"));
    assert_eq!(lines[2], "[x](https://x)");
    let path = lines[1].trim_start_matches("[附件: ").trim_end_matches(']');
    assert_eq!(writes.len(), 1);
    assert_eq!(writes[0].path, path);
    assert_eq!(writes[0].dir, "/ws/.codeg/attachments");
    assert_eq!(writes[0].bytes, b"\x89PNG fake");
    assert_eq!(flatten_prompt(&blocks, "/ws", &none).1.unwrap(), prompt);
}

#[test]
fn existing_file_uploads_are_referenced_in_place() {
    let blocks = vec![PromptInputBlock::Image {
        data: "ignored".into(),
        mime_type: "image/png".into(),
        uri: Some("file:///ws/up.png".into()),
    }];
    assert_eq!(uploads(&blocks[0]).as_deref(), Some("/ws/up.png"));
    let (writes, prompt) = flatten_prompt(&blocks, "/ws", &vec![true]);
    assert!(writes.is_empty());
    assert_eq!(prompt.unwrap(), "[附件: /ws/up.png]");
}

#[test]
fn empty_and_oversized_prompts_are_refused() {
    let err = flatten_prompt(&vec![text("  ")], "/ws", &vec![false]).1.unwrap_err();
    assert_eq!(err.code, "invalid_params");
    let big = "x".repeat(MAX_PROMPT_BYTES + 1);
    let err = flatten_prompt(&vec![text(&big)], "/ws", &vec![false]).1.unwrap_err();
    assert_eq!(err.code, "prompt_too_large");
}

#[test]
fn the_largest_prompt_is_taken() {
    let big = "x".repeat(MAX_PROMPT_BYTES);
    assert_eq!(flatten_prompt(&vec![text(&big)], "/ws", &vec![false]).1.unwrap(), big);
}

#[test]
fn broken_base64_is_refused() {
    let blocks = vec![PromptInputBlock::Image {
        data: "***".into(),
        mime_type: "image/png".into(),
        uri: None,
    }];
    let (writes, prompt) = flatten_prompt(&blocks, "/ws", &vec![false]);
    assert!(writes.is_empty());
    assert_eq!(prompt.unwrap_err().code, "invalid_params");
}

#[test]
fn extensions_follow_the_media_type() {
    assert_eq!(extension_for("image/png"), "png");
    assert_eq!(extension_for("image/jpeg"), "jpg");
    assert_eq!(local_upload(Some("file:///a/b.png")).as_deref(), Some("/a/b.png"));
    assert_eq!(local_upload(Some("https://x")), None);
    assert_eq!(local_upload(None), None);
    assert!(io_error("/a", "denied").message.contains("denied"));
}

#[test]
fn new_session_starts_a_thread_and_a_known_one_resumes_it() {
    let start = thread_request(None, "/ws", Some("gpt-5.4-mini"));
    assert_eq!(start.str_at("method"), Some("thread/start"));
    assert_eq!(start.at("params").str_at("approvalPolicy"), Some("never"));
    assert_eq!(start.at("params").str_at("sandbox"), Some("danger-full-access"));
    assert_eq!(start.at("params").str_at("model"), Some("gpt-5.4-mini"));
    assert!(start.at("params").get("threadId").is_none());

    let resume = thread_request(Some("01a0b54e-568c-7310-aa4d-f777c3663fb7"), "/ws", None);
    assert_eq!(resume.str_at("method"), Some("thread/resume"));
    assert_eq!(
        resume.at("params").str_at("threadId"),
        Some("01a0b54e-568c-7310-aa4d-f777c3663fb7")
    );
    assert!(resume.at("params").get("model").is_none());
}

#[test]
fn companion_is_passed_as_config_overrides() {
    let args = app_server_args(Some(&companion()));
    assert_eq!(args[0], "app-server");
    assert!(args.contains(&r#"mcp_servers.myclaw.command="/opt/codeg/codeg-mcp""#.to_string()));
    assert!(args.contains(&r#"mcp_servers.myclaw.args=["--parent","c1"]"#.to_string()));
    assert_eq!(app_server_args(None), vec!["app-server".to_string()]);
}

#[test]
fn prompt_blocks_become_user_input() {
    let (_, input) = build_input(&vec![text("hi"), link()], "/ws", &vec![false, false]);
    let input = input.unwrap();
    let items = input.as_array().unwrap();
    assert_eq!(items[0].write(), json(r#"{"type":"text","text":"hi","text_elements":[]}"#).write());
    assert_eq!(items[1].str_at("text"), Some("[x](https://x)"));
    assert_eq!(
        build_input(&vec![], "/ws", &vec![]).1.unwrap_err().code,
        "invalid_params"
    );
}

#[test]
fn oversized_input_is_refused() {
    let big = "x".repeat(MAX_PROMPT_BYTES + 1);
    let err = build_input(&vec![text(&big)], "/ws", &vec![false]).1.unwrap_err();
    assert_eq!(err.code, "prompt_too_large");
}

#[test]
fn server_requests_are_refused_and_responses_classified() {
    assert!(matches!(
        classify(&json(r#"{"id": 9, "method": "item/commandExecution/requestApproval"}"#)),
        Message::ServerRequest(_)
    ));
    assert!(matches!(classify(&json(r#"{"id": 3, "result": {}}"#)), Message::Response(3)));
    assert!(matches!(classify(&json(r#"{"method": "turn/started"}"#)), Message::Notification));
    let refusal = refuse_request(json("9"));
    assert_eq!(refusal.at("id").as_u64(), Some(9));
    assert!(refusal.at("error").str_at("message").unwrap().contains("approvals"));
    assert!(refusal.write().contains("-32601"));
}

#[test]
fn resume_errors_are_classified() {
    assert_eq!(
        request_failed(ID_THREAD, &json(r#"{"message": "thread not found"}"#)).code,
        "cli_resume_failed"
    );
    assert_eq!(
        request_failed(ID_TURN, &json(r#"{"message": "bad"}"#)).code,
        "cli_execution_error"
    );
}

#[test]
fn turns_are_started_and_interrupted_on_their_thread() {
    let start = turn_request("th", json("[1]"), Some("m"));
    assert_eq!(start.str_at("method"), Some("turn/start"));
    assert_eq!(start.at("params").write(), r#"{"input":[1],"model":"m","threadId":"th"}"#);
    let stop = interrupt_request("th", "tu");
    assert_eq!(stop.str_at("method"), Some("turn/interrupt"));
    assert_eq!(stop.at("params").write(), r#"{"threadId":"th","turnId":"tu"}"#);
}

#[test]
fn the_command_line_of_a_turn_starts_or_resumes() {
    let fresh = build_args("s1", false, None);
    assert!(fresh.windows(2).any(|w| w[0] == "--session-id" && w[1] == "s1"));
    assert!(!fresh.iter().any(|a| a == "--resume"));
    let resumed = build_args("s1", true, Some("m"));
    assert!(resumed.windows(2).any(|w| w[0] == "--resume" && w[1] == "s1"));
    assert!(resumed.windows(2).any(|w| w[0] == "--model" && w[1] == "m"));
}

#[test]
fn a_prompt_is_one_line_of_json() {
    let line = build_stdin_line(&vec![text("a\nb"), link()]);
    assert!(!line.trim_end_matches('\n').contains('\n'));
    let v = json(&line);
    assert_eq!(v.str_at("type"), Some("user"));
    let content = v.at("message").at("content").as_array().unwrap();
    assert_eq!(content.len(), 2);
    assert_eq!(content[0].str_at("text"), Some("a\nb"));
}

#[test]
fn the_companion_is_described_as_a_server() {
    let v = json(&mcp_config_json(&companion()));
    let server = v.at("mcpServers").at("codeg-mcp");
    assert_eq!(server.str_at("command"), Some("/opt/codeg/codeg-mcp"));
    assert_eq!(server.at("args").write(), r#"["--parent","c1"]"#);
}

#[test]
fn the_same_bytes_lie_at_the_same_path() {
    let (a, first) = attachment_path("/w", " aGVsbG8= ", "image/png", None, false).unwrap();
    let (b, second) =
        attachment_path("/w", "aGVsbG8=", "image/png", Some("file:///gone.png"), false).unwrap();
    assert_eq!(a, b);
    assert_eq!(first.unwrap().bytes, b"hello");
    assert_eq!(second.unwrap().bytes, b"hello");
    let (c, _) = attachment_path("/w", "aGVsbG9v", "image/png", None, false).unwrap();
    assert_ne!(a, c);
}
