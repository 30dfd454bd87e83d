use codeg::json::Json;
use codeg::tool_description::{
    call_tokens, clip, command_tokens, cwd_of, describe_command, describe_parsed,
    describe_tool_call, is_noise_prefix, split_top_level, strip_noise_prefix, ParsedCommand,
    MAX_LEN,
};

fn json(text: &str) -> Json {
    Json::parse(text).unwrap()
}

fn unknown() -> Vec<ParsedCommand> {
    vec![ParsedCommand::Unknown]
}

#[test]
fn model_written_description_wins() {
    let input = json(
        r#"{"command":"cd /tmp && officecli save a.pptx","description":"Create and open the PPTX file"}"#,
    );
    assert_eq!(
        describe_tool_call(
            "cd /tmp && officecli save a.pptx",
            Some("execute"),
            Some(&input),
            &unknown()
        ),
        Some("Create and open the PPTX file".to_string())
    );
}

#[test]
fn falls_back_to_parsing_the_command() {
    let input = json(r#"{"command":"cd src && cat lib.rs"}"#);
    let read = vec![ParsedCommand::Read { name: "lib.rs".into() }];
    assert_eq!(
        call_tokens("cd src && cat lib.rs", Some(&input)),
        Some(vec!["cd".into(), "src".into(), "&&".into(), "cat".into(), "lib.rs".into()])
    );
    assert_eq!(
        describe_tool_call("cd src && cat lib.rs", Some("execute"), Some(&input), &read),
        Some("Read lib.rs".to_string())
    );
    let search = vec![ParsedCommand::Search {
        query: Some("todo".into()),
        path: Some("src".into()),
    }];
    assert_eq!(
        describe_command("rg -n \"todo\" src", &search),
        Some("Search \"todo\" in src".to_string())
    );
    let list = vec![ParsedCommand::ListFiles { path: Some("src".into()) }];
    assert_eq!(describe_command("ls -la src", &list), Some("List src".to_string()));
}

#[test]
fn unknown_command_has_no_description() {
    assert_eq!(
        describe_command(
            "cd ~/out && officecli save a.pptx && myclaw deliver ./a.pptx",
            &unknown()
        ),
        None
    );
    assert_eq!(describe_command("", &vec![]), None);
}

#[test]
fn non_exec_tools_are_left_alone() {
    assert_eq!(describe_tool_call("Edit note.txt", Some("edit"), None, &unknown()), None);
    assert_eq!(
        describe_tool_call("mcp__app-youtube__youtube_search", Some("other"), None, &unknown()),
        None
    );
}

#[test]
fn description_is_clipped() {
    let input = json(&format!(r#"{{"description":"{}"}}"#, "x".repeat(200)));
    let out = describe_tool_call("cmd", Some("execute"), Some(&input), &unknown()).unwrap();
    assert!(out.chars().count() <= MAX_LEN, "{}", out.chars().count());
    assert!(out.ends_with('…'));
}

#[test]
fn strips_cd_and_variable_assignments() {
    let cmd = "cd ~/.myclaw/sessions/1947d8f1-87a8/output && FILE=\"a.pptx\" && SLIDE=1 && officecli set \"$FILE\" --prop fill=FFFFFF";
    assert_eq!(
        strip_noise_prefix(cmd, None),
        "officecli set \"$FILE\" --prop fill=FFFFFF"
    );
    assert_eq!(strip_noise_prefix("cd /work/out && ls", Some("/work/out")), "ls");
}

#[test]
fn keeps_meaningful_cd_and_empty_result() {
    assert_eq!(strip_noise_prefix("cd /etc && ls -1", None), "cd /etc && ls -1");
    let only = "cd ~/.myclaw/sessions/1947d8f1-87a8/output";
    assert_eq!(strip_noise_prefix(only, None), only);
    assert_eq!(strip_noise_prefix("echo \"a && b\"", None), "echo \"a && b\"");
}

#[test]
fn unknown_command_falls_back_to_cleaned_text() {
    let input = json(
        r#"{"command":"cd ~/.myclaw/sessions/1947d8f1-87a8/output && officecli save a.pptx","yieldMs":10000}"#,
    );
    assert_eq!(
        describe_tool_call(
            "cd ~/.myclaw/sessions/1947d8f1-87a8/output && officecli save a.pptx",
            Some("execute"),
            Some(&input),
            &unknown()
        ),
        Some("officecli save a.pptx".to_string())
    );
}

#[test]
fn openclaw_exec_uses_the_title_the_model_wrote() {
    let input = json(
        r#"{"command":"sleep 20 && echo 1","title":"等待 20 秒后打印 1","background":true}"#,
    );
    let acp_title = "exec: command: sleep 20 && echo 1, title: 等待 20 秒后打印 1, background: true";
    assert_eq!(
        describe_tool_call(acp_title, Some("execute"), Some(&input), &unknown()),
        Some("等待 20 秒后打印 1".to_string())
    );
    assert_eq!(
        describe_tool_call("exec", None, Some(&input), &unknown()),
        Some("等待 20 秒后打印 1".to_string())
    );
}

#[test]
fn a_title_without_a_command_is_not_a_description() {
    let input = json(r#"{"title":"Q3 roadmap","parent":"abc"}"#);
    assert_eq!(
        describe_tool_call("mcp__app-notion__create_page", None, Some(&input), &unknown()),
        None
    );
}

#[test]
fn openclaw_process_actions_are_translated() {
    let list = json(r#"{"action":"list"}"#);
    assert_eq!(
        describe_tool_call("process: action: list", None, Some(&list), &unknown()),
        Some("List background processes".to_string())
    );
    let log = json(r#"{"action":"log","sessionId":"gentle-zephyr"}"#);
    assert_eq!(
        describe_tool_call(
            "process: action: log, sessionId: gentle-zephyr",
            None,
            Some(&log),
            &unknown()
        ),
        Some("Read output of gentle-zephyr".to_string())
    );
    assert_eq!(
        describe_tool_call("process", None, Some(&log), &unknown()),
        Some("Read output of gentle-zephyr".to_string())
    );
    let kill = json(r#"{"action":"kill","sessionId":"gentle-zephyr"}"#);
    assert_eq!(
        describe_tool_call("process", None, Some(&kill), &unknown()),
        Some("Stop gentle-zephyr".to_string())
    );
    assert_eq!(
        describe_tool_call("process", None, Some(&json(r#"{"action":"poll"}"#)), &unknown()),
        Some("Check a background process".to_string())
    );
}

#[test]
fn openclaw_process_does_not_guess() {
    assert_eq!(
        describe_tool_call(
            "process: action: rewind",
            None,
            Some(&json(r#"{"action":"rewind"}"#)),
            &unknown()
        ),
        None
    );
    assert_eq!(
        describe_tool_call(
            "browser: action: list",
            None,
            Some(&json(r#"{"action":"list"}"#)),
            &unknown()
        ),
        None
    );
}

#[test]
fn words_are_split_as_a_shell_does() {
    assert_eq!(
        command_tokens("grep 'a b' \"c d\" e\\ f", None),
        Some(vec!["grep".into(), "a b".into(), "c d".into(), "e f".into()])
    );
    assert_eq!(command_tokens("echo 'open", None), None);
}

#[test]
fn pieces_are_cut_outside_of_quotes() {
    assert_eq!(split_top_level("a && echo 'x && y'; b ;"), vec!["a", "echo 'x && y'", "b"]);
    assert!(is_noise_prefix("FILE=a", None));
    assert!(!is_noise_prefix("ls", None));
}

#[test]
fn a_text_that_fits_is_not_clipped() {
    assert_eq!(clip(&"x".repeat(MAX_LEN)), "x".repeat(MAX_LEN));
    assert_eq!(clip(&"x".repeat(MAX_LEN + 1)), format!("{}…", "x".repeat(MAX_LEN - 1)));
}

#[test]
fn several_commands_are_described_together() {
    assert_eq!(describe_parsed(&vec![]), None);
    assert_eq!(
        describe_parsed(&vec![ParsedCommand::ListFiles { path: None }]),
        Some("List files".to_string())
    );
    assert_eq!(cwd_of(Some(&json(r#"{"cwd":"/w"}"#))).as_deref(), Some("/w"));
}

#[test]
fn cleaning_once_is_enough() {
    for cmd in [
        "cd /work && export A=1; ls 'a && b' &&& cat x",
        "  A=1 ; B=2  ",
        "cd /work",
        "a&;b & && c \"open ; quote  ",
        ";; && ",
        "",
    ] {
        let once = strip_noise_prefix(cmd, Some("/work"));
        assert_eq!(strip_noise_prefix(&once, Some("/work")), once, "{cmd}");
    }
    assert_eq!(
        strip_noise_prefix("cd /work && export A=1; ls 'a && b' &&& cat x", Some("/work")),
        "ls 'a && b' && & cat x"
    );
}
