use codeg::cli::dsh_tool_info::dsh_tool_info;
use codeg::cli::tool_info::tool_info;
use codeg::json::Json;

fn json(text: &str) -> Json {
    Json::parse(text).unwrap()
}

#[test]
fn bash_uses_the_command_as_title() {
    let i = tool_info("Bash", &json(r#"{"command":"ls /etc | head -3"}"#), None);
    assert_eq!((i.title.as_str(), i.kind), ("ls /etc | head -3", "execute"));
    assert_eq!(tool_info("Bash", &json("{}"), None).title, "Terminal");
}

#[test]
fn read_shows_a_cwd_relative_path_and_line_range() {
    let i = tool_info(
        "Read",
        &json(r#"{"file_path":"/w/src/a.rs","offset":10,"limit":5}"#),
        Some("/w"),
    );
    assert_eq!(i.title, "Read src/a.rs (10 - 14)");
    assert_eq!(i.kind, "read");
    assert_eq!(
        i.locations.unwrap().write(),
        json(r#"[{"path":"/w/src/a.rs","line":10}]"#).write()
    );
    assert_eq!(tool_info("Read", &json("{}"), None).title, "Read File");
}

#[test]
fn grep_label_matches_the_adapter() {
    let i = tool_info(
        "Grep",
        &json(r#"{"pattern":"fn main","-i":true,"output_mode":"files_with_matches","path":"src"}"#),
        None,
    );
    assert_eq!(i.title, "grep -i -l \"fn main\" src");
    assert_eq!(i.kind, "search");
}

#[test]
fn unknown_tools_fall_back_to_their_name() {
    let i = tool_info("mcp__x__y", &json("{}"), None);
    assert_eq!((i.title.as_str(), i.kind), ("mcp__x__y", "other"));
}

#[test]
fn builtin_tools_get_kind_and_title() {
    let cwd = Some("/ws");
    let bash = dsh_tool_info("bash", &json(r#"{"command":"ls -la"}"#), cwd);
    assert_eq!((bash.title.as_str(), bash.kind), ("ls -la", "execute"));
    let read = dsh_tool_info("read", &json(r#"{"path":"/ws/src/a.rs"}"#), cwd);
    assert_eq!((read.title.as_str(), read.kind), ("Read src/a.rs", "read"));
    assert!(read.locations.is_some());
}

#[test]
fn mcp_tools_show_server_and_tool() {
    let t = dsh_tool_info("mcp__app-notion__notion-fetch", &json("{}"), None);
    assert_eq!((t.title.as_str(), t.kind), ("app-notion: notion-fetch", "other"));
}

#[test]
fn a_path_outside_the_working_directory_is_shown_whole() {
    let i = tool_info("Read", &json(r#"{"file_path":"/etc/hosts"}"#), Some("/w"));
    assert_eq!(i.title, "Read /etc/hosts");
}
