//! Title, kind and locations of the tool calls of DeepSeek Harness. Its own tools
//! have small-letter names; MCP tools are called `mcp__<server>__<tool>`.
use vstd::prelude::*;
use crate::cli::tool_info;
use crate::cli::tool_info::{info, place_of, text_or, ToolInfo, ToolInfoView};
use crate::json::{Json, JsonView};
use crate::text;

verus! {

/// The first text that there is.
pub open spec fn either(a: Option<Seq<char>>, b: Option<Seq<char>>) -> Option<Seq<char>> {
    match a {
        Some(_) => a,
        None => b,
    }
}

/// The path that a call names, under whichever key.
pub open spec fn path_key(input: JsonView) -> Option<Seq<char>> {
    either(input.filled("path"@), either(input.filled("file_path"@), input.filled("filePath"@)))
}

/// A call that works on a file.
pub open spec fn file_call(
    verb: Seq<char>,
    kind: Seq<char>,
    path: Option<Seq<char>>,
    cwd: Option<Seq<char>>,
) -> ToolInfoView {
    ToolInfoView {
        title: verb + match path {
            Some(p) => tool_info::shown_path(p, cwd),
            None => "File"@,
        },
        kind,
        locations: tool_info::file_place_of(path),
    }
}

/// The title of a tool by its name alone: `server: tool` for an MCP tool.
pub open spec fn name_title(name: Seq<char>) -> Seq<char> {
    match text::without_prefix(name, "mcp__"@) {
        Some(rest) => match text::cut(rest, "__"@) {
            Some((server, tool)) => server + ": "@ + tool,
            None => name,
        },
        None => name,
    }
}

/// How a call of a DeepSeek Harness tool is shown.
pub open spec fn dsh_shown(name: Seq<char>, input: JsonView, cwd: Option<Seq<char>>) -> ToolInfoView {
    let path = path_key(input);
    if name == "bash"@ || name == "pwsh"@ || name == "bash_persistent"@ || name
        == "pwsh_persistent"@ {
        ToolInfoView::plain(tool_info::or(input.filled("command"@), "Terminal"@), "execute"@)
    } else if name == "read"@ {
        file_call("Read "@, "read"@, path, cwd)
    } else if name == "edit"@ || name == "write"@ || name == "str_replace_editor"@ || name
        == "create"@ {
        file_call("Edit "@, "edit"@, path, cwd)
    } else if name == "glob"@ || name == "grep"@ || name == "fs_search"@ {
        ToolInfoView::plain(
            tool_info::or(either(input.filled("pattern"@), input.filled("query"@)), "Search"@),
            "search"@,
        )
    } else if name == "web_fetch"@ || name == "fetch"@ {
        ToolInfoView::plain(tool_info::or(input.filled("url"@), "Fetch"@), "fetch"@)
    } else if name == "web_search"@ {
        ToolInfoView::plain(tool_info::or(input.filled("query"@), "Web search"@), "fetch"@)
    } else if name == "todo"@ || name == "todo_write"@ {
        ToolInfoView::plain("Update todos"@, "think"@)
    } else if name == "subagent"@ || name == "delegate"@ {
        ToolInfoView::plain(tool_info::or(input.filled("description"@), "Task"@), "think"@)
    } else if name == "search_tools"@ {
        ToolInfoView::plain(
            "Search tools: "@ + tool_info::or(input.filled("query"@), ""@),
            "think"@,
        )
    } else {
        ToolInfoView::plain(name_title(name), "other"@)
    }
}

/// The first text that there is.
fn first_of<'a>(a: Option<&'a str>, b: Option<&'a str>) -> (r: Option<&'a str>)
    ensures
        r.deep_view() == either(a.deep_view(), b.deep_view()),
{
    match a {
        Some(_) => a,
        None => b,
    }
}

/// A call that works on a file.
fn file_info(verb: &str, kind: &'static str, path: Option<&str>, cwd: Option<&str>) -> (r: ToolInfo)
    ensures
        r@ == file_call(verb@, kind@, path.deep_view(), cwd.deep_view()),
{
    let display = match path {
        Some(p) => tool_info::display_path(p, cwd),
        None => "File".to_owned(),
    };
    info(text::cat2(verb, display.as_str()).as_str(), kind, place_of(path))
}

/// The title of a tool by its name alone.
fn title_of_name(name: &str) -> (r: String)
    ensures
        r@ == name_title(name@),
{
    match text::strip_prefix(name, "mcp__") {
        Some(rest) => match text::split_once(rest.as_str(), "__") {
            Some((server, tool)) => text::cat3(server.as_str(), ": ", tool.as_str()),
            None => name.to_owned(),
        },
        None => name.to_owned(),
    }
}

/// Title, kind and locations of a call of a DeepSeek Harness tool.
pub fn dsh_tool_info(name: &str, input: &Json, cwd: Option<&str>) -> (r: ToolInfo)
    ensures
        r@ == dsh_shown(name@, input@, cwd.deep_view()),
{
    let path = first_of(
        input.filled("path"),
        first_of(input.filled("file_path"), input.filled("filePath")),
    );
    if text::same(name, "bash") || text::same(name, "pwsh") || text::same(name, "bash_persistent")
        || text::same(name, "pwsh_persistent") {
        info(text_or(input.filled("command"), "Terminal").as_str(), "execute", None)
    } else if text::same(name, "read") {
        file_info("Read ", "read", path, cwd)
    } else if text::same(name, "edit") || text::same(name, "write") || text::same(
        name,
        "str_replace_editor",
    ) || text::same(name, "create") {
        file_info("Edit ", "edit", path, cwd)
    } else if text::same(name, "glob") || text::same(name, "grep") || text::same(name, "fs_search") {
        let pattern = first_of(input.filled("pattern"), input.filled("query"));
        info(text_or(pattern, "Search").as_str(), "search", None)
    } else if text::same(name, "web_fetch") || text::same(name, "fetch") {
        info(text_or(input.filled("url"), "Fetch").as_str(), "fetch", None)
    } else if text::same(name, "web_search") {
        info(text_or(input.filled("query"), "Web search").as_str(), "fetch", None)
    } else if text::same(name, "todo") || text::same(name, "todo_write") {
        info("Update todos", "think", None)
    } else if text::same(name, "subagent") || text::same(name, "delegate") {
        info(text_or(input.filled("description"), "Task").as_str(), "think", None)
    } else if text::same(name, "search_tools") {
        let query = text_or(input.filled("query"), "");
        info(text::cat2("Search tools: ", query.as_str()).as_str(), "think", None)
    } else {
        info(title_of_name(name).as_str(), "other", None)
    }
}

} // verus!
