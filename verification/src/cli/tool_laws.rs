//! How tool calls are shown: what they run, read, write or look for.
use vstd::prelude::*;
use crate::cli::dsh_tool_info;
use crate::cli::tool_info;
use crate::cli::tool_info::ToolInfoView;
use crate::json;
use crate::json::JsonView;
use crate::paths;
use crate::paths_laws;
use crate::text;

verus! {

/// The names of the tools differ in length or in a letter.
proof fn tools_are_apart()
    ensures
        "Agent"@.len() == 5 && "Agent"@[0] == 'A',
        "Task"@.len() == 4 && "Task"@[0] == 'T',
        "Bash"@.len() == 4 && "Bash"@[0] == 'B',
        "Read"@.len() == 4 && "Read"@[0] == 'R',
        "Write"@.len() == 5 && "Write"@[0] == 'W',
        "Edit"@.len() == 4 && "Edit"@[0] == 'E',
        "Glob"@.len() == 4 && "Glob"@[0] == 'G' && "Glob"@[1] == 'l',
        "Grep"@.len() == 4 && "Grep"@[0] == 'G' && "Grep"@[1] == 'r',
        "WebFetch"@.len() == 8 && "WebFetch"@[0] == 'W',
        "WebSearch"@.len() == 9 && "WebSearch"@[0] == 'W',
        "TodoWrite"@.len() == 9 && "TodoWrite"@[0] == 'T',
        "ReportFindings"@.len() == 14,
        "TaskCreate"@.len() == 10 && "TaskCreate"@[4] == 'C',
        "TaskUpdate"@.len() == 10 && "TaskUpdate"@[4] == 'U',
        "TaskList"@.len() == 8 && "TaskList"@[0] == 'T',
        "TaskGet"@.len() == 7,
        "ExitPlanMode"@.len() == 12,
{
    reveal_strlit("Agent");
    reveal_strlit("Task");
    reveal_strlit("Bash");
    reveal_strlit("Read");
    reveal_strlit("Write");
    reveal_strlit("Edit");
    reveal_strlit("Glob");
    reveal_strlit("Grep");
    reveal_strlit("WebFetch");
    reveal_strlit("WebSearch");
    reveal_strlit("TodoWrite");
    reveal_strlit("ReportFindings");
    reveal_strlit("TaskCreate");
    reveal_strlit("TaskUpdate");
    reveal_strlit("TaskList");
    reveal_strlit("TaskGet");
    reveal_strlit("ExitPlanMode");
}

/// The names of the DeepSeek Harness tools differ in length or in a letter.
proof fn dsh_tools_are_apart()
    ensures
        "bash"@.len() == 4 && "bash"@[0] == 'b',
        "pwsh"@.len() == 4 && "pwsh"@[0] == 'p',
        "bash_persistent"@.len() == 15 && "bash_persistent"@[0] == 'b',
        "pwsh_persistent"@.len() == 15 && "pwsh_persistent"@[0] == 'p',
        "read"@.len() == 4 && "read"@[0] == 'r',
        "edit"@.len() == 4 && "edit"@[0] == 'e',
        "write"@.len() == 5 && "write"@[0] == 'w',
        "str_replace_editor"@.len() == 18,
        "create"@.len() == 6,
        "glob"@.len() == 4 && "glob"@[0] == 'g' && "glob"@[1] == 'l',
        "grep"@.len() == 4 && "grep"@[0] == 'g' && "grep"@[1] == 'r',
        "fs_search"@.len() == 9 && "fs_search"@[0] == 'f',
        "web_fetch"@.len() == 9 && "web_fetch"@[0] == 'w',
        "fetch"@.len() == 5 && "fetch"@[0] == 'f',
        "web_search"@.len() == 10 && "web_search"@[0] == 'w',
        "todo"@.len() == 4 && "todo"@[0] == 't',
        "todo_write"@.len() == 10 && "todo_write"@[0] == 't',
        "subagent"@.len() == 8 && "subagent"@[0] == 's',
        "delegate"@.len() == 8 && "delegate"@[0] == 'd',
        "search_tools"@.len() == 12,
{
    reveal_strlit("bash");
    reveal_strlit("pwsh");
    reveal_strlit("bash_persistent");
    reveal_strlit("pwsh_persistent");
    reveal_strlit("read");
    reveal_strlit("edit");
    reveal_strlit("write");
    reveal_strlit("str_replace_editor");
    reveal_strlit("create");
    reveal_strlit("glob");
    reveal_strlit("grep");
    reveal_strlit("fs_search");
    reveal_strlit("web_fetch");
    reveal_strlit("fetch");
    reveal_strlit("web_search");
    reveal_strlit("todo");
    reveal_strlit("todo_write");
    reveal_strlit("subagent");
    reveal_strlit("delegate");
    reveal_strlit("search_tools");
}

/// A command is shown as it runs, a task by its description.
pub proof fn commands_are_shown(input: JsonView, cwd: Option<Seq<char>>, s: Seq<char>)
    requires
        s.len() > 0,
    ensures
        input.at("command"@) == JsonView::Str(s) ==> ({
            let shown = tool_info::tool_shown("Bash"@, input, cwd);
            shown.title == s && shown.kind == "execute"@ && shown.locations is None
        }),
        input.at("description"@) == JsonView::Str(s) ==> ({
            let task = tool_info::tool_shown("Task"@, input, cwd);
            let agent = tool_info::tool_shown("Agent"@, input, cwd);
            task.title == s && task.kind == "think"@ && agent == task
        }),
{
    tools_are_apart();
}

/// A call that works on a file is shown by its verb and the path, and points at the file; a
/// read tells the lines that it asks for.
pub proof fn files_are_shown(input: JsonView, s: Seq<char>)
    requires
        s.len() > 0,
        input.at("file_path"@) == JsonView::Str(s),
    ensures
        ({
            let write = tool_info::tool_shown("Write"@, input, None);
            let edit = tool_info::tool_shown("Edit"@, input, None);
            let read = tool_info::tool_shown("Read"@, input, None);
            let place = JsonView::Array(
                seq![JsonView::Object(seq![("path"@, JsonView::Str(s))])],
            );
            let limit = input.at("limit"@).as_u64();
            let offset = input.at("offset"@).as_u64();
            &&& write.title == "Write "@ + s && write.kind == "edit"@ && write.locations == Some(
                place,
            )
            &&& edit.title == "Edit "@ + s && edit.kind == "edit"@ && edit.locations == Some(place)
            &&& read.kind == "read"@
            &&& limit is None && offset is None ==> read.title == "Read "@ + s
            &&& limit is None && offset is Some && offset->0 > 0 ==> read.title == "Read "@ + s
                + " (from line "@ + text::dec(offset->0 as nat) + ")"@
            &&& limit is Some && limit->0 > 0 && offset is Some ==> read.title == "Read "@ + s
                + " ("@ + text::dec(offset->0 as nat) + " - "@ + text::dec(
                (offset->0 + limit->0 - 1) as nat,
            ) + ")"@
            &&& read.locations == Some(
                JsonView::Array(
                    seq![
                        JsonView::Object(
                            seq![
                                ("path"@, JsonView::Str(s)),
                                (
                                    "line"@,
                                    JsonView::of_u64(
                                        if offset is Some {
                                            offset->0
                                        } else {
                                            1
                                        },
                                    ),
                                ),
                            ],
                        ),
                    ],
                ),
            )
        }),
{
    tools_are_apart();
    let object = JsonView::empty_object().with("path"@, JsonView::Str(s));
    assert(object->Object_0 =~= seq![("path"@, JsonView::Str(s))]);
    let offset = input.at("offset"@).as_u64();
    let line = JsonView::of_u64(
        if offset is Some {
            offset->0
        } else {
            1
        },
    );
    assert(object.with("line"@, line)->Object_0 =~= seq![
        ("path"@, JsonView::Str(s)),
        ("line"@, line),
    ]);
    let read = tool_info::tool_shown("Read"@, input, None);
    assert(tool_info::line_range(None, None) =~= Seq::<char>::empty());
    assert(input.at("limit"@).as_u64() is None && offset is None ==> read.title =~= "Read "@ + s);
    if input.at("limit"@).as_u64() is None && offset is Some && offset->0 > 0 {
        assert(read.title =~= "Read "@ + s + " (from line "@ + text::dec(offset->0 as nat) + ")"@);
    }
    if input.at("limit"@).as_u64() is Some && input.at("limit"@).as_u64()->0 > 0 && offset is Some {
        assert(read.title =~= "Read "@ + s + " ("@ + text::dec(offset->0 as nat) + " - "@
            + text::dec((offset->0 + input.at("limit"@).as_u64()->0 - 1) as nat) + ")"@);
    }
}

/// A search is shown by where and what it looks for: flags that are set appear in the command
/// line of the search, and the pattern in quotes behind them.
pub proof fn searches_are_shown(input: JsonView, s: Seq<char>)
    requires
        s.len() > 0,
    ensures
        ({
            let glob = tool_info::tool_shown("Glob"@, input, None);
            let grep = tool_info::tool_shown("Grep"@, input, None);
            &&& glob.kind == "search"@ && grep.kind == "search"@
            &&& input.at("path"@) == JsonView::Null && input.at("pattern"@) == JsonView::Str(s)
                ==> glob.title == "Find `"@ + s + "`"@
            &&& input == JsonView::Object(seq![("pattern"@, JsonView::Str(s))]) ==> grep.title
                == "grep \""@ + s + "\""@
        }),
{
    tools_are_apart();
    reveal_strlit("Find");
    reveal_strlit(" `");
    reveal_strlit("Find `");
    reveal_strlit("`");
    assert("Find"@ + " `"@ + s + "`"@ =~= "Find `"@ + s + "`"@);
    reveal_strlit("grep");
    reveal_strlit(" \"");
    reveal_strlit("\"");
    reveal_strlit("grep \"");
    if input == JsonView::Object(seq![("pattern"@, JsonView::Str(s))]) {
        grep_keys_are_apart();
        let members = seq![("pattern"@, JsonView::Str(s))];
        only_member(members, "-i"@);
        only_member(members, "-n"@);
        only_member(members, "-A"@);
        only_member(members, "-B"@);
        only_member(members, "-C"@);
        only_member(members, "output_mode"@);
        only_member(members, "head_limit"@);
        only_member(members, "glob"@);
        only_member(members, "type"@);
        only_member(members, "multiline"@);
        only_member(members, "path"@);
        assert(members[0].0 == "pattern"@);
        assert(input.get("pattern"@) == Some(JsonView::Str(s)));
        assert("grep"@ + " \""@ + s + "\""@ =~= "grep \""@ + s + "\""@);
    }
}

/// The keys of a search are told apart from its pattern.
proof fn grep_keys_are_apart()
    ensures
        "pattern"@ != "-i"@,
        "pattern"@ != "-n"@,
        "pattern"@ != "-A"@,
        "pattern"@ != "-B"@,
        "pattern"@ != "-C"@,
        "pattern"@ != "output_mode"@,
        "pattern"@ != "head_limit"@,
        "pattern"@ != "glob"@,
        "pattern"@ != "type"@,
        "pattern"@ != "multiline"@,
        "pattern"@ != "path"@,
{
    reveal_strlit("pattern");
    reveal_strlit("-i");
    reveal_strlit("-n");
    reveal_strlit("-A");
    reveal_strlit("-B");
    reveal_strlit("-C");
    reveal_strlit("output_mode");
    reveal_strlit("head_limit");
    reveal_strlit("glob");
    reveal_strlit("type");
    reveal_strlit("multiline");
    reveal_strlit("path");
    assert("pattern"@.len() == 7 && "-i"@.len() == 2 && "-n"@.len() == 2 && "-A"@.len() == 2
        && "-B"@.len() == 2 && "-C"@.len() == 2 && "output_mode"@.len() == 11 && "head_limit"@.len()
        == 10 && "glob"@.len() == 4 && "type"@.len() == 4 && "multiline"@.len() == 9
        && "path"@.len() == 4);
}

/// An object of one member holds no other.
proof fn only_member(members: Seq<(Seq<char>, JsonView)>, key: Seq<char>)
    requires
        members.len() == 1,
        members[0].0 != key,
    ensures
        JsonView::Object(members).get(key) is None,
{
    reveal_with_fuel(crate::json::lookup, 2);
}

/// An unknown tool is shown by its name; a tool without a name is unknown.
pub proof fn other_tools_are_shown_by_name(name: Seq<char>, input: JsonView, cwd: Option<Seq<char>>)
    requires
        !seq![
            "Agent"@,
            "Task"@,
            "Bash"@,
            "Read"@,
            "Write"@,
            "Edit"@,
            "Glob"@,
            "Grep"@,
            "WebFetch"@,
            "WebSearch"@,
            "TodoWrite"@,
            "ReportFindings"@,
            "TaskCreate"@,
            "TaskUpdate"@,
            "TaskList"@,
            "TaskGet"@,
            "ExitPlanMode"@,
        ].contains(name),
    ensures
        ({
            let shown = tool_info::tool_shown(name, input, cwd);
            &&& shown.kind == "other"@
            &&& shown.locations is None
            &&& shown.title == if name.len() == 0 {
                "Unknown Tool"@
            } else {
                name
            }
        }),
{
    let all = seq![
        "Agent"@,
        "Task"@,
        "Bash"@,
        "Read"@,
        "Write"@,
        "Edit"@,
        "Glob"@,
        "Grep"@,
        "WebFetch"@,
        "WebSearch"@,
        "TodoWrite"@,
        "ReportFindings"@,
        "TaskCreate"@,
        "TaskUpdate"@,
        "TaskList"@,
        "TaskGet"@,
        "ExitPlanMode"@,
    ];
    reveal_strlit("");
    assert(name.len() == 0 ==> name =~= ""@);
    assert forall|i: int| 0 <= i < all.len() implies all[i] != name by {}
    assert(all[0] != name && all[1] != name && all[2] != name && all[3] != name && all[4] != name
        && all[5] != name && all[6] != name && all[7] != name && all[8] != name && all[9] != name
        && all[10] != name && all[11] != name && all[12] != name && all[13] != name && all[14]
        != name && all[15] != name && all[16] != name);
}

/// How DeepSeek Harness tools are shown: a command as it runs, a file by its verb and path, an
/// MCP tool by server and tool.
pub proof fn dsh_tools_are_shown(input: JsonView, s: Seq<char>, server: Seq<char>, tool: Seq<char>)
    requires
        s.len() > 0,
        !text::contains(server, "__"@),
        server.len() > 0 ==> server.last() != '_',
    ensures
        input.at("command"@) == JsonView::Str(s) ==> ({
            let shown = dsh_tool_info::dsh_shown("bash"@, input, None);
            shown.title == s && shown.kind == "execute"@
        }),
        input.at("path"@) == JsonView::Str(s) ==> ({
            let read = dsh_tool_info::dsh_shown("read"@, input, None);
            let edit = dsh_tool_info::dsh_shown("edit"@, input, None);
            let place = JsonView::Array(seq![JsonView::Object(seq![("path"@, JsonView::Str(s))])]);
            &&& read.title == "Read "@ + s && read.kind == "read"@ && read.locations == Some(place)
            &&& edit.title == "Edit "@ + s && edit.kind == "edit"@ && edit.locations == Some(place)
        }),
        dsh_tool_info::name_title("mcp__"@ + server + "__"@ + tool) == server + ": "@ + tool,
{
    reveal_strlit("bash");
    reveal_strlit("pwsh");
    reveal_strlit("bash_persistent");
    reveal_strlit("pwsh_persistent");
    reveal_strlit("read");
    reveal_strlit("edit");
    assert("bash"@.len() == 4 && "pwsh"@.len() == 4 && "bash_persistent"@.len() == 15
        && "pwsh_persistent"@.len() == 15 && "read"@.len() == 4 && "edit"@.len() == 4);
    assert("bash"@[0] == 'b' && "pwsh"@[0] == 'p' && "read"@[0] == 'r' && "edit"@[0] == 'e');
    let object = JsonView::empty_object().with("path"@, JsonView::Str(s));
    assert(object->Object_0 =~= seq![("path"@, JsonView::Str(s))]);
    let rest = server + "__"@ + tool;
    let name = "mcp__"@ + server + "__"@ + tool;
    assert(name =~= "mcp__"@ + rest);
    crate::text_laws::ends_come_off(rest, "mcp__"@);
    reveal_strlit("__");
    let mark = "__"@;
    let n = server.len() as int;
    text::find_is_first(rest, mark, 0);
    assert(rest.subrange(n, n + 2) =~= mark);
    assert(text::stands_at(rest, mark, n));
    let i = text::find(rest, mark, 0)->0;
    if i < n {
        assert(rest.subrange(i, i + 2)[0] == rest[i]);
        assert(rest.subrange(i, i + 2)[1] == rest[i + 1]);
        if i + 1 < n {
            assert(server.subrange(i, i + 2) =~= mark);
            assert(text::stands_at(server, mark, i));
        } else {
            assert(server.last() == rest[i]);
        }
    }
    assert(rest.take(n) =~= server);
    assert(rest.skip(n + 2) =~= tool);
}

/// A text that is filled.
pub open spec fn text_at(input: JsonView, key: Seq<char>) -> bool {
    input.at(key) is Str && input.at(key)->Str_0.len() > 0
}

/// A file is shown by its path relative to the working directory where it lies within it, and
/// by its whole path where it does not.
pub proof fn files_are_shown_from_the_working_directory(
    input: JsonView,
    base: Seq<char>,
    child: Seq<char>,
    path: Seq<char>,
)
    requires
        base.len() > 0,
        child.len() > 0,
        paths_laws::written_out(text::split(child, '/')),
        paths::parts(base).len() > 0,
    ensures
        input.at("file_path"@) == JsonView::Str(paths::below(base, child)) ==> tool_info::tool_shown(
            "Write"@,
            input,
            Some(base),
        ).title == "Write "@ + child && tool_info::tool_shown("Edit"@, input, Some(base)).title
            == "Edit "@ + child && (input.at("limit"@).as_u64() is None && input.at(
            "offset"@,
        ).as_u64() is None ==> tool_info::tool_shown("Read"@, input, Some(base)).title == "Read "@
            + child),
        input.at("path"@) == JsonView::Str(paths::below(base, child)) ==> dsh_tool_info::dsh_shown(
            "read"@,
            input,
            Some(base),
        ).title == "Read "@ + child && dsh_tool_info::dsh_shown("edit"@, input, Some(base)).title
            == "Edit "@ + child,
        input.at("file_path"@) == JsonView::Str(path) && path.len() > 0 && paths::relative(
            path,
            base,
        ) is None ==> tool_info::tool_shown("Write"@, input, Some(base)).title == "Write "@ + path,
{
    tools_are_apart();
    dsh_tools_are_apart();
    paths_laws::children_lie_within(base, child);
    let title = tool_info::tool_shown("Read"@, input, Some(base)).title;
    assert("Read "@ + child + Seq::empty() =~= "Read "@ + child);
}

/// A call that does not say what it works on is shown by what it does.
pub proof fn bare_calls_are_shown(input: JsonView, cwd: Option<Seq<char>>)
    ensures
        !text_at(input, "command"@) ==> tool_info::tool_shown("Bash"@, input, cwd).title
            == "Terminal"@,
        !text_at(input, "description"@) ==> tool_info::tool_shown("Task"@, input, cwd).title
            == "Task"@,
        !text_at(input, "file_path"@) ==> tool_info::tool_shown("Write"@, input, cwd).title
            == "Preparing file…"@ && tool_info::tool_shown("Edit"@, input, cwd).title == "Edit"@,
        !text_at(input, "path"@) && !text_at(input, "pattern"@) ==> tool_info::tool_shown(
            "Glob"@,
            input,
            cwd,
        ).title == "Find"@,
        !text_at(input, "url"@) ==> tool_info::tool_shown("WebFetch"@, input, cwd).title == "Fetch"@,
        !text_at(input, "query"@) ==> tool_info::tool_shown("WebSearch"@, input, cwd).title
            == "Web search"@,
        !(input.at("todos"@) is Array) ==> tool_info::tool_shown("TodoWrite"@, input, cwd).title
            == "Update TODOs"@,
        !text_at(input, "subject"@) ==> tool_info::tool_shown("TaskCreate"@, input, cwd).title
            == "Create task"@ && tool_info::tool_shown("TaskUpdate"@, input, cwd).title
            == "Update task"@,
{
    tools_are_apart();
}

/// What is fetched, searched for or found on the web and in the files is shown.
pub proof fn fetches_are_shown(input: JsonView, cwd: Option<Seq<char>>, s: Seq<char>, t: Seq<char>)
    requires
        s.len() > 0,
        t.len() > 0,
    ensures
        input.at("url"@) == JsonView::Str(s) ==> tool_info::tool_shown("WebFetch"@, input, cwd) == (
        ToolInfoView { title: "Fetch "@ + s, kind: "fetch"@, locations: None }),
        input.at("query"@) == JsonView::Str(s) ==> tool_info::tool_shown("WebSearch"@, input, cwd)
            == (ToolInfoView {
            title: "Search \""@ + s + "\""@,
            kind: "fetch"@,
            locations: None,
        }),
        input.at("path"@) == JsonView::Str(s) && input.at("pattern"@) == JsonView::Str(t)
            ==> tool_info::tool_shown("Glob"@, input, cwd) == (ToolInfoView {
            title: "Find"@ + " `"@ + s + "`"@ + " `"@ + t + "`"@,
            kind: "search"@,
            locations: Some(
                JsonView::Array(seq![JsonView::Object(seq![("path"@, JsonView::Str(s))])]),
            ),
        }),
{
    tools_are_apart();
    let object = JsonView::empty_object().with("path"@, JsonView::Str(s));
    assert(object->Object_0 =~= seq![("path"@, JsonView::Str(s))]);
    let a = "Find"@ + " `"@ + s + "`"@;
    assert(a + " `"@ + t + "`"@ =~= "Find"@ + " `"@ + s + "`"@ + " `"@ + t + "`"@);
}

/// What is planned and reported is shown: the list of what is to be done, how many findings
/// there are, and the task by its subject.
pub proof fn plans_are_shown(
    input: JsonView,
    cwd: Option<Seq<char>>,
    items: Seq<JsonView>,
    s: Seq<char>,
)
    requires
        s.len() > 0,
    ensures
        input.at("todos"@) == JsonView::Array(items) ==> tool_info::tool_shown(
            "TodoWrite"@,
            input,
            cwd,
        ) == (ToolInfoView {
            title: "Update TODOs: "@ + text::join(
                Seq::new(
                    items.len(),
                    |i: int|
                        if items[i].at("content"@) is Str {
                            items[i].at("content"@)->Str_0
                        } else {
                            Seq::empty()
                        },
                ),
                ", "@,
            ),
            kind: "think"@,
            locations: None,
        }),
        input.at("findings"@) == JsonView::Array(items) ==> tool_info::tool_shown(
            "ReportFindings"@,
            input,
            cwd,
        ).title == (if items.len() == 0 {
            "Report findings: none found"@
        } else if items.len() == 1 {
            "Report 1 finding"@
        } else {
            "Report "@ + text::dec(items.len()) + " findings"@
        }),
        input.at("subject"@) == JsonView::Str(s) ==> tool_info::tool_shown(
            "TaskCreate"@,
            input,
            cwd,
        ).title == "Create task: "@ + s && tool_info::tool_shown("TaskUpdate"@, input, cwd).title
            == "Update task: "@ + s,
        tool_info::tool_shown("TaskList"@, input, cwd) == (ToolInfoView {
            title: "List tasks"@,
            kind: "think"@,
            locations: None,
        }),
        tool_info::tool_shown("TaskGet"@, input, cwd) == (ToolInfoView {
            title: "Get task"@,
            kind: "think"@,
            locations: None,
        }),
        tool_info::tool_shown("ExitPlanMode"@, input, cwd) == (ToolInfoView {
            title: "Approve Plan"@,
            kind: "switch_mode"@,
            locations: None,
        }),
        tool_info::tool_shown("ReportFindings"@, input, cwd).kind == "think"@,
        tool_info::tool_shown("TaskCreate"@, input, cwd).kind == "think"@,
        tool_info::tool_shown("TaskUpdate"@, input, cwd).kind == "think"@,
{
    tools_are_apart();
    let told = Seq::new(
        items.len(),
        |i: int|
            if items[i].at("content"@) is Str {
                items[i].at("content"@)->Str_0
            } else {
                Seq::<char>::empty()
            },
    );
    assert(tool_info::todo_texts(items) =~= told);
}

/// How the other DeepSeek Harness tools are shown: a search by what it looks for, a fetch by
/// its address, and the rest by what they do.
pub proof fn other_dsh_tools_are_shown(input: JsonView, cwd: Option<Seq<char>>, s: Seq<char>)
    requires
        s.len() > 0,
    ensures
        input.at("pattern"@) == JsonView::Str(s) ==> dsh_tool_info::dsh_shown("grep"@, input, cwd)
            == (ToolInfoView { title: s, kind: "search"@, locations: None }),
        !text_at(input, "pattern"@) && input.at("query"@) == JsonView::Str(s)
            ==> dsh_tool_info::dsh_shown("grep"@, input, cwd).title == s,
        !text_at(input, "pattern"@) && !text_at(input, "query"@) ==> dsh_tool_info::dsh_shown(
            "grep"@,
            input,
            cwd,
        ).title == "Search"@,
        dsh_tool_info::dsh_shown("glob"@, input, cwd) == dsh_tool_info::dsh_shown(
            "grep"@,
            input,
            cwd,
        ),
        dsh_tool_info::dsh_shown("fs_search"@, input, cwd) == dsh_tool_info::dsh_shown(
            "grep"@,
            input,
            cwd,
        ),
        input.at("url"@) == JsonView::Str(s) ==> dsh_tool_info::dsh_shown("web_fetch"@, input, cwd)
            == (ToolInfoView { title: s, kind: "fetch"@, locations: None }),
        dsh_tool_info::dsh_shown("fetch"@, input, cwd) == dsh_tool_info::dsh_shown(
            "web_fetch"@,
            input,
            cwd,
        ),
        input.at("query"@) == JsonView::Str(s) ==> dsh_tool_info::dsh_shown("web_search"@, input, cwd)
            == (ToolInfoView { title: s, kind: "fetch"@, locations: None }),
        dsh_tool_info::dsh_shown("todo"@, input, cwd) == (ToolInfoView {
            title: "Update todos"@,
            kind: "think"@,
            locations: None,
        }),
        dsh_tool_info::dsh_shown("todo_write"@, input, cwd) == dsh_tool_info::dsh_shown(
            "todo"@,
            input,
            cwd,
        ),
        input.at("description"@) == JsonView::Str(s) ==> dsh_tool_info::dsh_shown(
            "subagent"@,
            input,
            cwd,
        ) == (ToolInfoView { title: s, kind: "think"@, locations: None }),
        dsh_tool_info::dsh_shown("delegate"@, input, cwd) == dsh_tool_info::dsh_shown(
            "subagent"@,
            input,
            cwd,
        ),
        input.at("query"@) == JsonView::Str(s) ==> dsh_tool_info::dsh_shown(
            "search_tools"@,
            input,
            cwd,
        ) == (ToolInfoView { title: "Search tools: "@ + s, kind: "think"@, locations: None }),
        dsh_tool_info::dsh_shown("pwsh"@, input, cwd) == dsh_tool_info::dsh_shown(
            "bash"@,
            input,
            cwd,
        ),
        dsh_tool_info::dsh_shown("bash_persistent"@, input, cwd) == dsh_tool_info::dsh_shown(
            "bash"@,
            input,
            cwd,
        ),
        dsh_tool_info::dsh_shown("pwsh_persistent"@, input, cwd) == dsh_tool_info::dsh_shown(
            "bash"@,
            input,
            cwd,
        ),
        !text_at(input, "command"@) ==> dsh_tool_info::dsh_shown("bash"@, input, cwd).title
            == "Terminal"@,
        dsh_tool_info::dsh_shown("write"@, input, cwd) == dsh_tool_info::dsh_shown(
            "edit"@,
            input,
            cwd,
        ),
        dsh_tool_info::dsh_shown("str_replace_editor"@, input, cwd) == dsh_tool_info::dsh_shown(
            "edit"@,
            input,
            cwd,
        ),
        dsh_tool_info::dsh_shown("create"@, input, cwd) == dsh_tool_info::dsh_shown(
            "edit"@,
            input,
            cwd,
        ),
        !text_at(input, "path"@) && input.at("file_path"@) == JsonView::Str(s)
            ==> dsh_tool_info::dsh_shown("read"@, input, None).title == "Read "@ + s,
        !text_at(input, "path"@) && !text_at(input, "file_path"@) && input.at("filePath"@)
            == JsonView::Str(s) ==> dsh_tool_info::dsh_shown("read"@, input, None).title == "Read "@
            + s,
{
    dsh_tools_are_apart();
}

/// What a value of a search is written as.
pub open spec fn spelled(v: JsonView) -> Seq<char> {
    if v is Str {
        v->Str_0
    } else {
        json::written(v)
    }
}

/// A value that counts as set: a flag that is on, a number that is not nought, a text that is
/// not empty, or a list or an object.
pub open spec fn counts_as_set(v: JsonView) -> bool {
    ||| v == JsonView::Bool(true)
    ||| v is Str && v->Str_0.len() > 0
    ||| v is Array
    ||| v is Object
    ||| v is Number && v->Number_0.unsigned != Some(0u64) && v->Number_0.text != "0.0"@
        && v->Number_0.text != "-0.0"@
}

/// A piece of a command line, where it is there.
pub open spec fn piece(there: bool, s: Seq<char>) -> Seq<char> {
    if there {
        s
    } else {
        Seq::empty()
    }
}

/// A search of the files is shown as the command line that it stands for: its flags in their
/// order, the pattern in quotes, and the path.
pub proof fn searches_are_shown_with_their_flags(input: JsonView, cwd: Option<Seq<char>>)
    ensures
        tool_info::tool_shown("Grep"@, input, cwd).title == "grep"@ + piece(
            counts_as_set(input.at("-i"@)),
            " -i"@,
        ) + piece(counts_as_set(input.at("-n"@)), " -n"@) + piece(
            input.at("-A"@) != JsonView::Null,
            " -A "@ + spelled(input.at("-A"@)),
        ) + piece(
            input.at("-B"@) != JsonView::Null,
            " -B "@ + spelled(input.at("-B"@)),
        ) + piece(
            input.at("-C"@) != JsonView::Null,
            " -C "@ + spelled(input.at("-C"@)),
        ) + piece(
            input.at("output_mode"@) == JsonView::Str("files_with_matches"@),
            " -l"@,
        ) + piece(input.at("output_mode"@) == JsonView::Str("count"@), " -c"@) + piece(
            input.at("head_limit"@) != JsonView::Null,
            " | head -"@ + spelled(input.at("head_limit"@)),
        ) + piece(
            counts_as_set(input.at("glob"@)),
            " --include=\""@ + spelled(input.at("glob"@)) + "\""@,
        ) + piece(
            counts_as_set(input.at("type"@)),
            " --type="@ + spelled(input.at("type"@)),
        ) + piece(counts_as_set(input.at("multiline"@)), " -P"@) + piece(
            counts_as_set(input.at("pattern"@)),
            " \""@ + spelled(input.at("pattern"@)) + "\""@,
        ) + piece(counts_as_set(input.at("path"@)), " "@ + spelled(input.at("path"@))),
{
    tools_are_apart();
    reveal_strlit("files_with_matches");
    reveal_strlit("count");
    assert("files_with_matches"@.len() == 18);
    assert("count"@.len() == 5);
    set_is_set(input, "-i"@);
    set_is_set(input, "-n"@);
    set_is_set(input, "glob"@);
    set_is_set(input, "type"@);
    set_is_set(input, "multiline"@);
    set_is_set(input, "pattern"@);
    set_is_set(input, "path"@);
    let none = Seq::<char>::empty();
    flags_add_up("grep"@, tool_info::truth(input.get("-i"@)), " -i"@);
    let a = tool_info::flagged("grep"@, tool_info::truth(input.get("-i"@)), " -i"@);
    flags_add_up(a, tool_info::truth(input.get("-n"@)), " -n"@);
    let b = tool_info::flagged(a, tool_info::truth(input.get("-n"@)), " -n"@);
    values_add_up(b, input.at("-A"@), " -A "@);
    let c = tool_info::present(b, input.at("-A"@), " -A "@);
    values_add_up(c, input.at("-B"@), " -B "@);
    let d = tool_info::present(c, input.at("-B"@), " -B "@);
    values_add_up(d, input.at("-C"@), " -C "@);
    let e = tool_info::present(d, input.at("-C"@), " -C "@);
    let f = if input.str_at("output_mode"@) == Some("files_with_matches"@) {
        e + " -l"@
    } else if input.str_at("output_mode"@) == Some("count"@) {
        e + " -c"@
    } else {
        e
    };
    assert(f == e + piece(
        input.at("output_mode"@) == JsonView::Str("files_with_matches"@),
        " -l"@,
    ) + piece(input.at("output_mode"@) == JsonView::Str("count"@), " -c"@)) by {
        assert(e + none =~= e);
        assert(e + " -l"@ + none =~= e + " -l"@);
    }
    values_add_up(f, input.at("head_limit"@), " | head -"@);
    let g = tool_info::present(f, input.at("head_limit"@), " | head -"@);
    quotes_add_up(g, input, "glob"@, " --include=\""@, "\""@);
    let h = tool_info::given(g, input.get("glob"@), " --include=\""@, "\""@);
    quotes_add_up(h, input, "type"@, " --type="@, none);
    let i = tool_info::given(h, input.get("type"@), " --type="@, none);
    assert(" --type="@ + spelled(input.at("type"@)) + none =~= " --type="@ + spelled(
        input.at("type"@),
    ));
    flags_add_up(i, tool_info::truth(input.get("multiline"@)), " -P"@);
    let j = tool_info::flagged(i, tool_info::truth(input.get("multiline"@)), " -P"@);
    quotes_add_up(j, input, "pattern"@, " \""@, "\""@);
    let k = tool_info::given(j, input.get("pattern"@), " \""@, "\""@);
    quotes_add_up(k, input, "path"@, " "@, none);
    assert(" "@ + spelled(input.at("path"@)) + none =~= " "@ + spelled(input.at("path"@)));
    assert(tool_info::tool_shown("Grep"@, input, cwd).title == tool_info::grep_text(input));
}

/// A flag is put behind a label.
proof fn flags_add_up(label: Seq<char>, on: bool, flag: Seq<char>)
    ensures
        tool_info::flagged(label, on, flag) == label + piece(on, flag),
{
    assert(label + Seq::empty() =~= label);
}

/// A value that is there is put behind a label.
proof fn values_add_up(label: Seq<char>, v: JsonView, before: Seq<char>)
    ensures
        tool_info::present(label, v, before) == label + piece(
            v != JsonView::Null,
            before + spelled(v),
        ),
{
    assert(label + Seq::empty() =~= label);
    assert(label + before + spelled(v) =~= label + (before + spelled(v)));
}

/// A value that is set is put behind a label, between its marks.
proof fn quotes_add_up(
    label: Seq<char>,
    input: JsonView,
    key: Seq<char>,
    before: Seq<char>,
    after: Seq<char>,
)
    ensures
        tool_info::given(label, input.get(key), before, after) == label + piece(
            counts_as_set(input.at(key)),
            before + spelled(input.at(key)) + after,
        ),
{
    set_is_set(input, key);
    assert(label + Seq::empty() =~= label);
    let v = input.at(key);
    assert(label + before + spelled(v) + after =~= label + (before + spelled(v) + after));
}

/// What counts as set.
proof fn set_is_set(input: JsonView, key: Seq<char>)
    ensures
        tool_info::truth(input.get(key)) == counts_as_set(input.at(key)),
        input.get(key) is Some ==> input.get(key)->0 == input.at(key),
{
}

/// The lines of a read that names no first line are told from the first; a limit of nought and
/// a first line of nought tell nothing.
pub proof fn reads_begin_at_the_first_line(limit: u64, offset: u64)
    ensures
        limit > 0 ==> tool_info::line_range(Some(limit), None) == " ("@ + text::dec(1) + " - "@
            + text::dec(limit as nat) + ")"@,
        limit > 0 ==> tool_info::line_range(Some(limit), Some(offset)) == " ("@ + text::dec(
            offset as nat,
        ) + " - "@ + text::dec((offset + limit - 1) as nat) + ")"@,
        offset > 0 ==> tool_info::line_range(Some(0), Some(offset)) == tool_info::line_range(
            None,
            Some(offset),
        ),
        tool_info::line_range(None, Some(0)).len() == 0,
        tool_info::line_range(Some(0), None).len() == 0,
{
}

} // verus!
