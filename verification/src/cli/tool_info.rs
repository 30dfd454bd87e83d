//! Title, kind and locations of tool calls.
use vstd::prelude::*;
use crate::json::{Json, JsonView, NumberView};
use crate::paths;
use crate::text;

verus! {

/// How a tool call is shown.
#[derive(Debug, PartialEq)]
pub struct ToolInfo {
    pub title: String,
    pub kind: &'static str,
    pub locations: Option<Json>,
}

/// The content of a `ToolInfo`.
#[verifier::ext_equal]
pub struct ToolInfoView {
    pub title: Seq<char>,
    pub kind: Seq<char>,
    pub locations: Option<JsonView>,
}

impl View for ToolInfo {
    type V = ToolInfoView;

    open spec fn view(&self) -> ToolInfoView {
        ToolInfoView {
            title: self.title@,
            kind: self.kind@,
            locations: self.locations.deep_view(),
        }
    }
}

impl ToolInfoView {
    /// A tool call that points at no place.
    pub open spec fn plain(title: Seq<char>, kind: Seq<char>) -> ToolInfoView {
        ToolInfoView { title, kind, locations: None }
    }
}

/// A `ToolInfo` from its fields.
pub fn info(title: &str, kind: &'static str, locations: Option<Json>) -> (r: ToolInfo)
    ensures
        r@ == (ToolInfoView { title: title@, kind: kind@, locations: locations.deep_view() }),
{
    ToolInfo { title: title.to_owned(), kind, locations }
}

/// The text, or a default where there is none.
pub open spec fn or(s: Option<Seq<char>>, default: Seq<char>) -> Seq<char> {
    match s {
        Some(t) => t,
        None => default,
    }
}

/// The prefix and the text, or a default where there is none.
pub open spec fn titled(s: Option<Seq<char>>, prefix: Seq<char>, default: Seq<char>) -> Seq<char> {
    match s {
        Some(t) => prefix + t,
        None => default,
    }
}

/// The text, or a default where there is none.
pub fn text_or(s: Option<&str>, default: &str) -> (r: String)
    ensures
        r@ == or(s.deep_view(), default@),
{
    match s {
        Some(t) => t.to_owned(),
        None => default.to_owned(),
    }
}

/// The prefix and the text, or a default where there is none.
fn title_or(s: Option<&str>, prefix: &str, default: &str) -> (r: String)
    ensures
        r@ == titled(s.deep_view(), prefix@, default@),
{
    match s {
        Some(t) => text::cat2(prefix, t),
        None => default.to_owned(),
    }
}

/// How a path is shown: relative to the working directory where it lies in it.
pub open spec fn shown_path(path: Seq<char>, cwd: Option<Seq<char>>) -> Seq<char> {
    match cwd {
        Some(base) => match paths::relative(path, base) {
            Some(rel) => rel,
            None => path,
        },
        None => path,
    }
}

/// Shows a path relative to the working directory where it lies in it.
pub fn display_path(path: &str, cwd: Option<&str>) -> (r: String)
    ensures
        r@ == shown_path(path@, cwd.deep_view()),
{
    match cwd {
        Some(base) => match paths::relative_to(path, base) {
            Some(rel) => rel,
            None => path.to_owned(),
        },
        None => path.to_owned(),
    }
}

/// The place of a whole file.
pub open spec fn file_place(path: Seq<char>) -> JsonView {
    JsonView::Array(seq![JsonView::empty_object().with("path"@, JsonView::Str(path))])
}

/// The place of a whole file, where a path is known.
pub open spec fn file_place_of(path: Option<Seq<char>>) -> Option<JsonView> {
    match path {
        Some(p) => Some(file_place(p)),
        None => None,
    }
}

/// The place of a whole file, where a path is known.
pub fn place_of(path: Option<&str>) -> (r: Option<Json>)
    ensures
        r.deep_view() == file_place_of(path.deep_view()),
{
    match path {
        Some(p) => Some(Json::single(Json::empty_object().with("path", Json::of_str(p)))),
        None => None,
    }
}

/// The lines that a `Read` call asks for, as its title tells them.
pub open spec fn line_range(limit: Option<u64>, offset: Option<u64>) -> Seq<char> {
    if limit is Some && limit->0 > 0 {
        let start: nat = match offset {
            Some(o) => o as nat,
            None => 1,
        };
        " ("@ + text::dec(start) + " - "@ + text::dec((start + limit->0 - 1) as nat) + ")"@
    } else if offset is Some && offset->0 > 0 {
        " (from line "@ + text::dec(offset->0 as nat) + ")"@
    } else {
        Seq::empty()
    }
}

/// The place that a `Read` call points at.
pub open spec fn read_place(path: Option<Seq<char>>, offset: Option<u64>) -> Option<JsonView> {
    match path {
        Some(p) => Some(
            JsonView::Array(
                seq![
                    JsonView::empty_object().with("path"@, JsonView::Str(p)).with(
                        "line"@,
                        JsonView::of_u64(
                            match offset {
                                Some(o) => o,
                                None => 1,
                            },
                        ),
                    ),
                ],
            ),
        ),
        None => None,
    }
}

/// Whether a value counts as true: null, `false`, zero and the empty text do not.
pub open spec fn truth(value: Option<JsonView>) -> bool {
    match value {
        Some(JsonView::Bool(b)) => b,
        Some(JsonView::Str(s)) => s.len() > 0,
        Some(JsonView::Number(n)) => !zero(n),
        Some(JsonView::Array(_)) => true,
        Some(JsonView::Object(_)) => true,
        Some(JsonView::Null) => false,
        None => false,
    }
}

/// Whether a number is zero: the integer, or the floating-point zero of either sign.
pub open spec fn zero(n: NumberView) -> bool {
    n.unsigned == Some(0u64) || n.text == "0.0"@ || n.text == "-0.0"@
}

/// Whether a value counts as true.
pub fn truthy(value: Option<&Json>) -> (r: bool)
    ensures
        r == truth(value.deep_view()),
{
    match value {
        Some(Json::Bool(b)) => *b,
        Some(Json::Str(s)) => !s.as_str().is_empty(),
        Some(Json::Number(n)) => {
            let zero_int = match n.unsigned {
                Some(u) => u == 0,
                None => false,
            };
            !(zero_int || text::same(n.text.as_str(), "0.0") || text::same(
                n.text.as_str(),
                "-0.0",
            ))
        },
        Some(Json::Array(_)) => true,
        Some(Json::Object(_)) => true,
        Some(Json::Null) => false,
        None => false,
    }
}

/// A value as a word of a label: a text as it is, anything else as JSON.
pub open spec fn word(value: JsonView) -> Seq<char> {
    match value {
        JsonView::Str(s) => s,
        other => crate::json::written(other),
    }
}

/// A value as a word of a label.
fn scalar(value: &Json) -> (r: String)
    ensures
        r@ == word(value@),
{
    match value {
        Json::Str(s) => s.clone(),
        other => other.write(),
    }
}

/// The label with a piece for a value, unless the value is missing or null.
pub open spec fn present(label: Seq<char>, v: JsonView, before: Seq<char>) -> Seq<char> {
    if v == JsonView::Null {
        label
    } else {
        label + before + word(v)
    }
}

/// The label with a piece for a value that counts as true.
pub open spec fn given(
    label: Seq<char>,
    v: Option<JsonView>,
    before: Seq<char>,
    after: Seq<char>,
) -> Seq<char> {
    if truth(v) {
        label + before + word(v->0) + after
    } else {
        label
    }
}

/// The label with a flag, if the flag is set.
pub open spec fn flagged(label: Seq<char>, on: bool, flag: Seq<char>) -> Seq<char> {
    if on {
        label + flag
    } else {
        label
    }
}

/// The command line that a `Grep` call stands for.
pub open spec fn grep_text(input: JsonView) -> Seq<char> {
    let a = flagged("grep"@, truth(input.get("-i"@)), " -i"@);
    let b = flagged(a, truth(input.get("-n"@)), " -n"@);
    let c = present(b, input.at("-A"@), " -A "@);
    let d = present(c, input.at("-B"@), " -B "@);
    let e = present(d, input.at("-C"@), " -C "@);
    let f = if input.str_at("output_mode"@) == Some("files_with_matches"@) {
        e + " -l"@
    } else if input.str_at("output_mode"@) == Some("count"@) {
        e + " -c"@
    } else {
        e
    };
    let g = present(f, input.at("head_limit"@), " | head -"@);
    let h = given(g, input.get("glob"@), " --include=\""@, "\""@);
    let i = given(h, input.get("type"@), " --type="@, Seq::empty());
    let j = flagged(i, truth(input.get("multiline"@)), " -P"@);
    let k = given(j, input.get("pattern"@), " \""@, "\""@);
    given(k, input.get("path"@), " "@, Seq::empty())
}

/// Appends a piece for a value, unless the value is missing or null.
fn push_present(label: &mut String, v: &Json, before: &str)
    ensures
        final(label)@ == present(old(label)@, v@, before@),
{
    if !v.is_null() {
        label.push_str(before);
        label.push_str(scalar(v).as_str());
    }
}

/// Appends a piece for a value that counts as true.
fn push_given(label: &mut String, v: Option<&Json>, before: &str, after: &str)
    ensures
        final(label)@ == given(old(label)@, v.deep_view(), before@, after@),
{
    if truthy(v) {
        if let Some(value) = v {
            label.push_str(before);
            label.push_str(scalar(value).as_str());
            label.push_str(after);
        }
    }
}

/// Appends a flag, if it is set.
fn push_flag(label: &mut String, on: bool, flag: &str)
    ensures
        final(label)@ == flagged(old(label)@, on, flag@),
{
    if on {
        label.push_str(flag);
    }
}

/// The command line that a `Grep` call stands for.
pub fn grep_label(input: &Json) -> (r: String)
    ensures
        r@ == grep_text(input@),
{
    let mut label = "grep".to_owned();
    proof {
        reveal_strlit("");
        assert(""@ =~= Seq::<char>::empty());
    }
    push_flag(&mut label, truthy(input.get("-i")), " -i");
    push_flag(&mut label, truthy(input.get("-n")), " -n");
    push_present(&mut label, input.at("-A"), " -A ");
    push_present(&mut label, input.at("-B"), " -B ");
    push_present(&mut label, input.at("-C"), " -C ");
    if input.is("output_mode", "files_with_matches") {
        label.push_str(" -l");
    } else if input.is("output_mode", "count") {
        label.push_str(" -c");
    }
    push_present(&mut label, input.at("head_limit"), " | head -");
    push_given(&mut label, input.get("glob"), " --include=\"", "\"");
    push_given(&mut label, input.get("type"), " --type=", "");
    push_flag(&mut label, truthy(input.get("multiline")), " -P");
    push_given(&mut label, input.get("pattern"), " \"", "\"");
    push_given(&mut label, input.get("path"), " ", "");
    label
}

/// The contents of the listed TODOs, one after the other.
pub open spec fn todo_texts(todos: Seq<JsonView>) -> Seq<Seq<char>> {
    todos.map_values(|t: JsonView| or(t.str_at("content"@), Seq::empty()))
}

/// The label of a `Glob` call.
pub open spec fn glob_text(path: Option<Seq<char>>, pattern: Option<Seq<char>>) -> Seq<char> {
    let a = match path {
        Some(p) => "Find"@ + " `"@ + p + "`"@,
        None => "Find"@,
    };
    match pattern {
        Some(p) => a + " `"@ + p + "`"@,
        None => a,
    }
}

/// The title of a report of `n` findings.
pub open spec fn findings_text(n: nat) -> Seq<char> {
    if n == 0 {
        "Report findings: none found"@
    } else if n == 1 {
        "Report 1 finding"@
    } else {
        "Report "@ + text::dec(n) + " findings"@
    }
}

/// How a call of a tool is shown.
pub open spec fn tool_shown(name: Seq<char>, input: JsonView, cwd: Option<Seq<char>>) -> ToolInfoView {
    let path = input.filled("file_path"@);
    if name == "Agent"@ || name == "Task"@ {
        ToolInfoView::plain(or(input.filled("description"@), "Task"@), "think"@)
    } else if name == "Bash"@ {
        ToolInfoView::plain(or(input.filled("command"@), "Terminal"@), "execute"@)
    } else if name == "Read"@ {
        let display = match path {
            Some(p) => shown_path(p, cwd),
            None => "File"@,
        };
        let offset = input.at("offset"@).as_u64();
        ToolInfoView {
            title: "Read "@ + display + line_range(input.at("limit"@).as_u64(), offset),
            kind: "read"@,
            locations: read_place(path, offset),
        }
    } else if name == "Write"@ {
        ToolInfoView {
            title: match path {
                Some(p) => "Write "@ + shown_path(p, cwd),
                None => "Preparing file…"@,
            },
            kind: "edit"@,
            locations: file_place_of(path),
        }
    } else if name == "Edit"@ {
        ToolInfoView {
            title: match path {
                Some(p) => "Edit "@ + shown_path(p, cwd),
                None => "Edit"@,
            },
            kind: "edit"@,
            locations: file_place_of(path),
        }
    } else if name == "Glob"@ {
        ToolInfoView {
            title: glob_text(input.filled("path"@), input.filled("pattern"@)),
            kind: "search"@,
            locations: file_place_of(input.filled("path"@)),
        }
    } else if name == "Grep"@ {
        ToolInfoView::plain(grep_text(input), "search"@)
    } else if name == "WebFetch"@ {
        ToolInfoView::plain(titled(input.filled("url"@), "Fetch "@, "Fetch"@), "fetch"@)
    } else if name == "WebSearch"@ {
        ToolInfoView::plain(
            match input.filled("query"@) {
                Some(q) => "Search \""@ + q + "\""@,
                None => "Web search"@,
            },
            "fetch"@,
        )
    } else if name == "TodoWrite"@ {
        ToolInfoView::plain(
            match input.at("todos"@).as_array() {
                Some(todos) => "Update TODOs: "@ + text::join(todo_texts(todos), ", "@),
                None => "Update TODOs"@,
            },
            "think"@,
        )
    } else if name == "ReportFindings"@ {
        ToolInfoView::plain(
            findings_text(
                match input.at("findings"@).as_array() {
                    Some(a) => a.len(),
                    None => 0,
                },
            ),
            "think"@,
        )
    } else if name == "TaskCreate"@ {
        ToolInfoView::plain(
            titled(input.filled("subject"@), "Create task: "@, "Create task"@),
            "think"@,
        )
    } else if name == "TaskUpdate"@ {
        ToolInfoView::plain(
            titled(input.filled("subject"@), "Update task: "@, "Update task"@),
            "think"@,
        )
    } else if name == "TaskList"@ {
        ToolInfoView::plain("List tasks"@, "think"@)
    } else if name == "TaskGet"@ {
        ToolInfoView::plain("Get task"@, "think"@)
    } else if name == "ExitPlanMode"@ {
        ToolInfoView::plain("Approve Plan"@, "switch_mode"@)
    } else if name == ""@ {
        ToolInfoView::plain("Unknown Tool"@, "other"@)
    } else {
        ToolInfoView::plain(name, "other"@)
    }
}

/// The lines that a `Read` call asks for.
fn range_text(limit: Option<u64>, offset: Option<u64>) -> (r: String)
    ensures
        r@ == line_range(limit, offset),
{
    if let Some(n) = limit {
        if n > 0 {
            let start: u64 = match offset {
                Some(o) => o,
                None => 1,
            };
            let end: u128 = start as u128 + n as u128 - 1;
            return text::cat5(
                " (",
                text::dec_u64(start).as_str(),
                " - ",
                text::dec_u128(end).as_str(),
                ")",
            );
        }
    }
    if let Some(o) = offset {
        if o > 0 {
            return text::cat3(" (from line ", text::dec_u64(o).as_str(), ")");
        }
    }
    String::new()
}

/// The place that a `Read` call points at.
fn read_place_of(path: Option<&str>, offset: Option<u64>) -> (r: Option<Json>)
    ensures
        r.deep_view() == read_place(path.deep_view(), offset),
{
    match path {
        Some(p) => {
            let line: u64 = match offset {
                Some(o) => o,
                None => 1,
            };
            Some(
                Json::single(
                    Json::empty_object().with("path", Json::of_str(p)).with(
                        "line",
                        Json::of_u64(line),
                    ),
                ),
            )
        },
        None => None,
    }
}

/// The title of a TODO update.
fn todo_title(todos: &Vec<Json>) -> (r: String)
    ensures
        r@ == "Update TODOs: "@ + text::join(todo_texts(todos.deep_view()), ", "@),
{
    let mut texts: Vec<String> = Vec::new();
    let ghost all = todo_texts(todos.deep_view());
    proof {
        reveal_strlit("");
        assert(""@ =~= Seq::<char>::empty());
    }
    for i in 0..todos.len()
        invariant
            all == todo_texts(todos.deep_view()),
            all.len() == todos@.len(),
            ""@ == Seq::<char>::empty(),
            texts.deep_view() == all.take(i as int),
    {
        let content = text_or(todos[i].str_at("content"), "");
        let ghost before = texts.deep_view();
        assert(content@ == all[i as int]);
        texts.push(content);
        assert(texts.deep_view() =~= before.push(all[i as int]));
        assert(texts.deep_view() =~= all.take(i + 1));
    }
    assert(all.take(all.len() as int) =~= all);
    text::cat2("Update TODOs: ", text::joined(&texts, ", ").as_str())
}

/// Title, kind and locations of a call of a tool.
#[verifier::rlimit(40)]
pub fn tool_info(name: &str, input: &Json, cwd: Option<&str>) -> (r: ToolInfo)
    ensures
        r@ == tool_shown(name@, input@, cwd.deep_view()),
{
    let path = input.filled("file_path");
    if text::same(name, "Agent") || text::same(name, "Task") {
        info(text_or(input.filled("description"), "Task").as_str(), "think", None)
    } else if text::same(name, "Bash") {
        info(text_or(input.filled("command"), "Terminal").as_str(), "execute", None)
    } else if text::same(name, "Read") {
        let display = match path {
            Some(p) => display_path(p, cwd),
            None => "File".to_owned(),
        };
        let offset = input.at("offset").as_u64();
        let range = range_text(input.at("limit").as_u64(), offset);
        info(
            text::cat3("Read ", display.as_str(), range.as_str()).as_str(),
            "read",
            read_place_of(path, offset),
        )
    } else if text::same(name, "Write") {
        let title = match path {
            Some(p) => text::cat2("Write ", display_path(p, cwd).as_str()),
            None => "Preparing file…".to_owned(),
        };
        info(title.as_str(), "edit", place_of(path))
    } else if text::same(name, "Edit") {
        let title = match path {
            Some(p) => text::cat2("Edit ", display_path(p, cwd).as_str()),
            None => "Edit".to_owned(),
        };
        info(title.as_str(), "edit", place_of(path))
    } else if text::same(name, "Glob") {
        let mut label = "Find".to_owned();
        if let Some(p) = input.filled("path") {
            label.push_str(" `");
            label.push_str(p);
            label.push_str("`");
        }
        if let Some(p) = input.filled("pattern") {
            label.push_str(" `");
            label.push_str(p);
            label.push_str("`");
        }
        info(label.as_str(), "search", place_of(input.filled("path")))
    } else if text::same(name, "Grep") {
        info(grep_label(input).as_str(), "search", None)
    } else if text::same(name, "WebFetch") {
        info(title_or(input.filled("url"), "Fetch ", "Fetch").as_str(), "fetch", None)
    } else if text::same(name, "WebSearch") {
        let title = match input.filled("query") {
            Some(q) => text::cat3("Search \"", q, "\""),
            None => "Web search".to_owned(),
        };
        info(title.as_str(), "fetch", None)
    } else if text::same(name, "TodoWrite") {
        let title = match input.at("todos").as_array() {
            Some(todos) => todo_title(todos),
            None => "Update TODOs".to_owned(),
        };
        info(title.as_str(), "think", None)
    } else if text::same(name, "ReportFindings") {
        let count: usize = match input.at("findings").as_array() {
            Some(a) => a.len(),
            None => 0,
        };
        let title = if count == 0 {
            "Report findings: none found".to_owned()
        } else if count == 1 {
            "Report 1 finding".to_owned()
        } else {
            text::cat3("Report ", text::dec_u64(count as u64).as_str(), " findings")
        };
        info(title.as_str(), "think", None)
    } else if text::same(name, "TaskCreate") {
        info(
            title_or(input.filled("subject"), "Create task: ", "Create task").as_str(),
            "think",
            None,
        )
    } else if text::same(name, "TaskUpdate") {
        info(
            title_or(input.filled("subject"), "Update task: ", "Update task").as_str(),
            "think",
            None,
        )
    } else if text::same(name, "TaskList") {
        info("List tasks", "think", None)
    } else if text::same(name, "TaskGet") {
        info("Get task", "think", None)
    } else if text::same(name, "ExitPlanMode") {
        info("Approve Plan", "switch_mode", None)
    } else if text::same(name, "") {
        info("Unknown Tool", "other", None)
    } else {
        info(name, "other", None)
    }
}

} // verus!
