//! What is shown of the items of a Codex turn, and how the turn ends.
use vstd::prelude::*;
use crate::cli::codex_laws;
use crate::cli::codex_stream;
use crate::cli::codex_stream::CodexView;
use crate::cli::outcome::OutcomeView;
use crate::events::EventView;
use crate::json;
use crate::json::JsonView;
use crate::paths;
use crate::paths_laws;
use crate::text;
use crate::text_laws;

verus! {

/// The items that are tools.
pub proof fn seven_kinds_are_tools(kind: Seq<char>)
    ensures
        codex_stream::tool_item(kind) <==> kind == "commandExecution"@ || kind == "fileChange"@
            || kind == "mcpToolCall"@ || kind == "webSearch"@ || kind == "dynamicToolCall"@ || kind
            == "collabAgentToolCall"@ || kind == "imageGeneration"@,
{
}

/// The kinds of items differ in length or in a letter.
proof fn kinds_are_apart()
    ensures
        "commandExecution"@.len() == 16,
        "fileChange"@.len() == 10,
        "mcpToolCall"@.len() == 11,
        "webSearch"@.len() == 9 && "webSearch"@[0] == 'w',
        "dynamicToolCall"@.len() == 15 && "dynamicToolCall"@[0] == 'd',
        "collabAgentToolCall"@.len() == 19,
        "imageGeneration"@.len() == 15 && "imageGeneration"@[0] == 'i',
        "agentMessage"@.len() == 12,
        "reasoning"@.len() == 9 && "reasoning"@[0] == 'r',
        ""@.len() == 0,
{
    reveal_strlit("commandExecution");
    reveal_strlit("fileChange");
    reveal_strlit("mcpToolCall");
    reveal_strlit("webSearch");
    reveal_strlit("dynamicToolCall");
    reveal_strlit("collabAgentToolCall");
    reveal_strlit("imageGeneration");
    reveal_strlit("agentMessage");
    reveal_strlit("reasoning");
    reveal_strlit("");
}

/// What went wrong is said by its message; where the message holds an answer of the service,
/// by the message within it.
pub proof fn errors_say_why(error: JsonView, s: Seq<char>, inner: Seq<char>, v: JsonView)
    requires
        s.len() > 0,
    ensures
        error.at("message"@) == JsonView::Str(s) && json::reading(s) is Err
            ==> codex_stream::message_of(error) == Some(s),
        error.at("message"@) == JsonView::Str(s) && json::reading(s) == Ok::<JsonView, Seq<char>>(v)
            && v.at("error"@).at("message"@) == JsonView::Str(inner) ==> codex_stream::message_of(
            error,
        ) == Some(inner),
        error.at("message"@) == JsonView::Str(s) && json::reading(s) == Ok::<JsonView, Seq<char>>(v)
            && !(v.at("error"@).at("message"@) is Str) ==> codex_stream::message_of(error) == Some(
            s,
        ),
        error == JsonView::Null ==> codex_stream::message_of(error) is None,
{
}

/// The result of an MCP call is every text that it holds, one to a line; without texts it is
/// shown as it came, and an error is shown in its place.
pub proof fn results_hold_every_text(item: JsonView, blocks: Seq<JsonView>, why: Seq<char>)
    requires
        item.at("type"@) == JsonView::Str("mcpToolCall"@),
    ensures
        codex_stream::message_of(item.at("error"@)) == Some(why) ==> codex_stream::output_of(item)
            == JsonView::Str(why),
        codex_stream::message_of(item.at("error"@)) is None && item.at("result"@).at("content"@)
            == JsonView::Array(blocks) && json::texts_at(blocks, "text"@).len() > 0
            ==> codex_stream::output_of(item) == JsonView::Str(
            text::join(json::texts_at(blocks, "text"@), seq!['\n']),
        ),
        codex_stream::message_of(item.at("error"@)) is None && item.at("result"@).at("content"@)
            == JsonView::Array(blocks) && json::texts_at(blocks, "text"@).len() == 0
            ==> codex_stream::output_of(item) == JsonView::Array(blocks),
        codex_stream::message_of(item.at("error"@)) is None && !(item.at("result"@).at(
            "content"@,
        ) is Array) ==> codex_stream::output_of(item) == item.at("result"@),
{
    kinds_are_apart();
    reveal_strlit("\n");
    assert("\n"@ =~= seq!['\n']);
}

/// The output of changed files is the diff of each, behind its path; that of a command that
/// printed nothing is empty.
pub proof fn outputs_hold_every_change(item: JsonView, changes: Seq<JsonView>)
    ensures
        item.at("type"@) == JsonView::Str("fileChange"@) && item.at("changes"@) == JsonView::Array(
            changes,
        ) ==> codex_stream::output_of(item) == JsonView::Str(
            text::join(codex_stream::diffs(changes), seq!['\n']),
        ),
        item.at("type"@) == JsonView::Str("commandExecution"@) && !(item.at("aggregatedOutput"@) is Str)
            ==> codex_stream::output_of(item) == JsonView::Str(Seq::empty()),
{
    kinds_are_apart();
    reveal_strlit("\n");
    assert("\n"@ =~= seq!['\n']);
    reveal_strlit("");
    assert(""@ =~= Seq::<char>::empty());
}

/// A command is shown by every action that it takes; without any by its command line, and by
/// the word for it where there is none.
pub proof fn commands_show_every_action(item: JsonView, actions: Seq<JsonView>)
    ensures
        item.at("commandActions"@) == JsonView::Array(actions) && json::texts_at(
            actions,
            "command"@,
        ).len() > 0 ==> codex_stream::shown_command(item) == text::join(
            json::texts_at(actions, "command"@),
            " && "@,
        ),
        !(item.at("commandActions"@) is Array) && !(item.at("command"@) is Str)
            ==> codex_stream::shown_command(item) == "Terminal"@,
        !(item.at("commandActions"@) is Array) && item.at("command"@) is Str && !text::begins(
            item.at("command"@)->Str_0,
            "/bin/bash -lc "@,
        ) && !text::begins(item.at("command"@)->Str_0, "bash -lc "@)
            ==> codex_stream::shown_command(item) == item.at("command"@)->Str_0,
{
    reveal_strlit("Terminal");
    reveal_strlit("/bin/bash -lc ");
    reveal_strlit("bash -lc ");
    assert("Terminal"@.len() == 8);
    assert("/bin/bash -lc "@.len() == 14);
    assert("bash -lc "@.len() == 9);
}

/// An edit points at every file that it changes: one is named by its path from the working
/// directory, several are counted.
pub proof fn edits_show_every_file(
    item: JsonView,
    changes: Seq<JsonView>,
    base: Seq<char>,
    child: Seq<char>,
)
    requires
        item.at("type"@) == JsonView::Str("fileChange"@),
        item.at("changes"@) == JsonView::Array(changes),
        base.len() > 0,
        child.len() > 0,
        paths_laws::written_out(text::split(child, '/')),
        paths::parts(base).len() > 0,
    ensures
        ({
            let files = json::texts_at(changes, "path"@);
            let shown = codex_stream::codex_shown(item, Some(base));
            &&& shown.kind == "edit"@
            &&& files == seq![paths::below(base, child)] ==> shown.title == "Edit "@ + child
            &&& files.len() == 1 && paths::relative(files[0], base) is None ==> shown.title
                == "Edit "@ + files[0]
            &&& files.len() == 0 ==> shown.title == "Edit files"@ && shown.locations is None
            &&& files.len() > 1 ==> shown.title == "Edit "@ + text::dec(files.len()) + " files"@
            &&& files.len() > 0 ==> shown.locations == Some(
                JsonView::Array(
                    Seq::new(
                        files.len(),
                        |i: int| JsonView::Object(seq![("path"@, JsonView::Str(files[i]))]),
                    ),
                ),
            )
        }),
{
    kinds_are_apart();
    paths_laws::children_lie_within(base, child);
    let files = json::texts_at(changes, "path"@);
    let told = Seq::new(
        files.len(),
        |i: int| JsonView::Object(seq![("path"@, JsonView::Str(files[i]))]),
    );
    assert forall|i: int| 0 <= i < files.len() implies (#[trigger] JsonView::empty_object().with(
        "path"@,
        JsonView::Str(files[i]),
    )) == JsonView::Object(seq![("path"@, JsonView::Str(files[i]))]) by {
        let o = JsonView::empty_object().with("path"@, JsonView::Str(files[i]));
        assert(o->Object_0 =~= seq![("path"@, JsonView::Str(files[i]))]);
    }
    assert(codex_stream::places(files)->Array_0 =~= told);
}

/// The input of a tool holds what it was asked: each change with its path and its kind, the
/// query of a search, and the arguments as they came.
pub proof fn inputs_hold_what_was_asked(item: JsonView, changes: Seq<JsonView>)
    ensures
        item.at("type"@) == JsonView::Str("fileChange"@) && item.at("changes"@) == JsonView::Array(
            changes,
        ) ==> codex_stream::input_of(item) == JsonView::Object(
            seq![
                (
                    "changes"@,
                    JsonView::Array(
                        Seq::new(
                            changes.len(),
                            |i: int|
                                JsonView::Object(
                                    seq![
                                        ("path"@, changes[i].at("path"@)),
                                        ("kind"@, changes[i].at("kind"@).at("type"@)),
                                    ],
                                ),
                        ),
                    ),
                ),
            ],
        ),
        item.at("type"@) == JsonView::Str("webSearch"@) ==> codex_stream::input_of(item)
            == JsonView::Object(seq![("query"@, item.at("query"@))]),
        item.at("type"@) == JsonView::Str("mcpToolCall"@) || item.at("type"@) == JsonView::Str(
            "dynamicToolCall"@,
        ) ==> codex_stream::input_of(item) == item.at("arguments"@),
        item.at("type"@) == JsonView::Str("commandExecution"@) ==> codex_stream::input_of(item)
            == JsonView::Object(
            seq![
                ("command"@, JsonView::Str(codex_stream::shown_command(item))),
                ("cwd"@, item.at("cwd"@)),
            ],
        ),
{
    kinds_are_apart();
    let told = Seq::new(
        changes.len(),
        |i: int|
            JsonView::Object(
                seq![
                    ("path"@, changes[i].at("path"@)),
                    ("kind"@, changes[i].at("kind"@).at("type"@)),
                ],
            ),
    );
    assert forall|i: int| 0 <= i < changes.len() implies #[trigger] codex_stream::change_input(
        changes[i],
    ) == told[i] by {
        assert(codex_stream::change_input(changes[i])->Object_0 =~= told[i]->Object_0);
    }
    let all = changes.map_values(|c: JsonView| codex_stream::change_input(c));
    assert(all =~= told);
    let o = JsonView::empty_object().with("changes"@, JsonView::Array(all));
    assert(o->Object_0 =~= seq![("changes"@, JsonView::Array(told))]);
    let q = JsonView::empty_object().with("query"@, item.at("query"@));
    assert(q->Object_0 =~= seq![("query"@, item.at("query"@))]);
    let c = JsonView::empty_object().with(
        "command"@,
        JsonView::Str(codex_stream::shown_command(item)),
    ).with("cwd"@, item.at("cwd"@));
    assert(c->Object_0 =~= seq![
        ("command"@, JsonView::Str(codex_stream::shown_command(item))),
        ("cwd"@, item.at("cwd"@)),
    ]);
}

/// A tool that does not say what it is is shown by what it does.
pub proof fn bare_tools_are_shown(item: JsonView, cwd: Option<Seq<char>>)
    ensures
        item.at("type"@) == JsonView::Str("mcpToolCall"@) && !(item.at("server"@) is Str) && !(item.at(
            "tool"@,
        ) is Str) ==> codex_stream::codex_shown(item, cwd).title == "mcp"@ + ": "@ + "tool"@
            && codex_stream::name_of(item) == Some("mcp__"@ + "mcp"@ + "__"@ + "tool"@),
        item.at("type"@) == JsonView::Str("webSearch"@) && !(item.at("query"@) is Str)
            ==> codex_stream::codex_shown(item, cwd).title == "Web search"@,
        item.at("type"@) == JsonView::Str("dynamicToolCall"@) && !(item.at("tool"@) is Str)
            ==> codex_stream::codex_shown(item, cwd).title == "Tool"@,
        item.at("type"@) == JsonView::Str("collabAgentToolCall"@) && !(item.at("tool"@) is Str)
            ==> codex_stream::codex_shown(item, cwd).title == "Task"@,
{
    kinds_are_apart();
}

/// What was shown while it streamed is not shown again when it is whole.
pub proof fn streamed_items_are_not_shown_again(m: CodexView, msg: JsonView, id: Seq<char>)
    requires
        codex_laws::own(m, msg),
        codex_laws::is_of(msg, "item/completed"@),
        codex_laws::item(msg).at("id"@) == JsonView::Str(id),
        codex_laws::item(msg).at("type"@) == JsonView::Str("agentMessage"@) || codex_laws::item(msg).at(
            "type"@,
        ) == JsonView::Str("reasoning"@),
        m.streamed.contains(id),
    ensures
        codex_stream::step(m, msg) == (m, OutcomeView::Events(Seq::empty())),
{
    codex_stream::methods_are_distinct();
    kinds_are_apart();
}

/// An error that is tried again is not kept, and shows nothing.
pub proof fn errors_that_are_tried_again_pass(m: CodexView, msg: JsonView)
    requires
        codex_laws::own(m, msg),
        codex_laws::is_of(msg, "error"@),
        msg.at("params"@).at("willRetry"@) == JsonView::Bool(true),
    ensures
        codex_stream::step(m, msg) == (m, OutcomeView::Events(Seq::empty())),
{
    codex_stream::methods_are_distinct();
}

/// A turn that was completed ended by itself, one that was interrupted was cancelled, and any
/// other failed: with the message that it has, or the last error, or how it stood. A failure
/// that tells of missing rights asks for them.
pub proof fn turns_end_as_they_say(m: CodexView, turn: JsonView, s: Seq<char>)
    ensures
        turn.at("status"@) == JsonView::Str("completed"@) ==> codex_stream::finish(m, turn).stop_reason
            == "end_turn"@ && codex_stream::finish(m, turn).error is None,
        turn.at("status"@) == JsonView::Str("interrupted"@) ==> codex_stream::finish(
            m,
            turn,
        ).stop_reason == "cancelled"@ && codex_stream::finish(m, turn).error is None,
        turn.at("status"@) == JsonView::Str(s) && s != "completed"@ && s != "interrupted"@ && turn.at(
            "error"@,
        ) == JsonView::Null && m.last_error is None ==> codex_stream::finish(m, turn).error is Some
            && codex_stream::finish(m, turn).error->0.message == "Codex turn ended with "@ + s,
        turn.at("status"@) != JsonView::Str("completed"@) && turn.at("status"@) != JsonView::Str(
            "interrupted"@,
        ) ==> ({
            let f = codex_stream::finish(m, turn);
            let l = text::lower(f.error->0.message);
            let rights = text::contains(l, "401"@) || text::contains(l, "403"@) || text::contains(
                l,
                "unauthorized"@,
            ) || text::contains(l, "invalid api key"@) || text::contains(l, "invalid_api_key"@);
            &&& f.error is Some
            &&& f.error->0.code == "cli_api_error"@
            &&& f.stop_reason == (if rights {
                "auth_required"@
            } else {
                "unknown"@
            })
        }),
{
    reveal_strlit("completed");
    reveal_strlit("interrupted");
    assert("completed"@.len() == 9);
    assert("interrupted"@.len() == 11);
}

/// Reasoning that comes whole is thought: every paragraph of its summary, or of its content
/// where there is no summary.
pub proof fn whole_reasoning_is_thought(
    m: CodexView,
    msg: JsonView,
    id: Seq<char>,
    parts: Seq<JsonView>,
)
    requires
        codex_laws::own(m, msg),
        codex_laws::is_of(msg, "item/completed"@),
        codex_laws::item(msg).at("id"@) == JsonView::Str(id),
        codex_laws::item(msg).at("type"@) == JsonView::Str("reasoning"@),
        !m.streamed.contains(id),
        codex_stream::nonempty(json::texts(parts)).len() > 0,
        codex_laws::item(msg).at("summary"@) == JsonView::Array(parts) || (!(codex_laws::item(msg).at(
            "summary"@,
        ) is Array) && codex_laws::item(msg).at("content"@) == JsonView::Array(parts)),
    ensures
        codex_stream::step(m, msg).1 == OutcomeView::Events(
            seq![
                EventView::Thinking {
                    text: text::join(codex_stream::nonempty(json::texts(parts)), seq!['\n', '\n']),
                    parent_tool_use_id: None,
                },
            ],
        ),
{
    codex_stream::methods_are_distinct();
    kinds_are_apart();
    reveal_strlit("\n\n");
    assert("\n\n"@ =~= seq!['\n', '\n']);
}

/// The paragraphs that say something are kept, in their order.
pub proof fn empty_paragraphs_are_left_out(parts: Seq<Seq<char>>, p: Seq<char>)
    ensures
        codex_stream::nonempty(Seq::empty()).len() == 0,
        codex_stream::nonempty(parts.push(p)) == (if p.len() > 0 {
            codex_stream::nonempty(parts).push(p)
        } else {
            codex_stream::nonempty(parts)
        }),
{
    assert(parts.push(p).drop_last() =~= parts);
}

/// What streams is remembered by its item, and nothing else is.
pub proof fn streams_are_remembered(m: CodexView, msg: JsonView, id: Seq<char>, s: Seq<char>)
    requires
        codex_laws::own(m, msg),
        codex_laws::is_of(msg, "item/agentMessage/delta"@) || codex_laws::is_of(
            msg,
            "item/reasoning/summaryTextDelta"@,
        ) || codex_laws::is_of(msg, "item/reasoning/textDelta"@),
        msg.at("params"@).at("itemId"@) == JsonView::Str(id),
        msg.at("params"@).at("delta"@) == JsonView::Str(s),
        s.len() > 0,
    ensures
        codex_stream::step(m, msg).0 == (CodexView {
            streamed: m.streamed.insert(id),
            after_text: codex_laws::is_of(msg, "item/agentMessage/delta"@),
            ..m
        }),
{
    codex_stream::methods_are_distinct();
}

/// A command that is handed to a shell without quotes is shown with the shell.
pub proof fn unquoted_commands_keep_their_shell(item: JsonView, c: Seq<char>)
    requires
        !(item.at("commandActions"@) is Array),
        c.len() == 0 || c[0] != '\'',
        item.at("command"@) == JsonView::Str("bash -lc "@ + c) || item.at("command"@)
            == JsonView::Str("/bin/bash -lc "@ + c),
    ensures
        codex_stream::shown_command(item) == item.at("command"@)->Str_0,
{
    reveal_strlit("bash -lc ");
    reveal_strlit("/bin/bash -lc ");
    reveal_strlit("'");
    let q = "'"@;
    text_laws::ends_come_off(c, "bash -lc "@);
    text_laws::ends_come_off(c, "/bin/bash -lc "@);
    if text::begins(c, q) {
        assert(c.take(1)[0] == '\'');
    }
    let s = "bash -lc "@ + c;
    if s.len() >= "/bin/bash -lc "@.len() {
        assert(s.take("/bin/bash -lc "@.len() as int)[0] == s[0]);
        assert(s[0] == 'b' && "/bin/bash -lc "@[0] == '/');
    }
}

/// The working directory itself is shown by its whole path.
pub proof fn the_working_directory_is_shown_whole(path: Seq<char>, base: Seq<char>)
    ensures
        codex_stream::shown_path(path, None) == path,
        paths::relative(path, base) == Some(Seq::<char>::empty()) ==> codex_stream::shown_path(
            path,
            Some(base),
        ) == path,
        paths::relative(path, base) is None ==> codex_stream::shown_path(path, Some(base)) == path,
        paths::relative(path, base) is Some && paths::relative(path, base)->0.len() > 0
            ==> codex_stream::shown_path(path, Some(base)) == paths::relative(path, base)->0,
{
}

} // verus!
