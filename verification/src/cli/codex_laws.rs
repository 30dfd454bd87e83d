//! What the events of a Codex turn tell of its notifications.
use vstd::prelude::*;
use crate::cli::codex_stream;
use crate::cli::codex_stream::CodexView;
use crate::cli::outcome::OutcomeView;
use crate::cli::stream_json;
use crate::events::EventView;
use crate::json;
use crate::json::JsonView;
use crate::text;
use crate::text_laws;

verus! {

/// Whether a notification is one of the turn that a mapper follows: it names that turn or
/// none, or the mapper does not know its turn.
pub open spec fn own(m: CodexView, msg: JsonView) -> bool {
    match (m.turn_id, msg.at("params"@).at("turnId"@)) {
        (Some(ours), JsonView::Str(theirs)) => ours == theirs,
        _ => true,
    }
}

/// Whether a notification is of a method.
pub open spec fn is_of(msg: JsonView, method: Seq<char>) -> bool {
    msg.at("method"@) == JsonView::Str(method)
}

/// The item that a notification is about.
pub open spec fn item(msg: JsonView) -> JsonView {
    msg.at("params"@).at("item"@)
}

/// A notification of another turn changes nothing and shows nothing.
pub proof fn other_turns_are_passed_over(m: CodexView, msg: JsonView)
    requires
        !own(m, msg),
    ensures
        codex_stream::step(m, msg) == (m, OutcomeView::Events(Seq::empty())),
{
}

/// The methods of deltas are told apart.
proof fn deltas_are_apart()
    ensures
        "item/agentMessage/delta"@ != "item/reasoning/summaryTextDelta"@,
        "item/agentMessage/delta"@ != "item/reasoning/textDelta"@,
        "item/agentMessage/delta"@ != ""@,
        "thread/tokenUsage/updated"@ != "item/agentMessage/delta"@,
        "thread/tokenUsage/updated"@ != "item/reasoning/summaryTextDelta"@,
        "thread/tokenUsage/updated"@ != "item/reasoning/textDelta"@,
        "thread/tokenUsage/updated"@ != "item/started"@,
        "thread/tokenUsage/updated"@ != "item/completed"@,
{
    reveal_strlit("item/agentMessage/delta");
    reveal_strlit("item/reasoning/summaryTextDelta");
    reveal_strlit("item/reasoning/textDelta");
    reveal_strlit("thread/tokenUsage/updated");
    reveal_strlit("item/started");
    reveal_strlit("item/completed");
    reveal_strlit("");
    assert("item/agentMessage/delta"@.len() == 23 && "item/reasoning/summaryTextDelta"@.len() == 31
        && "item/reasoning/textDelta"@.len() == 24 && "thread/tokenUsage/updated"@.len() == 25
        && "item/started"@.len() == 12 && "item/completed"@.len() == 14 && ""@.len() == 0);
}

/// Reasoning is shown as thinking: a piece of it gives exactly one event, which thinks that
/// piece.
pub proof fn reasoning_is_thinking(m: CodexView, msg: JsonView, s: Seq<char>)
    requires
        own(m, msg),
        is_of(msg, "item/reasoning/summaryTextDelta"@) || is_of(msg, "item/reasoning/textDelta"@),
        msg.at("params"@).at("delta"@) == JsonView::Str(s),
        s.len() > 0,
    ensures
        codex_stream::step(m, msg).1 == OutcomeView::Events(
            seq![EventView::Thinking { text: s, parent_tool_use_id: None }],
        ),
        !codex_stream::step(m, msg).0.after_text,
{
    deltas_are_apart();
    codex_stream::methods_are_distinct();
}

/// The answer is shown as text: a piece of it gives exactly one event, which says that
/// piece, and what follows knows that text came last.
pub proof fn answers_are_text(m: CodexView, msg: JsonView, s: Seq<char>)
    requires
        own(m, msg),
        is_of(msg, "item/agentMessage/delta"@),
        msg.at("params"@).at("delta"@) == JsonView::Str(s),
        s.len() > 0,
    ensures
        codex_stream::step(m, msg).1 == OutcomeView::Events(
            seq![EventView::ContentDelta { text: s, parent_tool_use_id: None }],
        ),
        codex_stream::step(m, msg).0.after_text,
{
    deltas_are_apart();
    codex_stream::methods_are_distinct();
}

/// The kinds of items are told apart.
proof fn kinds_are_apart()
    ensures
        "agentMessage"@ != "reasoning"@,
        !codex_stream::tool_item("agentMessage"@),
        !codex_stream::tool_item("reasoning"@),
        codex_stream::tool_item("commandExecution"@),
        codex_stream::tool_item("fileChange"@),
        codex_stream::tool_item("mcpToolCall"@),
        codex_stream::tool_item("webSearch"@),
        codex_stream::tool_item("dynamicToolCall"@),
        codex_stream::tool_item("collabAgentToolCall"@),
        codex_stream::tool_item("imageGeneration"@),
        "commandExecution"@ != "fileChange"@,
        "commandExecution"@ != "mcpToolCall"@,
        "commandExecution"@ != "webSearch"@,
        "commandExecution"@ != "dynamicToolCall"@,
        "fileChange"@ != "mcpToolCall"@,
        "fileChange"@ != "webSearch"@,
        "fileChange"@ != "dynamicToolCall"@,
        "mcpToolCall"@ != "webSearch"@,
        "mcpToolCall"@ != "dynamicToolCall"@,
        "mcpToolCall"@ != "imageGeneration"@,
        "webSearch"@ != "dynamicToolCall"@,
        "imageGeneration"@ != "commandExecution"@,
        "imageGeneration"@ != "fileChange"@,
        "imageGeneration"@ != "webSearch"@,
        "imageGeneration"@ != "dynamicToolCall"@,
        "collabAgentToolCall"@ != "commandExecution"@,
        "collabAgentToolCall"@ != "fileChange"@,
        "collabAgentToolCall"@ != "webSearch"@,
        "collabAgentToolCall"@ != "dynamicToolCall"@,
        "collabAgentToolCall"@ != "mcpToolCall"@,
        "collabAgentToolCall"@ != "imageGeneration"@,
{
    reveal_strlit("agentMessage");
    reveal_strlit("reasoning");
    reveal_strlit("commandExecution");
    reveal_strlit("fileChange");
    reveal_strlit("mcpToolCall");
    reveal_strlit("webSearch");
    reveal_strlit("dynamicToolCall");
    reveal_strlit("collabAgentToolCall");
    reveal_strlit("imageGeneration");
    assert("agentMessage"@.len() == 12 && "reasoning"@.len() == 9 && "commandExecution"@.len() == 16
        && "fileChange"@.len() == 10 && "mcpToolCall"@.len() == 11 && "webSearch"@.len() == 9
        && "dynamicToolCall"@.len() == 15 && "collabAgentToolCall"@.len() == 19
        && "imageGeneration"@.len() == 15);
    assert("reasoning"@[0] == 'r' && "webSearch"@[0] == 'w' && "dynamicToolCall"@[0] == 'd'
        && "imageGeneration"@[0] == 'i');
}

/// Only messages of the agent give text, and only its reasoning gives thoughts: whatever is
/// notified, an event that says something comes from an agent message, and one that thinks
/// from reasoning.
pub proof fn text_and_thoughts_keep_apart(m: CodexView, msg: JsonView, i: int)
    requires
        0 <= i < stream_json::events_of(codex_stream::step(m, msg).1).len(),
    ensures
        stream_json::events_of(codex_stream::step(m, msg).1)[i] is ContentDelta ==> (is_of(
            msg,
            "item/agentMessage/delta"@,
        ) || item(msg).at("type"@) == JsonView::Str("agentMessage"@)),
        stream_json::events_of(codex_stream::step(m, msg).1)[i] is Thinking ==> (is_of(
            msg,
            "item/reasoning/summaryTextDelta"@,
        ) || is_of(msg, "item/reasoning/textDelta"@) || item(msg).at("type"@) == JsonView::Str(
            "reasoning"@,
        )),
{
    deltas_are_apart();
    codex_stream::methods_are_distinct();
    kinds_are_apart();
    reveal_strlit("");
    reveal_strlit("item/reasoning/summaryTextDelta");
    reveal_strlit("item/reasoning/textDelta");
    assert("item/reasoning/summaryTextDelta"@.len() == 31 && "item/reasoning/textDelta"@.len() == 24);
    let all = stream_json::events_of(codex_stream::step(m, msg).1);
    let failed = codex_stream::abandoned(m.open_tools);
    if is_of(msg, "turn/completed"@) {
        if i < failed.len() {
            assert(all[i] == failed[i]);
        }
    }
}

/// A message that was not streamed is shown whole when it completes; so is reasoning, its
/// paragraphs apart.
pub proof fn whole_items_are_shown(m: CodexView, msg: JsonView, id: Seq<char>, s: Seq<char>)
    requires
        own(m, msg),
        is_of(msg, "item/completed"@),
        item(msg).at("id"@) == JsonView::Str(id),
        !m.streamed.contains(id),
        s.len() > 0,
    ensures
        item(msg).at("type"@) == JsonView::Str("agentMessage"@) && item(msg).at("text"@)
            == JsonView::Str(s) ==> codex_stream::step(m, msg).1 == OutcomeView::Events(
            seq![EventView::ContentDelta { text: s, parent_tool_use_id: None }],
        ),
        item(msg).at("type"@) == JsonView::Str("reasoning"@) && item(msg).at("summary"@)
            == JsonView::Array(seq![JsonView::Str(s)]) ==> codex_stream::step(m, msg).1
            == OutcomeView::Events(
            seq![EventView::Thinking { text: s, parent_tool_use_id: None }],
        ),
{
    codex_stream::methods_are_distinct();
    kinds_are_apart();
    let one = seq![JsonView::Str(s)];
    reveal_with_fuel(json::texts, 2);
    reveal_with_fuel(codex_stream::nonempty, 2);
    assert(one.drop_last() =~= Seq::empty());
    assert(json::texts(one) =~= seq![s]);
    assert(seq![s].drop_last() =~= Seq::empty());
    assert(codex_stream::nonempty(seq![s]) =~= seq![s]);
}

/// The paragraphs of reasoning: one more that is not empty follows the others after an
/// empty line, and one that is empty or no text adds nothing.
pub proof fn paragraphs_follow_one_another(parts: Seq<JsonView>, more: JsonView)
    ensures
        ({
            let before = codex_stream::paragraphs(JsonView::Array(parts));
            let now = codex_stream::paragraphs(JsonView::Array(parts.push(more)));
            match more {
                JsonView::Str(s) => if s.len() == 0 {
                    now == before
                } else {
                    now == Some(
                        match before {
                            Some(b) => b + seq!['\n', '\n'] + s,
                            None => s,
                        },
                    )
                },
                _ => now == before,
            }
        }),
        codex_stream::paragraphs(JsonView::Array(Seq::empty())) is None,
{
    reveal_strlit("\n\n");
    assert("\n\n"@ =~= seq!['\n', '\n']);
    assert(parts.push(more).drop_last() =~= parts);
    let said = json::texts(parts);
    if let JsonView::Str(s) = more {
        assert(said.push(s).drop_last() =~= said);
        let kept = codex_stream::nonempty(said);
        assert(kept.push(s).drop_last() =~= kept);
    }
}

/// Two messages that follow one another are kept apart by an empty line.
pub proof fn messages_are_kept_apart(m: CodexView, msg: JsonView, id: Seq<char>)
    requires
        own(m, msg),
        is_of(msg, "item/started"@),
        item(msg).at("id"@) == JsonView::Str(id),
        item(msg).at("type"@) == JsonView::Str("agentMessage"@),
    ensures
        codex_stream::step(m, msg).1 == OutcomeView::Events(
            if m.after_text {
                seq![
                    EventView::ContentDelta { text: seq!['\n', '\n'], parent_tool_use_id: None },
                ]
            } else {
                Seq::empty()
            },
        ),
        !codex_stream::step(m, msg).0.after_text,
{
    codex_stream::methods_are_distinct();
    kinds_are_apart();
    reveal_strlit("\n\n");
    assert("\n\n"@ =~= seq!['\n', '\n']);
}

/// A command that starts is announced by its card: the command as it was asked for, that it
/// runs, and what it runs in.
pub proof fn commands_are_announced(
    m: CodexView,
    msg: JsonView,
    id: Seq<char>,
    command: Seq<char>,
)
    requires
        own(m, msg),
        is_of(msg, "item/started"@),
        item(msg).at("id"@) == JsonView::Str(id),
        item(msg).at("type"@) == JsonView::Str("commandExecution"@),
        item(msg).at("commandActions"@) == JsonView::Array(
            seq![JsonView::empty_object().with("command"@, JsonView::Str(command))],
        ),
    ensures
        codex_stream::step(m, msg).1 == OutcomeView::Events(
            seq![
                EventView::ToolCall {
                    tool_name: Some("Bash"@),
                    description: None,
                    tool_call_id: id,
                    title: command,
                    kind: "execute"@,
                    status: "in_progress"@,
                    content: None,
                    raw_input: Some(
                        json::written(
                            JsonView::Object(
                                seq![
                                    ("command"@, JsonView::Str(command)),
                                    ("cwd"@, item(msg).at("cwd"@)),
                                ],
                            ),
                        ),
                    ),
                    raw_output: None,
                    locations: None,
                    meta: None,
                    images: None,
                },
            ],
        ),
        codex_stream::step(m, msg).0.open_tools.contains(id),
{
    codex_stream::methods_are_distinct();
    kinds_are_apart();
    let action = JsonView::empty_object().with("command"@, JsonView::Str(command));
    json::with_holds(JsonView::empty_object(), "command"@, JsonView::Str(command), "command"@);
    let one = seq![action];
    reveal_with_fuel(json::texts_at, 2);
    assert(one.drop_last() =~= Seq::empty());
    assert(json::texts_at(one, "command"@) =~= seq![command]);
    let whole = codex_stream::input_of(item(msg));
    assert(whole->Object_0 =~= seq![
        ("command"@, JsonView::Str(command)),
        ("cwd"@, item(msg).at("cwd"@)),
    ]);
    crate::ids::added_keeps_the_rest(m.open_tools, id);
}

/// A command that comes in a shell wrapper is shown without it; any other is shown as it
/// is.
pub proof fn wrappers_are_taken_off(item: JsonView, c: Seq<char>)
    requires
        !(item.at("commandActions"@) is Array),
    ensures
        item.at("command"@) == JsonView::Str("bash -lc '"@ + c + "'"@) ==> codex_stream::shown_command(
            item,
        ) == c,
        item.at("command"@) == JsonView::Str("/bin/bash -lc '"@ + c + "'"@)
            ==> codex_stream::shown_command(item) == c,
        item.at("command"@) == JsonView::Str(c) && !text::begins(c, "bash -lc "@) && !text::begins(
            c,
            "/bin/bash -lc "@,
        ) ==> codex_stream::shown_command(item) == c,
{
    reveal_strlit("bash -lc '");
    reveal_strlit("/bin/bash -lc '");
    reveal_strlit("bash -lc ");
    reveal_strlit("/bin/bash -lc ");
    reveal_strlit("'");
    let q = "'"@;
    assert("bash -lc '"@ =~= "bash -lc "@ + q);
    assert("/bin/bash -lc '"@ =~= "/bin/bash -lc "@ + q);
    let s = "bash -lc '"@ + c + q;
    let t = "/bin/bash -lc '"@ + c + q;
    let rest = q + (c + q);
    assert(s =~= "bash -lc "@ + rest);
    assert(t =~= "/bin/bash -lc "@ + rest);
    text_laws::ends_come_off(rest, "bash -lc "@);
    text_laws::ends_come_off(rest, "/bin/bash -lc "@);
    text_laws::ends_come_off(c + q, q);
    text_laws::ends_come_off(c, q);
    if s.len() >= "/bin/bash -lc "@.len() {
        assert(s.take("/bin/bash -lc "@.len() as int)[0] == s[0]);
        assert(s[0] == 'b' && "/bin/bash -lc "@[0] == '/');
    }
}

/// What a completed tool item tells: that it is done or failed, with its output, as the
/// last event; a card that was not announced is announced before.
pub proof fn completed_tools_tell_their_end(m: CodexView, msg: JsonView, id: Seq<char>, kind: Seq<char>)
    requires
        own(m, msg),
        is_of(msg, "item/completed"@),
        item(msg).at("id"@) == JsonView::Str(id),
        item(msg).at("type"@) == JsonView::Str(kind),
        codex_stream::tool_item(kind),
    ensures
        ({
            let it = item(msg);
            let (next, outcome) = codex_stream::step(m, msg);
            let events = stream_json::events_of(outcome);
            let failed = it.at("status"@) == JsonView::Str("failed"@) || it.at("status"@)
                == JsonView::Str("declined"@) || it.at("error"@) != JsonView::Null || it.at(
                "success"@,
            ) == JsonView::Bool(false) || (kind == "commandExecution"@ && it.at(
                "exitCode"@,
            ).as_i64() is Some && it.at("exitCode"@).as_i64()->0 != 0);
            &&& outcome is Events
            &&& !next.open_tools.contains(id)
            &&& events.len() == if m.open_tools.contains(id) {
                1nat
            } else {
                2
            }
            &&& !m.open_tools.contains(id) ==> (events[0] matches EventView::ToolCall {
                tool_call_id,
                ..
            } && tool_call_id == id)
            &&& events.last() matches EventView::ToolCallUpdate {
                tool_call_id,
                status,
                raw_output,
                ..
            } && {
                &&& tool_call_id == id
                &&& status == Some(
                    if failed {
                        "failed"@
                    } else {
                        "completed"@
                    },
                )
                &&& raw_output == Some(json::written(codex_stream::output_of(it)))
            }
        }),
{
    codex_stream::methods_are_distinct();
    codex_stream::tools_are_apart(kind);
    codex_stream::completion_closes_the_card(m, item(msg), id);
}

/// The output of a tool item: a command shows what it printed; changed files show their
/// diffs, each behind its path; an MCP call shows its error or the texts of its result.
pub proof fn outputs_hold_what_the_tools_gave(
    item: JsonView,
    s: Seq<char>,
    path: Seq<char>,
    diff: Seq<char>,
)
    ensures
        item.at("type"@) == JsonView::Str("commandExecution"@) && item.at("aggregatedOutput"@)
            == JsonView::Str(s) ==> codex_stream::output_of(item) == JsonView::Str(s),
        item.at("type"@) == JsonView::Str("fileChange"@) && item.at("changes"@) == JsonView::Array(
            seq![
                JsonView::empty_object().with("path"@, JsonView::Str(path)).with(
                    "diff"@,
                    JsonView::Str(diff),
                ),
            ],
        ) ==> codex_stream::output_of(item) == JsonView::Str(path + seq!['\n'] + diff),
        item.at("type"@) == JsonView::Str("mcpToolCall"@) && item.at("error"@) == JsonView::Null
            && item.at("result"@).at("content"@) == JsonView::Array(
            seq![JsonView::empty_object().with("text"@, JsonView::Str(s))],
        ) ==> codex_stream::output_of(item) == JsonView::Str(s),
        item.at("type"@) == JsonView::Str("dynamicToolCall"@) ==> codex_stream::output_of(item)
            == item.at("contentItems"@),
{
    kinds_are_apart();
    reveal_strlit("\n");
    reveal_strlit("path");
    reveal_strlit("diff");
    assert("\n"@ =~= seq!['\n']);
    assert("path"@[0] == 'p' && "diff"@[0] == 'd');
    let none = JsonView::empty_object();
    let p = none.with("path"@, JsonView::Str(path));
    json::with_holds(none, "path"@, JsonView::Str(path), "diff"@);
    json::with_holds(p, "diff"@, JsonView::Str(diff), "path"@);
    let change = p.with("diff"@, JsonView::Str(diff));
    reveal_with_fuel(codex_stream::diffs, 2);
    assert(seq![change].drop_last() =~= Seq::empty());
    assert(codex_stream::diffs(seq![change]) =~= seq![path + "\n"@ + diff]);
    let said = none.with("text"@, JsonView::Str(s));
    json::with_holds(none, "text"@, JsonView::Str(s), "text"@);
    reveal_with_fuel(json::texts_at, 2);
    assert(seq![said].drop_last() =~= Seq::empty());
    assert(json::texts_at(seq![said], "text"@) =~= seq![s]);
}

/// More changed files add their diffs, and more texts of an MCP result add theirs, each on
/// a line of its own behind the others.
pub proof fn outputs_grow(changes: Seq<JsonView>, change: JsonView, path: Seq<char>, diff: Seq<char>)
    requires
        change.at("path"@) == JsonView::Str(path),
        change.at("diff"@) == JsonView::Str(diff),
        codex_stream::diffs(changes).len() > 0,
    ensures
        text::join(codex_stream::diffs(changes.push(change)), seq!['\n']) == text::join(
            codex_stream::diffs(changes),
            seq!['\n'],
        ) + seq!['\n'] + (path + seq!['\n'] + diff),
{
    reveal_strlit("\n");
    assert("\n"@ =~= seq!['\n']);
    assert(changes.push(change).drop_last() =~= changes);
    let before = codex_stream::diffs(changes);
    text_laws::joining_adds_up(before, seq![path + "\n"@ + diff], seq!['\n']);
    assert(before + seq![path + "\n"@ + diff] =~= before.push(path + "\n"@ + diff));
}

/// The end of a turn tells the context that the last report of it counted: what went in
/// and what came out, and the size of the window, that of the model where it is known.
pub proof fn usage_is_told_at_the_end(
    m: CodexView,
    report: JsonView,
    end: JsonView,
    input: u64,
    output: u64,
    size: u64,
)
    requires
        own(m, report),
        own(m, end),
        is_of(report, "thread/tokenUsage/updated"@),
        is_of(end, "turn/completed"@),
        report.at("params"@).at("tokenUsage"@).at("last"@).at("inputTokens"@) == JsonView::of_u64(
            input,
        ),
        report.at("params"@).at("tokenUsage"@).at("last"@).at("outputTokens"@) == JsonView::of_u64(
            output,
        ),
        size > 0,
        input + output <= u64::MAX,
        report.at("params"@).at("tokenUsage"@).at("modelContextWindow"@) == JsonView::of_u64(size)
            || (!(report.at("params"@).at("tokenUsage"@).at("modelContextWindow"@) is Number)
            && m.context_window == Some(size)),
    ensures
        ({
            let (told, quiet) = codex_stream::step(m, report);
            let events = stream_json::events_of(codex_stream::step(told, end).1);
            &&& quiet == OutcomeView::Events(Seq::empty())
            &&& events.len() > 0
            &&& events.last() == EventView::UsageUpdate { used: (input + output) as u64, size }
            &&& told == CodexView { usage: told.usage, ..m }
        }),
{
    deltas_are_apart();
    codex_stream::methods_are_distinct();
}

/// A turn that fails tells why: the message of its error, or the last error that was not
/// to be tried again.
pub proof fn failures_tell_why(m: CodexView, msg: JsonView, status: Seq<char>, s: Seq<char>)
    requires
        own(m, msg),
        is_of(msg, "turn/completed"@),
        msg.at("params"@).at("turn"@).at("status"@) == JsonView::Str(status),
        status != "completed"@,
        status != "interrupted"@,
        s.len() > 0,
        json::reading(s) is Err,
        msg.at("params"@).at("turn"@).at("error"@).at("message"@) == JsonView::Str(s) || (msg.at(
            "params"@,
        ).at("turn"@).at("error"@) == JsonView::Null && m.last_error == Some(s)),
    ensures
        codex_stream::step(m, msg).1 matches OutcomeView::Finished { finish, .. } && {
            &&& finish.error is Some
            &&& finish.error->0.message == s
            &&& finish.error->0.code == "cli_api_error"@
        },
{
    codex_stream::methods_are_distinct();
}

/// An error that is not to be tried again is kept for the end of the turn; one that is
/// changes nothing. Neither shows anything.
pub proof fn errors_are_kept(m: CodexView, msg: JsonView, s: Seq<char>)
    requires
        own(m, msg),
        is_of(msg, "error"@),
        s.len() > 0,
        json::reading(s) is Err,
        msg.at("params"@).at("error"@).at("message"@) == JsonView::Str(s),
    ensures
        codex_stream::step(m, msg).1 == OutcomeView::Events(Seq::empty()),
        msg.at("params"@).at("willRetry"@) == JsonView::Bool(true) ==> codex_stream::step(m, msg).0
            == m,
        msg.at("params"@).at("willRetry"@) != JsonView::Bool(true) ==> codex_stream::step(m, msg).0
            == (CodexView { last_error: Some(s), ..m }),
{
    codex_stream::methods_are_distinct();
}

/// A tool item that starts is announced by one card, in progress, under its id: an MCP call
/// by server and tool, a search by what it looks for, a change by the file, an agent or
/// another tool by its name.
pub proof fn tools_are_announced(
    m: CodexView,
    msg: JsonView,
    id: Seq<char>,
    kind: Seq<char>,
    a: Seq<char>,
    b: Seq<char>,
)
    requires
        own(m, msg),
        is_of(msg, "item/started"@),
        item(msg).at("id"@) == JsonView::Str(id),
        item(msg).at("type"@) == JsonView::Str(kind),
        codex_stream::tool_item(kind),
        a.len() > 0,
        b.len() > 0,
    ensures
        ({
            let it = item(msg);
            let (next, outcome) = codex_stream::step(m, msg);
            let events = stream_json::events_of(outcome);
            &&& next.open_tools.contains(id)
            &&& !next.after_text
            &&& events.len() == 1
            &&& events[0] matches EventView::ToolCall {
                tool_name,
                tool_call_id,
                title,
                kind: shown,
                status,
                raw_input,
                locations,
                ..
            } && {
                &&& tool_call_id == id
                &&& status == "in_progress"@
                &&& kind == "mcpToolCall"@ && it.at("server"@) == JsonView::Str(a) && it.at("tool"@)
                    == JsonView::Str(b) ==> {
                    &&& tool_name == Some("mcp__"@ + a + "__"@ + b)
                    &&& title == a + ": "@ + b
                    &&& shown == "other"@
                    &&& raw_input == Some(json::written(it.at("arguments"@)))
                }
                &&& kind == "webSearch"@ && it.at("query"@) == JsonView::Str(a) ==> {
                    &&& tool_name == Some("WebSearch"@)
                    &&& title == a
                    &&& shown == "fetch"@
                }
                &&& kind == "dynamicToolCall"@ && it.at("tool"@) == JsonView::Str(a) ==> {
                    &&& tool_name == Some(a)
                    &&& title == a
                    &&& shown == "other"@
                    &&& raw_input == Some(json::written(it.at("arguments"@)))
                }
                &&& kind == "collabAgentToolCall"@ && it.at("tool"@) == JsonView::Str(a) ==> {
                    &&& tool_name == Some(a)
                    &&& title == a
                    &&& shown == "think"@
                }
                &&& kind == "imageGeneration"@ ==> {
                    &&& tool_name == Some("ImageGeneration"@)
                    &&& title == "Generate image"@
                    &&& shown == "other"@
                }
                &&& kind == "fileChange"@ && m.cwd is None && it.at("changes"@) == JsonView::Array(
                    seq![JsonView::empty_object().with("path"@, JsonView::Str(a))],
                ) ==> {
                    &&& tool_name == Some("Edit"@)
                    &&& title == "Edit "@ + a
                    &&& shown == "edit"@
                    &&& locations == Some(
                        JsonView::Array(
                            seq![JsonView::empty_object().with("path"@, JsonView::Str(a))],
                        ),
                    )
                }
            }
        }),
{
    codex_stream::methods_are_distinct();
    codex_stream::tools_are_apart(kind);
    kinds_are_apart();
    crate::ids::added_keeps_the_rest(m.open_tools, id);
    let none = JsonView::empty_object();
    let change = none.with("path"@, JsonView::Str(a));
    json::with_holds(none, "path"@, JsonView::Str(a), "path"@);
    reveal_with_fuel(json::texts_at, 2);
    assert(seq![change].drop_last() =~= Seq::empty());
    assert(json::texts_at(seq![change], "path"@) =~= seq![a]);
    assert(codex_stream::places(seq![a])->Array_0 =~= seq![change]);
}

} // verus!
