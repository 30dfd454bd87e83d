//! What the events of a DeepSeek Harness turn tell of its lines, and what it is started
//! with.
use vstd::prelude::*;
use crate::cli::attachments::{ApartView, PieceView};
use crate::cli::dsh_driver;
use crate::cli::dsh_prompt;
use crate::cli::dsh_stream;
use crate::cli::dsh_stream::DshView;
use crate::cli::dsh_tool_info;
use crate::cli::outcome::{ErrorView, FinishView, OutcomeView};
use crate::cli::stream_json::events_of;
use crate::cli::turn;
use crate::cli::turn::{EffectView, EndView, InputView};
use crate::cli::turn_laws;
use crate::events::EventView;
use crate::json;
use crate::json::JsonView;
use crate::text;

verus! {

/// Whether a line is of a kind.
pub open spec fn is_line(v: JsonView, kind: Seq<char>) -> bool {
    v.at("type"@) == JsonView::Str(kind)
}

/// The kinds of lines are told apart.
proof fn kinds_are_apart()
    ensures
        "thinking"@ != "session"@,
        "thinking"@ != "status"@,
        "text"@ != "session"@,
        "text"@ != "status"@,
        "text"@ != "thinking"@,
        "status"@ != "session"@,
        "tool_call"@ != "session"@,
        "tool_call"@ != "status"@,
        "tool_call"@ != "thinking"@,
        "tool_call"@ != "text"@,
        "tool_result"@ != "session"@,
        "tool_result"@ != "status"@,
        "tool_result"@ != "thinking"@,
        "tool_result"@ != "text"@,
        "tool_result"@ != "tool_call"@,
        "final"@ != "session"@,
        "final"@ != "status"@,
        "final"@ != "thinking"@,
        "final"@ != "text"@,
        "final"@ != "tool_call"@,
        "final"@ != "tool_result"@,
        "error"@ != "session"@,
        "error"@ != "status"@,
        "error"@ != "thinking"@,
        "error"@ != "text"@,
        "error"@ != "tool_call"@,
        "error"@ != "tool_result"@,
        "error"@ != "final"@,
        "step_end"@ != "turn_end"@,
{
    reveal_strlit("session");
    reveal_strlit("status");
    reveal_strlit("thinking");
    reveal_strlit("text");
    reveal_strlit("tool_call");
    reveal_strlit("tool_result");
    reveal_strlit("final");
    reveal_strlit("error");
    reveal_strlit("step_end");
    reveal_strlit("turn_end");
    assert("session"@.len() == 7 && "status"@.len() == 6 && "thinking"@.len() == 8 && "text"@.len()
        == 4 && "tool_call"@.len() == 9 && "tool_result"@.len() == 11 && "final"@.len() == 5
        && "error"@.len() == 5);
    assert("final"@[0] == 'f' && "error"@[0] == 'e');
    assert("step_end"@[0] == 's' && "turn_end"@[0] == 't');
}

/// Text is shown as text and thinking as thinking, each line as one event with all that it
/// holds.
pub proof fn prose_is_shown(m: DshView, v: JsonView, s: Seq<char>)
    requires
        v.at("text"@) == JsonView::Str(s),
        s.len() > 0,
    ensures
        is_line(v, "text"@) ==> dsh_stream::step(m, v) == (
            DshView { saw_text: true, ..m },
            OutcomeView::Events(
                seq![EventView::ContentDelta { text: s, parent_tool_use_id: None }],
            ),
        ),
        is_line(v, "thinking"@) ==> dsh_stream::step(m, v) == (
            m,
            OutcomeView::Events(seq![EventView::Thinking { text: s, parent_tool_use_id: None }]),
        ),
{
    kinds_are_apart();
}

/// Only text is said and only thinking is thought: an event that says something holds the
/// text of a `text` or a `final` line, and one that thinks that of a `thinking` line.
pub proof fn text_and_thoughts_keep_apart(m: DshView, v: JsonView, i: int)
    requires
        0 <= i < events_of(dsh_stream::step(m, v).1).len(),
    ensures
        events_of(dsh_stream::step(m, v).1)[i] matches EventView::ContentDelta { text, .. } ==> v.at(
            "text"@,
        ) == JsonView::Str(text) && (is_line(v, "text"@) || (is_line(v, "final"@) && !m.saw_text)),
        events_of(dsh_stream::step(m, v).1)[i] matches EventView::Thinking { text, .. } ==> v.at(
            "text"@,
        ) == JsonView::Str(text) && is_line(v, "thinking"@),
{
    kinds_are_apart();
}

/// A tool call is announced as one that runs, under its id, with its input as JSON; its
/// result settles it, with the whole output.
pub proof fn tool_calls_are_told(m: DshView, v: JsonView, id: Seq<char>, name: Seq<char>, s: Seq<char>)
    requires
        v.at("callId"@) == JsonView::Str(id),
        id.len() > 0,
    ensures
        is_line(v, "tool_call"@) && v.at("tool"@) == JsonView::Str(name) && v.get("input"@) is Some
            ==> ({
            let shown = dsh_tool_info::dsh_shown(name, v.get("input"@)->0, m.cwd);
            dsh_stream::step(m, v) == (
                m,
                OutcomeView::Events(
                    seq![
                        EventView::ToolCall {
                            tool_name: None,
                            description: None,
                            tool_call_id: id,
                            title: shown.title,
                            kind: shown.kind,
                            status: "in_progress"@,
                            content: None,
                            raw_input: Some(json::written(v.get("input"@)->0)),
                            raw_output: None,
                            locations: shown.locations,
                            meta: None,
                            images: None,
                        },
                    ],
                ),
            )
        }),
        is_line(v, "tool_result"@) && v.at("result"@) == JsonView::Str(s) ==> dsh_stream::step(m, v)
            == (
            m,
            OutcomeView::Events(
                seq![
                    EventView::ToolCallUpdate {
                        tool_name: None,
                        description: None,
                        tool_call_id: id,
                        title: None,
                        status: Some(
                            if v.at("status"@) == JsonView::Str("error"@) {
                                "failed"@
                            } else {
                                "completed"@
                            },
                        ),
                        content: None,
                        raw_input: None,
                        raw_output: Some(json::written(JsonView::Str(s))),
                        raw_output_append: None,
                        locations: None,
                        meta: None,
                        images: None,
                    },
                ],
            ),
        ),
{
    kinds_are_apart();
}

/// A session is announced under the id that the output names, where it is a new one.
pub proof fn sessions_are_announced(m: DshView, v: JsonView, id: Seq<char>)
    requires
        is_line(v, "session"@),
        v.at("sessionId"@) == JsonView::Str(id),
        id.len() > 0,
    ensures
        dsh_stream::step(m, v) == (
            DshView { session_id: Some(id), ..m },
            OutcomeView::Events(
                if m.session_id == Some(id) {
                    Seq::empty()
                } else {
                    seq![EventView::SessionStarted { session_id: id }]
                },
            ),
        ),
{
}

/// The end of a turn tells the context of its last step: what went in and what came out, of
/// the window of the model; and the text, where none came before.
pub proof fn the_last_line_tells_the_rest(
    m: DshView,
    step_end: JsonView,
    last: JsonView,
    input: u64,
    output: u64,
    size: u64,
    s: Seq<char>,
)
    requires
        is_line(step_end, "status"@),
        step_end.at("phase"@) == JsonView::Str("step_end"@),
        step_end.at("usage"@).at("inputTokens"@) == JsonView::of_u64(input),
        step_end.at("usage"@).at("outputTokens"@) == JsonView::of_u64(output),
        input + output <= u64::MAX,
        m.context_window == Some(size),
        size > 0,
        is_line(last, "final"@),
        last.at("text"@) == JsonView::Str(s),
        s.len() > 0,
    ensures
        ({
            let (told, quiet) = dsh_stream::step(m, step_end);
            let usage = EventView::UsageUpdate { used: (input + output) as u64, size };
            let said = EventView::ContentDelta { text: s, parent_tool_use_id: None };
            &&& quiet == OutcomeView::Events(Seq::empty())
            &&& told == DshView { last_step_usage: Some((input, output)), ..m }
            &&& events_of(dsh_stream::step(told, last).1) == if m.saw_text {
                seq![usage]
            } else {
                seq![said, usage]
            }
        }),
{
    kinds_are_apart();
    let told = dsh_stream::step(m, step_end).0;
    let all = events_of(dsh_stream::step(told, last).1);
    let usage = EventView::UsageUpdate { used: (input + output) as u64, size };
    let said = EventView::ContentDelta { text: s, parent_tool_use_id: None };
    if m.saw_text {
        assert(all =~= seq![usage]);
    } else {
        assert(all =~= seq![said, usage]);
    }
}

/// How a turn ends by the reason that is given: completed, stopped, or failed with the
/// message of its error; a credential that was refused is asked for.
pub proof fn reasons_end_the_turn(reason: JsonView, code: Seq<char>, s: Seq<char>)
    requires
        s.len() > 0,
    ensures
        reason.at("kind"@) == JsonView::Str("completed"@) || !(reason.at("kind"@) is Str)
            ==> dsh_stream::finish(reason) == (FinishView { stop_reason: "end_turn"@, error: None }),
        reason.at("kind"@) == JsonView::Str("aborted"@) ==> dsh_stream::finish(reason) == (
        FinishView { stop_reason: "cancelled"@, error: None }),
        reason.at("kind"@) == JsonView::Str("error"@) && reason.at("error"@).at("message"@)
            == JsonView::Str(s) && reason.at("error"@).at("code"@) == JsonView::Str(code) ==> {
            let f = dsh_stream::finish(reason);
            let c = text::lower(code);
            &&& f.error is Some
            &&& f.error->0.code == "cli_api_error"@
            &&& f.error->0.message == s
            &&& f.error->0.details == if code.len() > 0 {
                Some("code="@ + code)
            } else {
                None
            }
            &&& f.stop_reason == if c == "unauthorized"@ || c == "forbidden"@ || c == "401"@ || c
                == "403"@ || c == "invalid_api_key"@ || c == "missing_credential"@ || text::contains(
                s,
                " 401"@,
            ) || text::contains(s, " 403"@) {
                "auth_required"@
            } else {
                "unknown"@
            }
        },
{
    reveal_strlit("completed");
    reveal_strlit("aborted");
    reveal_strlit("error");
    assert("completed"@.len() == 9 && "aborted"@.len() == 7 && "error"@.len() == 5);
}

/// A failure of the runner ends the turn with its message: a session that it does not know as
/// one that cannot be resumed.
pub proof fn runner_errors_end_the_turn(m: DshView, v: JsonView, s: Seq<char>)
    requires
        is_line(v, "error"@),
        v.at("message"@) == JsonView::Str(s),
        s.len() > 0,
    ensures
        ({
            let l = text::lower(s);
            dsh_stream::step(m, v) == (
                m,
                OutcomeView::Finished {
                    events: Seq::empty(),
                    finish: FinishView {
                        stop_reason: "unknown"@,
                        error: Some(
                            ErrorView {
                                code: if text::contains(l, "session"@) && (text::contains(
                                    l,
                                    "unknown"@,
                                ) || text::contains(l, "not found"@) || text::contains(
                                    l,
                                    "no stored"@,
                                )) {
                                    "cli_resume_failed"@
                                } else {
                                    "cli_execution_error"@
                                },
                                message: s,
                                details: None,
                            },
                        ),
                    },
                },
            )
        }),
{
    kinds_are_apart();
}

/// A line is shown and recorded as its events, and ends the exchange where it ends the turn;
/// a blank line is passed over.
pub proof fn lines_are_mapped(p: dsh_driver::PumpView, line: Seq<char>)
    ensures
        text::trim(line).len() == 0 ==> dsh_driver::step(p, InputView::Line(line)) == (
            p,
            Seq::<EffectView>::empty(),
            None::<EndView>,
        ),
        text::trim(line).len() > 0 && json::reading(line) is Ok ==> ({
            let (m, outcome) = dsh_stream::step(p.mapper, json::reading(line)->Ok_0);
            let (q, effects, end) = dsh_driver::step(p, InputView::Line(line));
            &&& q.mapper == m
            &&& turn::emitted(effects) == events_of(outcome)
            &&& match outcome {
                OutcomeView::Finished { finish, .. } => end == Some(EndView::Finished(finish)),
                _ => end is None && q.unparsable == 0,
            }
        }),
        text::trim(line).len() > 0 && json::reading(line) is Err ==> ({
            let (q, effects, end) = dsh_driver::step(p, InputView::Line(line));
            &&& effects.len() == 0
            &&& q.mapper == p.mapper
            &&& p.unparsable < 49 ==> q.unparsable == p.unparsable + 1 && end is None
            &&& p.unparsable >= 49 ==> end == Some(
                EndView::Protocol(text::shortened(line, 2048)),
            )
        }),
{
    if text::trim(line).len() > 0 {
        if let Ok(v) = json::reading(line) {
            let events = events_of(dsh_stream::step(p.mapper, v).1);
            turn_laws::viewers_get_every_event(p.record, Seq::empty(), events);
        }
    }
}

/// Output that told the end of the turn and then broke off still has that end.
pub proof fn ends_that_were_told_count(
    p: dsh_driver::PumpView,
    finish: FinishView,
    end: EndView,
    status: Seq<char>,
    tail: Seq<char>,
)
    ensures
        p.mapper.pending_finish == Some(finish) ==> dsh_driver::concluded(
            p,
            EndView::Eof,
            status,
            tail,
        ) == (finish, false),
        !(end is Eof) || p.mapper.pending_finish is None ==> dsh_driver::concluded(
            p,
            end,
            status,
            tail,
        ) == turn::concluded(crate::agents::DriverKind::Dsh, end, status, tail),
{
}

/// The arguments of a process: headless, with the patch of the turn, as JSON, the session
/// that it goes on with, and the prompt behind a mark that keeps it from being an option.
pub proof fn processes_are_started_with(patch: Seq<char>, session: Seq<char>, prompt: Seq<char>)
    requires
        session.len() > 0,
    ensures
        dsh_prompt::args(patch, None, prompt) == seq![
            "--profile"@,
            "headless"@,
            "--patch"@,
            patch,
            "--json"@,
            "--"@,
            prompt,
        ],
        dsh_prompt::args(patch, Some(session), prompt) == seq![
            "--profile"@,
            "headless"@,
            "--patch"@,
            patch,
            "--json"@,
            "--session-id"@,
            session,
            "--"@,
            prompt,
        ],
{
}

/// The prompt holds every piece, in order and an empty line apart: texts as they are, files by
/// their path.
pub proof fn prompts_hold_every_piece(pieces: Seq<PieceView>, s: Seq<char>, path: Seq<char>)
    ensures
        dsh_prompt::flat(seq![PieceView::Text(s)]) == s,
        dsh_prompt::flat(seq![PieceView::File(path)]) == "[附件: "@ + path + "]"@,
        pieces.len() > 0 ==> dsh_prompt::flat(pieces.push(PieceView::Text(s))) == dsh_prompt::flat(
            pieces,
        ) + seq!['\n', '\n'] + s,
        pieces.len() > 0 ==> dsh_prompt::flat(pieces.push(PieceView::File(path)))
            == dsh_prompt::flat(pieces) + seq!['\n', '\n'] + ("[附件: "@ + path + "]"@),
{
    reveal_strlit("\n\n");
    assert("\n\n"@ =~= seq!['\n', '\n']);
    let f = |p: PieceView| dsh_prompt::part(p);
    assert(seq![PieceView::Text(s)].map_values(f) =~= seq![s]);
    assert(seq![PieceView::File(path)].map_values(f) =~= seq!["[附件: "@ + path + "]"@]);
    let all = pieces.map_values(f);
    assert(pieces.push(PieceView::Text(s)).map_values(f).drop_last() =~= all);
    assert(pieces.push(PieceView::File(path)).map_values(f).drop_last() =~= all);
}

/// A prompt is handed over whole or refused: for an attachment that failed, for having no
/// text, or for its length.
pub proof fn prompts_are_whole_or_refused(a: ApartView)
    ensures
        dsh_prompt::flattened(a) matches Ok(s) ==> s == dsh_prompt::flat(a.pieces) && a.error
            is None && text::trim(s).len() > 0 && text::bytes(s) <= 524288,
        a.error is Some ==> dsh_prompt::flattened(a) == Err::<Seq<char>, ErrorView>(a.error->0),
        a.error is None && text::trim(dsh_prompt::flat(a.pieces)).len() == 0 ==> (
        dsh_prompt::flattened(a) matches Err(e) && e.code == "invalid_params"@),
        a.error is None && text::trim(dsh_prompt::flat(a.pieces)).len() > 0 && text::bytes(
            dsh_prompt::flat(a.pieces),
        ) > 524288 ==> (dsh_prompt::flattened(a) matches Err(e) && e.code == "prompt_too_large"@),
        a.error is None && text::trim(dsh_prompt::flat(a.pieces)).len() > 0 && text::bytes(
            dsh_prompt::flat(a.pieces),
        ) <= 524288 ==> dsh_prompt::flattened(a) is Ok,
{
}

/// Lines that leave something out: a call without input has an empty one, a result without
/// text is empty, a call without an id is not told, and a failure that does not say why is
/// told by its kind.
pub proof fn sparse_lines_are_told(m: DshView, v: JsonView, id: Seq<char>, kind: Seq<char>)
    ensures
        is_line(v, "tool_call"@) && v.at("callId"@) == JsonView::Str(id) && id.len() > 0 && v.get(
            "input"@,
        ) is None ==> {
            let events = events_of(dsh_stream::step(m, v).1);
            events.len() == 1 && events[0] is ToolCall && events[0]->ToolCall_raw_input == Some(
                json::written(JsonView::Object(Seq::empty())),
            )
        },
        is_line(v, "tool_result"@) && v.at("callId"@) == JsonView::Str(id) && id.len() > 0 && !(v.at(
            "result"@,
        ) is Str) ==> {
            let events = events_of(dsh_stream::step(m, v).1);
            events.len() == 1 && events[0] is ToolCallUpdate && events[0]->ToolCallUpdate_raw_output
                == Some(json::written(JsonView::Str(Seq::empty())))
        },
        (is_line(v, "tool_call"@) || is_line(v, "tool_result"@)) && !(v.at("callId"@) is Str)
            ==> dsh_stream::step(m, v) == (m, OutcomeView::Events(Seq::empty())),
        v.at("kind"@) == JsonView::Str(kind) && kind != "completed"@ && kind != "aborted"@ && v.at(
            "error"@,
        ) == JsonView::Null ==> dsh_stream::finish(v).error is Some && dsh_stream::finish(
            v,
        ).error->0.message == "DeepSeek Harness turn ended with "@ + kind && dsh_stream::finish(
            v,
        ).error->0.details is None,
        is_line(v, "error"@) && !(v.at("message"@) is Str) ==> (dsh_stream::step(m, v).1 matches
            OutcomeView::Finished { finish, .. } && finish.error is Some && finish.error->0.message
            == "DeepSeek Harness reported an error"@),
        is_line(v, "final"@) ==> (dsh_stream::step(m, v).1 matches OutcomeView::Finished {
            finish,
            ..
        } && finish == (if m.pending_finish is Some {
            m.pending_finish->0
        } else {
            FinishView { stop_reason: "end_turn"@, error: None }
        })),
{
    kinds_are_apart();
    reveal_strlit("");
    assert(""@ =~= Seq::<char>::empty());
    assert(JsonView::empty_object() == JsonView::Object(Seq::empty()));
    reveal_strlit("completed");
    reveal_strlit("aborted");
    assert("completed"@.len() == 9 && "aborted"@.len() == 7);
}

} // verus!
