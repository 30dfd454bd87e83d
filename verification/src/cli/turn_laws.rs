//! What a turn shows, records and reports, in terms of the events of its agent.
use vstd::prelude::*;
use crate::agents;
use crate::agents::DriverKind;
use crate::cli::driver;
use crate::cli::outcome::{ErrorView, FinishView, OutcomeView};
use crate::cli::prompt::{BlockView, CompanionLaunchSpec};
use crate::cli::stream_json;
use crate::cli::transcript;
use crate::cli::turn;
use crate::cli::turn::{
    CommandKind, EffectView, EndView, Idle, InputView, Leave, RecordView, Rejection,
};
use crate::events::{ConnectionStatus, EventView};
use crate::json;
use crate::json::JsonView;
use crate::text;

verus! {

/// What the history holds of prose: what was said as a message of the agent, what was
/// thought as a thought, each whole.
pub proof fn prose_is_recorded_whole(s: Seq<char>, parent: Option<Seq<char>>)
    ensures
        transcript::transcript(EventView::ContentDelta { text: s, parent_tool_use_id: parent })
            == Some(
            JsonView::Object(
                seq![
                    ("sessionUpdate"@, JsonView::Str("agent_message_chunk"@)),
                    (
                        "content"@,
                        JsonView::Object(
                            seq![("type"@, JsonView::Str("text"@)), ("text"@, JsonView::Str(s))],
                        ),
                    ),
                ],
            ),
        ),
        transcript::transcript(EventView::Thinking { text: s, parent_tool_use_id: parent }) == Some(
            JsonView::Object(
                seq![
                    ("sessionUpdate"@, JsonView::Str("agent_thought_chunk"@)),
                    (
                        "content"@,
                        JsonView::Object(
                            seq![("type"@, JsonView::Str("text"@)), ("text"@, JsonView::Str(s))],
                        ),
                    ),
                ],
            ),
        ),
{
    let inner = seq![("type"@, JsonView::Str("text"@)), ("text"@, JsonView::Str(s))];
    let said = transcript::chunk("agent_message_chunk"@, s);
    let thought = transcript::chunk("agent_thought_chunk"@, s);
    assert(JsonView::empty_object().with("type"@, JsonView::Str("text"@)).with(
        "text"@,
        JsonView::Str(s),
    )->Object_0 =~= inner);
    assert(said->Object_0 =~= seq![
        ("sessionUpdate"@, JsonView::Str("agent_message_chunk"@)),
        ("content"@, JsonView::Object(inner)),
    ]);
    assert(thought->Object_0 =~= seq![
        ("sessionUpdate"@, JsonView::Str("agent_thought_chunk"@)),
        ("content"@, JsonView::Object(inner)),
    ]);
}

/// What the history holds of a tool call: its id, how it is shown, its input as the JSON
/// value that it is, and its places.
pub proof fn tool_calls_are_recorded(
    id: Seq<char>,
    title: Seq<char>,
    kind: Seq<char>,
    status: Seq<char>,
    raw: Seq<char>,
    input: JsonView,
    places: JsonView,
)
    requires
        json::reading(raw) == Ok::<JsonView, Seq<char>>(input),
    ensures
        transcript::transcript(
            EventView::ToolCall {
                tool_name: None,
                description: None,
                tool_call_id: id,
                title,
                kind,
                status,
                content: None,
                raw_input: Some(raw),
                raw_output: None,
                locations: Some(places),
                meta: None,
                images: None,
            },
        ) == Some(
            JsonView::Object(
                seq![
                    ("sessionUpdate"@, JsonView::Str("tool_call"@)),
                    ("toolCallId"@, JsonView::Str(id)),
                    ("title"@, JsonView::Str(title)),
                    ("kind"@, JsonView::Str(kind)),
                    ("status"@, JsonView::Str(status)),
                    ("rawInput"@, input),
                    ("locations"@, places),
                ],
            ),
        ),
{
    let e = EventView::ToolCall {
        tool_name: None,
        description: None,
        tool_call_id: id,
        title,
        kind,
        status,
        content: None,
        raw_input: Some(raw),
        raw_output: None,
        locations: Some(places),
        meta: None,
        images: None,
    };
    assert(transcript::transcript(e)->0->Object_0 =~= seq![
        ("sessionUpdate"@, JsonView::Str("tool_call"@)),
        ("toolCallId"@, JsonView::Str(id)),
        ("title"@, JsonView::Str(title)),
        ("kind"@, JsonView::Str(kind)),
        ("status"@, JsonView::Str(status)),
        ("rawInput"@, input),
        ("locations"@, places),
    ]);
}

/// What the history holds of news of a tool call: its id, its status and title, and its
/// input and output as the JSON values that they are.
pub proof fn tool_news_is_recorded(
    id: Seq<char>,
    title: Seq<char>,
    status: Seq<char>,
    raw: Seq<char>,
    input: JsonView,
    shown: Seq<char>,
    output: JsonView,
)
    requires
        json::reading(raw) == Ok::<JsonView, Seq<char>>(input),
        json::reading(shown) == Ok::<JsonView, Seq<char>>(output),
    ensures
        transcript::transcript(
            EventView::ToolCallUpdate {
                tool_name: None,
                description: None,
                tool_call_id: id,
                title: Some(title),
                status: Some(status),
                content: None,
                raw_input: Some(raw),
                raw_output: Some(shown),
                raw_output_append: None,
                locations: None,
                meta: None,
                images: None,
            },
        ) == Some(
            JsonView::Object(
                seq![
                    ("sessionUpdate"@, JsonView::Str("tool_call_update"@)),
                    ("toolCallId"@, JsonView::Str(id)),
                    ("status"@, JsonView::Str(status)),
                    ("title"@, JsonView::Str(title)),
                    ("rawInput"@, input),
                    ("rawOutput"@, output),
                ],
            ),
        ),
{
    let e = EventView::ToolCallUpdate {
        tool_name: None,
        description: None,
        tool_call_id: id,
        title: Some(title),
        status: Some(status),
        content: None,
        raw_input: Some(raw),
        raw_output: Some(shown),
        raw_output_append: None,
        locations: None,
        meta: None,
        images: None,
    };
    assert(transcript::transcript(e)->0->Object_0 =~= seq![
        ("sessionUpdate"@, JsonView::Str("tool_call_update"@)),
        ("toolCallId"@, JsonView::Str(id)),
        ("status"@, JsonView::Str(status)),
        ("title"@, JsonView::Str(title)),
        ("rawInput"@, input),
        ("rawOutput"@, output),
    ]);
}

/// The usage is recorded; the start of a session, errors, changes of the status and the end
/// of a turn are no updates of the history.
pub proof fn other_events_are_left_out(e: EventView, used: u64, size: u64)
    ensures
        transcript::transcript(EventView::UsageUpdate { used, size }) == Some(
            JsonView::Object(
                seq![
                    ("sessionUpdate"@, JsonView::Str("usage_update"@)),
                    ("used"@, JsonView::of_u64(used)),
                    ("size"@, JsonView::of_u64(size)),
                ],
            ),
        ),
        e is SessionStarted || e is StatusChanged || e is UserMessage || e is Error || e
            is TurnComplete ==> transcript::transcript(e) is None,
        transcript::update(e) is Some ==> transcript::update(e) == transcript::transcript(e),
        transcript::transcript(e) is Some && transcript::update_accepted(
            transcript::transcript(e)->0,
        ) ==> transcript::update(e) == transcript::transcript(e),
{
    assert(transcript::transcript(EventView::UsageUpdate { used, size })->0->Object_0 =~= seq![
        ("sessionUpdate"@, JsonView::Str("usage_update"@)),
        ("used"@, JsonView::of_u64(used)),
        ("size"@, JsonView::of_u64(size)),
    ]);
}

/// The viewers get every event of a turn, in order, and no other.
pub proof fn viewers_get_every_event(r: RecordView, session: Seq<char>, events: Seq<EventView>)
    ensures
        turn::emitted(turn::all_recorded(r, events).1) == events,
        turn::emitted(driver::all_recorded(session, events)) == events,
    decreases events.len(),
{
    reveal_with_fuel(turn::emitted, 3);
    if events.len() == 0 {
        assert(events =~= Seq::empty());
    } else {
        let front = events.drop_last();
        let e = events.last();
        viewers_get_every_event(r, session, front);
        assert(front.push(e) =~= events);
        let before = turn::all_recorded(r, front);
        let last = turn::recorded(before.0, e).1;
        turn::emitted_adds_up(before.1, last);
        emitted_last(last, e);
        let other = driver::recorded(session, e);
        turn::emitted_adds_up(driver::all_recorded(session, front), other);
        emitted_last(other, e);
    }
}

/// What the effects of one event send.
proof fn emitted_last(effects: Seq<EffectView>, e: EventView)
    requires
        0 < effects.len() <= 2,
        effects.last() == EffectView::Emit(e),
        effects.len() == 2 ==> !(effects[0] is Emit),
    ensures
        turn::emitted(effects) == seq![e],
{
    reveal_with_fuel(turn::emitted, 3);
    if effects.len() == 2 {
        assert(effects.drop_last().drop_last() =~= Seq::empty());
        assert(effects.drop_last().last() == effects[0]);
    } else {
        assert(effects.drop_last() =~= Seq::empty());
    }
    assert(turn::emitted(effects) =~= seq![e]);
}

/// The updates that effects write to the history, with their sessions, in order.
pub open spec fn history(effects: Seq<EffectView>) -> Seq<(Seq<char>, JsonView)>
    decreases effects.len(),
{
    if effects.len() == 0 {
        Seq::empty()
    } else {
        match effects.last() {
            EffectView::RecordUpdate { session_id, update } => history(effects.drop_last()).push(
                (session_id, update),
            ),
            _ => history(effects.drop_last()),
        }
    }
}

/// The history of two lists.
proof fn history_adds_up(a: Seq<EffectView>, b: Seq<EffectView>)
    ensures
        history(a + b) == history(a) + history(b),
    decreases b.len(),
{
    if b.len() == 0 {
        assert(a + b =~= a);
        assert(history(a) + history(b) =~= history(a));
    } else {
        history_adds_up(a, b.drop_last());
        assert((a + b).drop_last() =~= a + b.drop_last());
        assert(history(a + b) =~= history(a) + history(b));
    }
}

/// The updates of the events of the main thread, in order.
pub open spec fn updates(events: Seq<EventView>, main_only: bool) -> Seq<JsonView>
    decreases events.len(),
{
    if events.len() == 0 {
        Seq::empty()
    } else {
        let front = updates(events.drop_last(), main_only);
        let other = match events.last() {
            EventView::ContentDelta { parent_tool_use_id, .. } => parent_tool_use_id is Some,
            EventView::Thinking { parent_tool_use_id, .. } => parent_tool_use_id is Some,
            _ => false,
        };
        match transcript::update(events.last()) {
            Some(u) => if main_only && other {
                front
            } else {
                front.push(u)
            },
            None => front,
        }
    }
}

/// The history holds the update of every event that has one, in order and under the session
/// of the turn: where a turn knows its session all of them, and where sub-agents speak only
/// those of the main thread.
pub proof fn history_holds_every_update(session: Seq<char>, events: Seq<EventView>)
    ensures
        history(driver::all_recorded(session, events)) == updates(events, true).map_values(
            |u: JsonView| (session, u),
        ),
        (forall|i: int| 0 <= i < events.len() ==> !(#[trigger] events[i] is SessionStarted)) ==> ({
            let r = RecordView { session_id: Some(session), prompt_recorded: true };
            &&& turn::all_recorded(r, events).0 == r
            &&& history(turn::all_recorded(r, events).1) == updates(events, false).map_values(
                |u: JsonView| (session, u),
            )
        }),
    decreases events.len(),
{
    let f = |u: JsonView| (session, u);
    if events.len() == 0 {
        assert(history(driver::all_recorded(session, events)) =~= updates(events, true).map_values(
            f,
        ));
        let r = RecordView { session_id: Some(session), prompt_recorded: true };
        assert(history(turn::all_recorded(r, events).1) =~= updates(events, false).map_values(f));
    } else {
        let front = events.drop_last();
        let e = events.last();
        history_holds_every_update(session, front);
        let one = driver::recorded(session, e);
        history_adds_up(driver::all_recorded(session, front), one);
        history_of_one(one);
        assert(history(driver::all_recorded(session, events)) =~= updates(events, true).map_values(
            f,
        ));
        if forall|i: int| 0 <= i < events.len() ==> !(#[trigger] events[i] is SessionStarted) {
            assert forall|i: int| 0 <= i < front.len() implies !(
            #[trigger] front[i] is SessionStarted) by {
                assert(front[i] == events[i]);
            }
            assert(events[events.len() - 1] == e);
            let r = RecordView { session_id: Some(session), prompt_recorded: true };
            let before = turn::all_recorded(r, front);
            let two = turn::recorded(before.0, e).1;
            history_adds_up(before.1, two);
            history_of_one(two);
            assert(history(turn::all_recorded(r, events).1) =~= updates(events, false).map_values(
                f,
            ));
        }
    }
}

/// What one or two effects write to the history.
proof fn history_of_one(effects: Seq<EffectView>)
    requires
        0 < effects.len() <= 2,
        effects.last() is Emit,
    ensures
        history(effects) == match effects[0] {
            EffectView::RecordUpdate { session_id, update } => seq![(session_id, update)],
            _ => Seq::empty(),
        },
{
    reveal_with_fuel(history, 3);
    if effects.len() == 2 {
        assert(effects.drop_last().drop_last() =~= Seq::empty());
        assert(effects.drop_last().last() == effects[0]);
        if effects[0] is RecordUpdate {
            assert(history(effects) =~= seq![
                (effects[0]->RecordUpdate_session_id, effects[0]->update),
            ]);
        }
    } else {
        assert(effects.drop_last() =~= Seq::empty());
    }
}

/// A turn begins with the status, then the prompt as the user sent it, then the record of
/// the session that is known; a new session is announced behind all that.
pub proof fn turns_begin(id: Seq<char>, blocks: JsonView, session: Seq<char>)
    ensures
        ({
            let prompting = EffectView::Emit(
                EventView::StatusChanged { status: ConnectionStatus::Prompting },
            );
            let prompt = EffectView::Emit(EventView::UserMessage { message_id: id, blocks });
            let record = EffectView::RecordStart { session_id: session };
            let news = EffectView::Emit(EventView::SessionStarted { session_id: session });
            &&& turn::beginning(Some((id, blocks)), None) == seq![prompting, prompt]
            &&& turn::beginning(None, None) == seq![prompting]
            &&& turn::beginning(Some((id, blocks)), Some(session)) == seq![prompting, prompt, record]
            &&& driver::beginning(Some((id, blocks)), session, false) == seq![
                prompting,
                prompt,
                record,
            ]
            &&& driver::beginning(Some((id, blocks)), session, true) == seq![
                prompting,
                prompt,
                record,
                news,
            ]
        }),
{
}

/// A turn ends with its error, on record and shown, the record of its end, its completion,
/// and the return to the connection unless that closes; all under the reason that it
/// stopped for.
pub proof fn turns_end(
    stop: Seq<char>,
    error: ErrorView,
    session: Seq<char>,
    external: Seq<char>,
    agent: Seq<char>,
    ms: u64,
    model: Option<Seq<char>>,
)
    ensures
        ({
            let record_error = EffectView::RecordError {
                session_id: session,
                message: error.message,
                code: error.code,
            };
            let show_error = EffectView::Emit(
                EventView::Error {
                    message: error.message,
                    agent_type: agent,
                    code: Some(error.code),
                    details: error.details,
                    terminal: false,
                },
            );
            let record_end = EffectView::RecordEnd {
                session_id: session,
                stop_reason: stop,
                duration_ms: ms,
                model,
            };
            let complete = EffectView::Emit(
                EventView::TurnComplete {
                    session_id: external,
                    stop_reason: stop,
                    agent_type: agent,
                    duration_ms: Some(ms),
                },
            );
            let connected = EffectView::Emit(
                EventView::StatusChanged { status: ConnectionStatus::Connected },
            );
            let clean = FinishView { stop_reason: stop, error: None };
            let failed = FinishView { stop_reason: stop, error: Some(error) };
            &&& turn::ending(failed, Some(session), Some(external), agent, ms, model, false)
                == seq![record_error, show_error, record_end, complete, connected]
            &&& turn::ending(clean, Some(session), Some(external), agent, ms, model, false)
                == seq![record_end, complete, connected]
            &&& turn::ending(clean, Some(session), Some(external), agent, ms, model, true)
                == seq![record_end, complete]
            &&& turn::ending(failed, None, Some(external), agent, ms, model, false) == seq![
                show_error,
                complete,
                connected,
            ]
        }),
{
    let clean = FinishView { stop_reason: stop, error: None };
    let failed = FinishView { stop_reason: stop, error: Some(error) };
    let a = turn::ending(failed, Some(session), Some(external), agent, ms, model, false);
    assert(a.len() == 5);
    let b = turn::ending(clean, Some(session), Some(external), agent, ms, model, false);
    assert(b.len() == 3);
    let c = turn::ending(failed, None, Some(external), agent, ms, model, false);
    assert(c.len() == 3);
}

/// How the end of an exchange ends the turn: a result as it is; a stop, also by the end of
/// the connection, as cancelled; output that is none, an early exit and a failure as errors
/// that name what happened, with the end of the error output.
pub proof fn ends_are_told(
    kind: DriverKind,
    finish: FinishView,
    error: ErrorView,
    sample: Seq<char>,
    status: Seq<char>,
    tail: Seq<char>,
)
    ensures
        ({
            let agent = agents::called(kind);
            &&& turn::concluded(kind, EndView::Finished(finish), status, tail) == (finish, false)
            &&& turn::concluded(kind, EndView::Cancelled, status, tail) == (
                FinishView { stop_reason: "cancelled"@, error: None },
                false,
            )
            &&& turn::concluded(kind, EndView::Disconnected, status, tail) == (
                FinishView { stop_reason: "cancelled"@, error: None },
                true,
            )
            &&& turn::concluded(kind, EndView::Protocol(sample), status, tail) == (
                FinishView {
                    stop_reason: "unknown"@,
                    error: Some(
                        ErrorView {
                            code: "cli_protocol"@,
                            message: agent + " produced 50 consecutive unparsable output lines"@,
                            details: Some(sample),
                        },
                    ),
                },
                false,
            )
            &&& turn::concluded(kind, EndView::Eof, status, tail) == (
                FinishView {
                    stop_reason: "unknown"@,
                    error: Some(
                        ErrorView {
                            code: "cli_exited"@,
                            message: agent + " exited before finishing the turn ("@ + status
                                + ")"@,
                            details: if tail.len() > 0 {
                                Some(tail)
                            } else {
                                None
                            },
                        },
                    ),
                },
                false,
            )
            &&& turn::concluded(kind, EndView::Failed(error), status, tail) == (
                FinishView {
                    stop_reason: "unknown"@,
                    error: Some(
                        ErrorView {
                            code: error.code,
                            message: error.message,
                            details: if error.details is None && tail.len() > 0 {
                                Some(tail)
                            } else {
                                error.details
                            },
                        },
                    ),
                },
                false,
            )
        }),
{
    reveal_strlit(" produced ");
    reveal_strlit(" consecutive unparsable output lines");
    reveal_strlit(" produced 50 consecutive unparsable output lines");
    reveal_with_fuel(text::dec, 3);
    assert(text::dec(50) =~= seq!['5', '0']);
    let agent = agents::called(kind);
    assert(agent + " produced "@ + text::dec(50) + " consecutive unparsable output lines"@ =~= agent
        + " produced 50 consecutive unparsable output lines"@);
}

/// A process that finished or whose output ended may exit by itself; any other is stopped.
/// The end of the error output is asked for where the output ended or the exchange failed.
pub proof fn processes_are_left(end: EndView)
    ensures
        turn::leaving(end) == Leave::Wait <==> end is Finished || end is Eof,
        turn::wants_tail(end) <==> end is Eof || end is Failed,
{
}

/// What the driver does with a command between two turns: a prompt runs, a disconnect stops,
/// a cancel has nothing to cancel, and all else is refused, with an answer where the command
/// waits for one.
pub proof fn commands_are_answered(c: CommandKind)
    ensures
        turn::idle(c) == Idle::RunTurn <==> c == CommandKind::Prompt,
        turn::idle(c) == Idle::Stop <==> c == CommandKind::Disconnect,
        turn::idle(c) == Idle::Ignore <==> c == CommandKind::Cancel,
        turn::rejection(c) == Rejection::No <==> c == CommandKind::GoalControl || c
            == CommandKind::StopAsyncTask,
        turn::rejection(c) == Rejection::Unsupported <==> c == CommandKind::Fork || c
            == CommandKind::Steer,
{
}

/// How the exit of a process is told.
pub proof fn exits_are_told(code: i32, signal: i32)
    ensures
        turn::status_text(Some(code), None) == "exit code "@ + text::dec_signed(code as int),
        turn::status_text(Some(code), Some(signal)) == "exit code "@ + text::dec_signed(code as int),
        turn::status_text(None, Some(signal)) == "signal "@ + text::dec_signed(signal as int),
        turn::status_text(None, None) == "unknown exit status"@,
{
}

/// A line of output that is a frame is shown and recorded as its events; a result ends the
/// exchange once nothing runs in the background. Blank lines are passed over.
pub proof fn lines_are_mapped(p: driver::PumpView, line: Seq<char>)
    ensures
        text::trim(line).len() == 0 ==> driver::step(p, InputView::Line(line)) == (
            p,
            Seq::<EffectView>::empty(),
            None::<EndView>,
        ),
        text::trim(line).len() > 0 && json::reading(line) is Ok ==> ({
            let (m, outcome) = stream_json::step(p.mapper, json::reading(line)->Ok_0);
            let (q, effects, end) = driver::step(p, InputView::Line(line));
            &&& q.mapper == m
            &&& q.session_id == p.session_id
            &&& q.unparsable == 0
            &&& turn::emitted(effects) == stream_json::events_of(outcome)
            &&& history(effects) == updates(stream_json::events_of(outcome), true).map_values(
                |u: JsonView| (p.session_id, u),
            )
            &&& match outcome {
                OutcomeView::Finished { finish, .. } => if m.background
                    == Set::<Seq<char>>::empty() && m.sub_background == Set::<Seq<char>>::empty() {
                    end == Some(EndView::Finished(finish)) && q.deferred == p.deferred
                } else {
                    end is None && q.deferred == Some(finish)
                },
                _ => end is None && q.deferred == p.deferred,
            }
        }),
        text::trim(line).len() > 0 && json::reading(line) is Err ==> ({
            let (q, effects, end) = driver::step(p, InputView::Line(line));
            &&& effects.len() == 0
            &&& q.mapper == p.mapper
            &&& p.unparsable < 49 ==> q.unparsable == p.unparsable + 1 && end is None
            &&& p.unparsable >= 49 ==> end == Some(
                EndView::Protocol(text::shortened(line, 2048)),
            )
        }),
{
    if text::trim(line).len() > 0 {
        if let Ok(v) = json::reading(line) {
            let events = stream_json::events_of(stream_json::step(p.mapper, v).1);
            viewers_get_every_event(
                RecordView { session_id: None, prompt_recorded: false },
                p.session_id,
                events,
            );
            history_holds_every_update(p.session_id, events);
        }
    }
}

/// The end of the output is the end that a result told, where one was put off, and an early
/// end otherwise; a cancel and a disconnect end the exchange as such.
pub proof fn exchanges_end(p: driver::PumpView)
    ensures
        driver::step(p, InputView::Closed).2 == Some(
            match p.deferred {
                Some(f) => EndView::Finished(f),
                None => EndView::Eof,
            },
        ),
        driver::step(p, InputView::Closed).1.len() == 0,
        driver::step(p, InputView::Cancel) == (
            p,
            Seq::<EffectView>::empty(),
            Some(EndView::Cancelled),
        ),
        driver::step(p, InputView::Disconnect) == (
            p,
            Seq::<EffectView>::empty(),
            Some(EndView::Disconnected),
        ),
        driver::step(p, InputView::Other) == (p, Seq::<EffectView>::empty(), None::<EndView>),
{
}

/// The arguments of a process: how it talks, that it asks for no permission, the session it
/// goes on with or begins, and the model where one is chosen.
pub proof fn processes_are_started_with(session: Seq<char>, model: Seq<char>)
    requires
        model.len() > 0,
    ensures
        driver::args(session, true, None) == seq![
            "-p"@,
            "--verbose"@,
            "--input-format"@,
            "stream-json"@,
            "--output-format"@,
            "stream-json"@,
            "--include-partial-messages"@,
            "--permission-mode"@,
            "bypassPermissions"@,
            "--resume"@,
            session,
        ],
        driver::args(session, false, Some(model)) == seq![
            "-p"@,
            "--verbose"@,
            "--input-format"@,
            "stream-json"@,
            "--output-format"@,
            "stream-json"@,
            "--include-partial-messages"@,
            "--permission-mode"@,
            "bypassPermissions"@,
            "--session-id"@,
            session,
            "--model"@,
            model,
        ],
        driver::args(session, true, Some(Seq::empty())) == driver::args(session, true, None),
{
}

/// A prompt is handed over block by block: text as it is, an image with its type and data, a
/// resource under its address, and a link as a link.
pub proof fn prompts_are_handed_over(s: Seq<char>, b: BlockView)
    ensures
        driver::content(BlockView::Text { text: s }) == JsonView::Object(
            seq![("type"@, JsonView::Str("text"@)), ("text"@, JsonView::Str(s))],
        ),
        b matches BlockView::Image { data: d, mime_type: m, .. } ==> driver::content(b)
            == JsonView::Object(
            seq![
                ("type"@, JsonView::Str("image"@)),
                (
                    "source"@,
                    JsonView::Object(
                        seq![
                            ("type"@, JsonView::Str("base64"@)),
                            ("media_type"@, JsonView::Str(m)),
                            ("data"@, JsonView::Str(d)),
                        ],
                    ),
                ),
            ],
        ),
        b matches BlockView::Resource { uri: u, text: Some(t), .. } ==> driver::content(b)
            == driver::content(BlockView::Text { text: "["@ + u + "]\n"@ + t }),
        b matches BlockView::Resource { uri: u, text: None, blob: None, .. } ==> driver::content(b)
            == driver::content(BlockView::Text { text: "["@ + u + "]"@ }),
        b matches BlockView::ResourceLink { uri: u, name: n, .. } ==> driver::content(b)
            == driver::content(BlockView::Text { text: "["@ + n + "]("@ + u + ")"@ }),
        b matches BlockView::Resource { uri: u, text: None, blob: Some(d), mime_type: Some(m) }
            ==> driver::content(b) == (if text::begins(m, "image/"@) {
            driver::content(BlockView::Image { data: d, mime_type: m, uri: None })
        } else {
            driver::content(BlockView::Text { text: "["@ + u + "]"@ })
        }),
{
    assert(driver::text_value(s)->Object_0 =~= seq![
        ("type"@, JsonView::Str("text"@)),
        ("text"@, JsonView::Str(s)),
    ]);
    if let BlockView::Image { data: d, mime_type: m, .. } = b {
        let inner = seq![
            ("type"@, JsonView::Str("base64"@)),
            ("media_type"@, JsonView::Str(m)),
            ("data"@, JsonView::Str(d)),
        ];
        assert(JsonView::empty_object().with("type"@, JsonView::Str("base64"@)).with(
            "media_type"@,
            JsonView::Str(m),
        ).with("data"@, JsonView::Str(d))->Object_0 =~= inner);
        assert(driver::image_value(d, m)->Object_0 =~= seq![
            ("type"@, JsonView::Str("image"@)),
            ("source"@, JsonView::Object(inner)),
        ]);
    }
}

/// The message of a prompt holds every block of it, in order.
pub proof fn messages_hold_every_block(blocks: Seq<BlockView>)
    ensures
        driver::user_message(blocks) == JsonView::Object(
            seq![
                ("type"@, JsonView::Str("user"@)),
                (
                    "message"@,
                    JsonView::Object(
                        seq![
                            ("role"@, JsonView::Str("user"@)),
                            (
                                "content"@,
                                JsonView::Array(
                                    blocks.map_values(|b: BlockView| driver::content(b)),
                                ),
                            ),
                        ],
                    ),
                ),
            ],
        ),
{
    let all = JsonView::Array(blocks.map_values(|b: BlockView| driver::content(b)));
    let inner = seq![("role"@, JsonView::Str("user"@)), ("content"@, all)];
    assert(JsonView::empty_object().with("role"@, JsonView::Str("user"@)).with(
        "content"@,
        all,
    )->Object_0 =~= inner);
    assert(driver::user_message(blocks)->Object_0 =~= seq![
        ("type"@, JsonView::Str("user"@)),
        ("message"@, JsonView::Object(inner)),
    ]);
}

/// The companion of a turn is configured as a server that is run by its command; it is handed
/// over behind all other arguments.
pub proof fn companions_are_configured(
    session: Seq<char>,
    resume: bool,
    model: Option<Seq<char>>,
    companion: CompanionLaunchSpec,
)
    ensures
        driver::mcp_config(companion.command@, companion.args.deep_view()) == JsonView::Object(
            seq![
                (
                    "mcpServers"@,
                    JsonView::Object(
                        seq![
                            (
                                "codeg-mcp"@,
                                JsonView::Object(
                                    seq![
                                        ("type"@, JsonView::Str("stdio"@)),
                                        ("command"@, JsonView::Str(companion.command@)),
                                        (
                                            "args"@,
                                            JsonView::Array(
                                                Seq::new(
                                                    companion.args.deep_view().len(),
                                                    |i: int|
                                                        JsonView::Str(
                                                            companion.args.deep_view()[i],
                                                        ),
                                                ),
                                            ),
                                        ),
                                    ],
                                ),
                            ),
                        ],
                    ),
                ),
            ],
        ),
        driver::all_args(session, resume, model, Some(companion)) == driver::args(
            session,
            resume,
            model,
        ) + seq![
            "--mcp-config"@,
            json::written(driver::mcp_config(companion.command@, companion.args.deep_view())),
        ],
        driver::all_args(session, resume, model, None) == driver::args(session, resume, model),
{
    let given = companion.args.deep_view();
    let args = Seq::new(given.len(), |i: int| JsonView::Str(given[i]));
    assert(JsonView::strings(given)->Array_0 =~= args);
    let inner = JsonView::empty_object().with("type"@, JsonView::Str("stdio"@)).with(
        "command"@,
        JsonView::Str(companion.command@),
    ).with("args"@, JsonView::strings(given));
    assert(inner->Object_0 =~= seq![
        ("type"@, JsonView::Str("stdio"@)),
        ("command"@, JsonView::Str(companion.command@)),
        ("args"@, JsonView::Array(args)),
    ]);
    let servers = JsonView::empty_object().with("codeg-mcp"@, inner);
    assert(servers->Object_0 =~= seq![("codeg-mcp"@, inner)]);
    assert(driver::mcp_config(companion.command@, given)->Object_0 =~= seq![
        ("mcpServers"@, servers),
    ]);
}

/// The name of a tool is recorded behind everything else that is recorded of its call or of
/// the news of it.
pub proof fn names_of_tools_are_recorded(call: EventView, named: EventView, name: Seq<char>)
    requires
        name.len() > 0,
        call is ToolCall && call->ToolCall_tool_name is None && named is ToolCall
            && named->ToolCall_tool_name == Some(name) && named->ToolCall_tool_call_id
            == call->ToolCall_tool_call_id && named->ToolCall_title == call->ToolCall_title
            && named->ToolCall_kind == call->ToolCall_kind && named->ToolCall_status
            == call->ToolCall_status && named->ToolCall_raw_input == call->ToolCall_raw_input
            && named->ToolCall_locations == call->ToolCall_locations || (call is ToolCallUpdate
            && call->ToolCallUpdate_tool_name is None && named is ToolCallUpdate
            && named->ToolCallUpdate_tool_name == Some(name) && named->ToolCallUpdate_tool_call_id
            == call->ToolCallUpdate_tool_call_id && named->ToolCallUpdate_title
            == call->ToolCallUpdate_title && named->ToolCallUpdate_status
            == call->ToolCallUpdate_status && named->ToolCallUpdate_raw_input
            == call->ToolCallUpdate_raw_input && named->ToolCallUpdate_raw_output
            == call->ToolCallUpdate_raw_output),
    ensures
        transcript::transcript(call) matches Some(JsonView::Object(members))
            && transcript::transcript(named) == Some(
            JsonView::Object(
                members.push(
                    (
                        "_meta"@,
                        JsonView::Object(seq![("codeg.toolName"@, JsonView::Str(name))]),
                    ),
                ),
            ),
        ),
{
    let meta = JsonView::empty_object().with("codeg.toolName"@, JsonView::Str(name));
    assert(meta->Object_0 =~= seq![("codeg.toolName"@, JsonView::Str(name))]);
}

/// What cannot be read of a tool call is left out of what is recorded, and the rest is not.
pub proof fn what_is_missing_is_left_out(
    id: Seq<char>,
    title: Seq<char>,
    kind: Seq<char>,
    status: Seq<char>,
    shown: Seq<char>,
    output: JsonView,
)
    requires
        json::reading(shown) == Ok::<JsonView, Seq<char>>(output),
    ensures
        transcript::transcript(
            EventView::ToolCall {
                tool_name: None,
                description: None,
                tool_call_id: id,
                title,
                kind,
                status,
                content: None,
                raw_input: None,
                raw_output: None,
                locations: None,
                meta: None,
                images: None,
            },
        ) == Some(
            JsonView::Object(
                seq![
                    ("sessionUpdate"@, JsonView::Str("tool_call"@)),
                    ("toolCallId"@, JsonView::Str(id)),
                    ("title"@, JsonView::Str(title)),
                    ("kind"@, JsonView::Str(kind)),
                    ("status"@, JsonView::Str(status)),
                ],
            ),
        ),
        transcript::transcript(
            EventView::ToolCallUpdate {
                tool_name: None,
                description: None,
                tool_call_id: id,
                title: None,
                status: Some(status),
                content: None,
                raw_input: None,
                raw_output: Some(shown),
                raw_output_append: None,
                locations: None,
                meta: None,
                images: None,
            },
        ) == Some(
            JsonView::Object(
                seq![
                    ("sessionUpdate"@, JsonView::Str("tool_call_update"@)),
                    ("toolCallId"@, JsonView::Str(id)),
                    ("status"@, JsonView::Str(status)),
                    ("rawOutput"@, output),
                ],
            ),
        ),
{
    let call = EventView::ToolCall {
        tool_name: None,
        description: None,
        tool_call_id: id,
        title,
        kind,
        status,
        content: None,
        raw_input: None,
        raw_output: None,
        locations: None,
        meta: None,
        images: None,
    };
    assert(transcript::transcript(call)->0->Object_0 =~= seq![
        ("sessionUpdate"@, JsonView::Str("tool_call"@)),
        ("toolCallId"@, JsonView::Str(id)),
        ("title"@, JsonView::Str(title)),
        ("kind"@, JsonView::Str(kind)),
        ("status"@, JsonView::Str(status)),
    ]);
    let news = EventView::ToolCallUpdate {
        tool_name: None,
        description: None,
        tool_call_id: id,
        title: None,
        status: Some(status),
        content: None,
        raw_input: None,
        raw_output: Some(shown),
        raw_output_append: None,
        locations: None,
        meta: None,
        images: None,
    };
    assert(transcript::transcript(news)->0->Object_0 =~= seq![
        ("sessionUpdate"@, JsonView::Str("tool_call_update"@)),
        ("toolCallId"@, JsonView::Str(id)),
        ("status"@, JsonView::Str(status)),
        ("rawOutput"@, output),
    ]);
}

/// Of what a process writes to its error output the last lines are kept, as many as fit into
/// sixty-four kibibytes with their line breaks: they end what was written, and one line more
/// would not fit.
pub proof fn the_last_lines_are_kept(lines: Seq<Seq<char>>)
    ensures
        ({
            let kept = turn::last_fitting(lines);
            let n = lines.len() - kept.len();
            &&& 0 <= n
            &&& kept == lines.skip(n)
            &&& turn::total(kept) <= 65_536
            &&& n > 0 ==> turn::total(lines.skip(n - 1)) > 65_536
        }),
        turn::total(Seq::empty()) == 0,
        lines.len() > 0 ==> turn::total(lines) == turn::total(lines.drop_last()) + text::bytes(
            lines.last(),
        ) + 1,
    decreases lines.len(),
{
    if lines.len() > 0 && turn::total(lines) > 65_536 {
        let rest = lines.drop_first();
        the_last_lines_are_kept(rest);
        let kept = turn::last_fitting(rest);
        let n = rest.len() - kept.len();
        assert(rest.skip(n) =~= lines.skip(n + 1));
        if n > 0 {
            assert(rest.skip(n - 1) =~= lines.skip(n));
        } else {
            assert(lines.skip(0) =~= lines);
        }
    } else {
        assert(lines.skip(0) =~= lines);
    }
}

} // verus!
