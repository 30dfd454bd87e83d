//! How a Codex turn and a DeepSeek Harness turn are run.
use vstd::prelude::*;
use crate::cli::attachments::PieceView;
use crate::cli::codex_driver;
use crate::cli::codex_driver::{Deadline, Phase, PumpView};
use crate::cli::codex_exchange_laws;
use crate::cli::codex_stream;
use crate::cli::dsh_driver;
use crate::cli::dsh_stream;
use crate::cli::outcome::OutcomeView;
use crate::cli::prompt::CompanionLaunchSpec;
use crate::cli::turn;
use crate::cli::turn::{EffectView, EndView, InputView};
use crate::events::EventView;
use crate::json;
use crate::json::JsonView;
use crate::text;

verus! {

/// A message of the server, as a line.
pub open spec fn says(line: Seq<char>, msg: JsonView) -> bool {
    text::trim(line).len() > 0 && json::reading(line) == Ok::<JsonView, Seq<char>>(msg)
}

/// A thread that was opened is entered: it is the session of the turn, which is announced
/// where it is another than the known one, and the turn is started in it with its input.
pub proof fn threads_are_entered(p: PumpView, line: Seq<char>, msg: JsonView, id: Seq<char>)
    requires
        says(line, msg),
        msg.get("method"@) is None,
        msg.get("error"@) is None,
        msg.get("id"@) == Some(JsonView::of_u64(2)),
        p.phase == Phase::OpeningThread,
        msg.at("result"@).at("thread"@).at("id"@) == JsonView::Str(id),
        id.len() > 0,
    ensures
        ({
            let (q, effects, end) = codex_driver::step(p, InputView::Line(line));
            let start = EffectView::Send {
                payload: codex_driver::start_turn(id, p.input, p.model),
                interrupt: false,
            };
            let new = EventView::SessionStarted { session_id: id };
            &&& end is None
            &&& q.thread_id == Some(id)
            &&& q.phase == Phase::StartingTurn
            &&& q.record.session_id == Some(id)
            &&& p.record.session_id == Some(id) ==> effects == seq![start]
            &&& p.record.session_id != Some(id) && p.record.prompt_recorded ==> effects == seq![
                EffectView::Emit(new),
                start,
            ]
            &&& p.record.session_id != Some(id) && !p.record.prompt_recorded ==> effects == seq![
                EffectView::RecordStart { session_id: id },
                EffectView::Emit(new),
                start,
            ]
        }),
{
    let (q, effects, end) = codex_driver::step(p, InputView::Line(line));
    let start = EffectView::Send {
        payload: codex_driver::start_turn(id, p.input, p.model),
        interrupt: false,
    };
    if p.record.session_id == Some(id) {
        assert(effects =~= seq![start]);
    }
}

/// A thread without an id is an error of the server.
pub proof fn threads_need_an_id(p: PumpView, line: Seq<char>, msg: JsonView)
    requires
        says(line, msg),
        msg.get("method"@) is None,
        msg.get("error"@) is None,
        msg.get("id"@) == Some(JsonView::of_u64(2)),
        p.phase == Phase::OpeningThread,
        !(msg.at("result"@).at("thread"@).at("id"@) is Str),
    ensures
        ({
            let (q, effects, end) = codex_driver::step(p, InputView::Line(line));
            &&& effects.len() == 0
            &&& end matches Some(EndView::Failed(e)) && e.code == "cli_protocol"@ && e.message
                == "Codex opened a thread without an id"@ && e.details == Some(
                text::shortened(json::written(msg.at("result"@)), 2048),
            )
        }),
{
}

/// What the server asks is refused under the id of its request, and the turn goes on.
pub proof fn requests_of_the_server_are_refused(
    p: PumpView,
    line: Seq<char>,
    msg: JsonView,
    id: JsonView,
)
    requires
        says(line, msg),
        msg.get("method"@) is Some,
        msg.get("id"@) == Some(id),
    ensures
        ({
            let (q, effects, end) = codex_driver::step(p, InputView::Line(line));
            &&& end is None
            &&& q == PumpView { unparsable: 0, ..p }
            &&& effects.len() == 1
            &&& effects[0] matches EffectView::Send { payload, interrupt } && !interrupt && payload
                == JsonView::Object(
                seq![
                    ("id"@, id),
                    (
                        "error"@,
                        JsonView::Object(
                            seq![
                                ("code"@, codex_driver::method_not_found()),
                                (
                                    "message"@,
                                    JsonView::Str(
                                        "not supported by codeg: this session runs without approvals"@,
                                    ),
                                ),
                            ],
                        ),
                    ),
                ],
            )
        }),
        codex_driver::method_not_found().as_i64() == Some(-32601i64),
{
    let why = JsonView::empty_object().with("code"@, codex_driver::method_not_found()).with(
        "message"@,
        JsonView::Str("not supported by codeg: this session runs without approvals"@),
    );
    assert(why->Object_0 =~= seq![
        ("code"@, codex_driver::method_not_found()),
        (
            "message"@,
            JsonView::Str("not supported by codeg: this session runs without approvals"@),
        ),
    ]);
    assert(codex_driver::refusal(id)->Object_0 =~= seq![("id"@, id), ("error"@, why)]);
}

/// A turn that runs is cancelled by interrupting it: the server is told, and gets its time to
/// end the turn. While that goes on nothing more is asked of it.
pub proof fn running_turns_are_interrupted(p: PumpView, thread: Seq<char>, turn_id: Seq<char>)
    requires
        p.thread_id == Some(thread),
        p.turn_id == Some(turn_id),
    ensures
        p.phase != Phase::Interrupting ==> codex_driver::step(p, InputView::Cancel) == (
            PumpView { phase: Phase::Interrupting, deadline: Deadline::Interrupt, ..p },
            seq![
                EffectView::Send {
                    payload: codex_exchange_laws::asks(
                        4,
                        "turn/interrupt"@,
                        JsonView::Object(
                            seq![
                                ("threadId"@, JsonView::Str(thread)),
                                ("turnId"@, JsonView::Str(turn_id)),
                            ],
                        ),
                    ),
                    interrupt: true,
                },
            ],
            None::<EndView>,
        ),
        p.phase == Phase::Interrupting ==> codex_driver::step(p, InputView::Cancel) == (
            p,
            Seq::<EffectView>::empty(),
            None::<EndView>,
        ) && codex_driver::step(p, InputView::Disconnect) == (
            p,
            Seq::<EffectView>::empty(),
            None::<EndView>,
        ),
{
    let params = JsonView::empty_object().with("threadId"@, JsonView::Str(thread)).with(
        "turnId"@,
        JsonView::Str(turn_id),
    );
    assert(params->Object_0 =~= seq![
        ("threadId"@, JsonView::Str(thread)),
        ("turnId"@, JsonView::Str(turn_id)),
    ]);
    assert(codex_driver::interrupt(thread, turn_id)->Object_0 =~= codex_exchange_laws::asks(
        4,
        "turn/interrupt"@,
        JsonView::Object(
            seq![("threadId"@, JsonView::Str(thread)), ("turnId"@, JsonView::Str(turn_id))],
        ),
    )->Object_0);
}

/// Lines that cannot be read are counted, and the fiftieth in a row ends the turn; a blank
/// line is none, and one that can be read starts the count anew.
pub proof fn odd_lines_are_counted(p: PumpView, line: Seq<char>)
    ensures
        text::trim(line).len() == 0 ==> codex_driver::step(p, InputView::Line(line)) == (
            p,
            Seq::<EffectView>::empty(),
            None::<EndView>,
        ),
        text::trim(line).len() > 0 && json::reading(line) is Err && p.unparsable < 49
            ==> codex_driver::step(p, InputView::Line(line)) == (
            PumpView { unparsable: p.unparsable + 1, ..p },
            Seq::<EffectView>::empty(),
            None::<EndView>,
        ),
        text::trim(line).len() > 0 && json::reading(line) is Err && p.unparsable >= 49
            ==> codex_driver::step(p, InputView::Line(line)).2 == Some(
            EndView::Protocol(text::shortened(line, 2048)),
        ),
        text::trim(line).len() > 0 && json::reading(line) is Ok ==> codex_driver::step(
            p,
            InputView::Line(line),
        ).0.unparsable == 0,
{
}

/// What a notification tells is recorded in the history as it is shown.
pub proof fn notifications_are_recorded(p: PumpView, line: Seq<char>, msg: JsonView)
    requires
        says(line, msg),
        msg.get("method"@) is Some,
        msg.get("id"@) is None,
    ensures
        ({
            let (q, effects, end) = codex_driver::step(p, InputView::Line(line));
            let told = match codex_stream::step(p.mapper, msg).1 {
                OutcomeView::Events(events) => events,
                OutcomeView::Finished { events, .. } => events,
                OutcomeView::Unparsable => Seq::empty(),
            };
            (q.record, effects) == turn::all_recorded(p.record, told)
        }),
{
}

/// What a line of a DeepSeek Harness turn tells is recorded in the history as it is shown.
pub proof fn lines_are_recorded(p: dsh_driver::PumpView, line: Seq<char>, msg: JsonView)
    requires
        says(line, msg),
    ensures
        ({
            let (q, effects, end) = dsh_driver::step(p, InputView::Line(line));
            let told = match dsh_stream::step(p.mapper, msg).1 {
                OutcomeView::Events(events) => events,
                OutcomeView::Finished { events, .. } => events,
                OutcomeView::Unparsable => Seq::empty(),
            };
            (q.record, effects) == turn::all_recorded(p.record, told)
        }),
        dsh_driver::step(p, InputView::Closed) == (
            p,
            Seq::<EffectView>::empty(),
            Some(EndView::Eof),
        ),
        dsh_driver::step(p, InputView::Cancel) == (
            p,
            Seq::<EffectView>::empty(),
            Some(EndView::Cancelled),
        ),
        dsh_driver::step(p, InputView::Disconnect) == (
            p,
            Seq::<EffectView>::empty(),
            Some(EndView::Disconnected),
        ),
        dsh_driver::step(p, InputView::Other) == (
            p,
            Seq::<EffectView>::empty(),
            None::<EndView>,
        ),
{
}

/// The server is started with the companion among its settings, where there is one.
pub proof fn the_server_is_started_with(companion: CompanionLaunchSpec)
    ensures
        codex_driver::server_args(None) == seq!["app-server"@],
        codex_driver::server_args(Some(companion)) == seq![
            "app-server"@,
            "-c"@,
            "mcp_servers."@ + "myclaw"@ + ".command="@ + json::written(
                JsonView::Str(companion.command@),
            ),
            "-c"@,
            "mcp_servers."@ + "myclaw"@ + ".args="@ + json::written(
                JsonView::Array(
                    Seq::new(
                        companion.args.deep_view().len(),
                        |i: int| JsonView::Str(companion.args.deep_view()[i]),
                    ),
                ),
            ),
        ],
{
    let given = companion.args.deep_view();
    let args = Seq::new(given.len(), |i: int| JsonView::Str(given[i]));
    assert(JsonView::strings(given)->Array_0 =~= args);
}

/// A request that the server refused fails the turn with what it said, and shows its answer.
pub proof fn refusals_are_shown(id: u64, error: JsonView)
    ensures
        codex_driver::refused(id, error).details == Some(
            text::shortened(json::written(error), 2048),
        ),
        !(error.at("message"@) is Str) ==> codex_driver::refused(id, error).message
            == "Codex rejected the request"@,
{
}

/// The size of a prompt is that of its texts in bytes; files do not count.
pub proof fn texts_make_up_the_size(pieces: Seq<PieceView>, s: Seq<char>, path: Seq<char>)
    ensures
        codex_driver::text_bytes(Seq::empty()) == 0,
        codex_driver::text_bytes(pieces.push(PieceView::Text(s))) == codex_driver::text_bytes(pieces)
            + vstd::utf8::encode_utf8(s).len(),
        codex_driver::text_bytes(pieces.push(PieceView::File(path))) == codex_driver::text_bytes(
            pieces,
        ),
{
    text::bytes_is_utf8_length(s);
    assert(pieces.push(PieceView::Text(s)).drop_last() =~= pieces);
    assert(pieces.push(PieceView::File(path)).drop_last() =~= pieces);
}

} // verus!
