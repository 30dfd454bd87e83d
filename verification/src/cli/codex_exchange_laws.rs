//! What a Codex turn asks of the app server, and what it makes of the answers.
use vstd::prelude::*;
use crate::cli::attachments;
use crate::cli::attachments::{ApartView, PieceView};
use crate::cli::codex_driver;
use crate::cli::codex_driver::{ClientInfo, Deadline, Phase, PumpView};
use crate::cli::codex_stream;
use crate::cli::outcome::{ErrorView, OutcomeView};
use crate::cli::stream_json;
use crate::cli::turn;
use crate::cli::turn::{EffectView, EndView, InputView};
use crate::cli::turn_laws;
use crate::json;
use crate::json::JsonView;
use crate::text;

verus! {

/// A request as the server gets it.
pub open spec fn asks(id: u64, method: Seq<char>, params: JsonView) -> JsonView {
    JsonView::Object(
        seq![("id"@, JsonView::of_u64(id)), ("method"@, JsonView::Str(method)), ("params"@, params)],
    )
}

/// The form of a request.
proof fn requests_have_this_form(id: u64, method: Seq<char>, params: JsonView)
    ensures
        codex_driver::request(id, method, params) == asks(id, method, params),
{
    assert(codex_driver::request(id, method, params)->Object_0 =~= asks(id, method, params)->Object_0);
}

/// The exchange begins by presenting the client.
pub proof fn the_client_presents_itself(client: ClientInfo)
    ensures
        codex_driver::initialize(client) == asks(
            1,
            "initialize"@,
            JsonView::Object(
                seq![
                    (
                        "clientInfo"@,
                        JsonView::Object(
                            seq![
                                ("name"@, JsonView::Str(client.name@)),
                                ("title"@, JsonView::Str(client.title@)),
                                ("version"@, JsonView::Str(client.version@)),
                            ],
                        ),
                    ),
                    ("capabilities"@, JsonView::Null),
                ],
            ),
        ),
{
    let inner = seq![
        ("name"@, JsonView::Str(client.name@)),
        ("title"@, JsonView::Str(client.title@)),
        ("version"@, JsonView::Str(client.version@)),
    ];
    let who = JsonView::empty_object().with("name"@, JsonView::Str(client.name@)).with(
        "title"@,
        JsonView::Str(client.title@),
    ).with("version"@, JsonView::Str(client.version@));
    assert(who->Object_0 =~= inner);
    let params = JsonView::empty_object().with("clientInfo"@, who).with(
        "capabilities"@,
        JsonView::Null,
    );
    assert(params->Object_0 =~= seq![
        ("clientInfo"@, JsonView::Object(inner)),
        ("capabilities"@, JsonView::Null),
    ]);
    requests_have_this_form(1, "initialize"@, params);
}

/// The thread is opened in the working directory, without approvals and without a sandbox
/// within the container: a session that is known is resumed, any other begins. A model that
/// is chosen is asked for.
pub proof fn the_thread_is_opened(session: Seq<char>, cwd: Seq<char>, model: Seq<char>)
    requires
        text::trim(model).len() > 0,
    ensures
        codex_driver::open_thread(None, cwd, None) == asks(
            2,
            "thread/start"@,
            JsonView::Object(
                seq![
                    ("cwd"@, JsonView::Str(cwd)),
                    ("approvalPolicy"@, JsonView::Str("never"@)),
                    ("sandbox"@, JsonView::Str("danger-full-access"@)),
                ],
            ),
        ),
        codex_driver::open_thread(Some(session), cwd, Some(model)) == asks(
            2,
            "thread/resume"@,
            JsonView::Object(
                seq![
                    ("cwd"@, JsonView::Str(cwd)),
                    ("approvalPolicy"@, JsonView::Str("never"@)),
                    ("sandbox"@, JsonView::Str("danger-full-access"@)),
                    ("model"@, JsonView::Str(model)),
                    ("threadId"@, JsonView::Str(session)),
                ],
            ),
        ),
{
    let bare = codex_driver::open_params(None, cwd, None);
    assert(bare->Object_0 =~= seq![
        ("cwd"@, JsonView::Str(cwd)),
        ("approvalPolicy"@, JsonView::Str("never"@)),
        ("sandbox"@, JsonView::Str("danger-full-access"@)),
    ]);
    requests_have_this_form(2, "thread/start"@, bare);
    let full = codex_driver::open_params(Some(session), cwd, Some(model));
    assert(full->Object_0 =~= seq![
        ("cwd"@, JsonView::Str(cwd)),
        ("approvalPolicy"@, JsonView::Str("never"@)),
        ("sandbox"@, JsonView::Str("danger-full-access"@)),
        ("model"@, JsonView::Str(model)),
        ("threadId"@, JsonView::Str(session)),
    ]);
    requests_have_this_form(2, "thread/resume"@, full);
}

/// The turn is started on the thread, with the whole input; it is interrupted by its id.
pub proof fn the_turn_is_started(thread: Seq<char>, turn_id: Seq<char>, input: JsonView, model: Seq<char>)
    requires
        text::trim(model).len() > 0,
    ensures
        codex_driver::start_turn(thread, input, None) == asks(
            3,
            "turn/start"@,
            JsonView::Object(seq![("threadId"@, JsonView::Str(thread)), ("input"@, input)]),
        ),
        codex_driver::start_turn(thread, input, Some(model)) == asks(
            3,
            "turn/start"@,
            JsonView::Object(
                seq![
                    ("threadId"@, JsonView::Str(thread)),
                    ("input"@, input),
                    ("model"@, JsonView::Str(model)),
                ],
            ),
        ),
        codex_driver::interrupt(thread, turn_id) == asks(
            4,
            "turn/interrupt"@,
            JsonView::Object(
                seq![("threadId"@, JsonView::Str(thread)), ("turnId"@, JsonView::Str(turn_id))],
            ),
        ),
{
    let base = JsonView::empty_object().with("threadId"@, JsonView::Str(thread)).with(
        "input"@,
        input,
    );
    assert(base->Object_0 =~= seq![("threadId"@, JsonView::Str(thread)), ("input"@, input)]);
    requests_have_this_form(3, "turn/start"@, base);
    let full = base.with("model"@, JsonView::Str(model));
    assert(full->Object_0 =~= seq![
        ("threadId"@, JsonView::Str(thread)),
        ("input"@, input),
        ("model"@, JsonView::Str(model)),
    ]);
    requests_have_this_form(3, "turn/start"@, full);
    let stop = JsonView::empty_object().with("threadId"@, JsonView::Str(thread)).with(
        "turnId"@,
        JsonView::Str(turn_id),
    );
    assert(stop->Object_0 =~= seq![
        ("threadId"@, JsonView::Str(thread)),
        ("turnId"@, JsonView::Str(turn_id)),
    ]);
    requests_have_this_form(4, "turn/interrupt"@, stop);
}

/// A message that names a method and no id is a notification; one with an id and no method
/// answers the request of that id; one with both is a request of the server.
pub proof fn messages_are_told_apart(msg: JsonView, n: u64)
    ensures
        msg.get("id"@) is None && msg.get("method"@) is Some ==> codex_driver::classified(msg)
            == codex_driver::MessageView::Notification,
        msg.get("id"@) == Some(JsonView::of_u64(n)) && msg.get("method"@) is None
            ==> codex_driver::classified(msg) == codex_driver::MessageView::Response(n),
        msg.get("id"@) is Some && msg.get("method"@) is Some ==> codex_driver::classified(msg)
            == codex_driver::MessageView::ServerRequest(msg.get("id"@)->0),
{
}

/// A notification is shown and recorded as its events, and ends the exchange where it ends
/// the turn.
pub proof fn notifications_are_mapped(p: PumpView, line: Seq<char>, msg: JsonView)
    requires
        text::trim(line).len() > 0,
        json::reading(line) == Ok::<JsonView, Seq<char>>(msg),
        msg.get("id"@) is None,
        msg.get("method"@) is Some,
    ensures
        ({
            let (m, outcome) = codex_stream::step(p.mapper, msg);
            let (q, effects, end) = codex_driver::step(p, InputView::Line(line));
            &&& q.mapper == m
            &&& q.unparsable == 0
            &&& q.phase == p.phase
            &&& turn::emitted(effects) == stream_json::events_of(outcome)
            &&& match outcome {
                OutcomeView::Finished { finish, .. } => end == Some(EndView::Finished(finish)),
                _ => end is None,
            }
        }),
{
    let outcome = codex_stream::step(p.mapper, msg).1;
    turn_laws::viewers_get_every_event(p.record, Seq::empty(), stream_json::events_of(outcome));
}

/// The handshake goes on step by step: the answer to the presentation opens the thread, and
/// the answer to the start of the turn lets it stream under the id that it names, without a
/// deadline.
pub proof fn the_handshake_goes_on(p: PumpView, line: Seq<char>, msg: JsonView, t: Seq<char>)
    requires
        text::trim(line).len() > 0,
        json::reading(line) == Ok::<JsonView, Seq<char>>(msg),
        msg.get("method"@) is None,
        msg.get("error"@) is None,
    ensures
        ({
            let (q, effects, end) = codex_driver::step(p, InputView::Line(line));
            &&& msg.get("id"@) == Some(JsonView::of_u64(1)) && p.phase == Phase::Initializing ==> {
                &&& end is None
                &&& q.phase == Phase::OpeningThread
                &&& effects == seq![
                    EffectView::Send {
                        payload: JsonView::Object(
                            seq![("method"@, JsonView::Str("initialized"@))],
                        ),
                        interrupt: false,
                    },
                    EffectView::Send {
                        payload: codex_driver::open_thread(p.record.session_id, p.cwd, p.model),
                        interrupt: false,
                    },
                ]
            }
            &&& msg.get("id"@) == Some(JsonView::of_u64(3)) && p.phase == Phase::StartingTurn
                && msg.at("result"@).at("turn"@).at("id"@) == JsonView::Str(t) ==> {
                &&& end is None
                &&& effects.len() == 0
                &&& q.phase == Phase::Streaming
                &&& q.deadline == Deadline::Open
                &&& q.turn_id == Some(t)
                &&& q.mapper.turn_id == Some(t)
            }
        }),
{
    assert(codex_driver::initialized()->Object_0 =~= seq![
        ("method"@, JsonView::Str("initialized"@)),
    ]);
}

/// A request that the server refuses fails the turn with the words of the server: a session
/// that it does not know as one that cannot be resumed.
pub proof fn refusals_fail_the_turn(p: PumpView, line: Seq<char>, msg: JsonView, id: u64, s: Seq<char>)
    requires
        text::trim(line).len() > 0,
        json::reading(line) == Ok::<JsonView, Seq<char>>(msg),
        msg.get("method"@) is None,
        msg.get("id"@) == Some(JsonView::of_u64(id)),
        msg.get("error"@) is Some,
        msg.get("error"@)->0.at("message"@) == JsonView::Str(s),
        s.len() > 0,
    ensures
        ({
            let (q, effects, end) = codex_driver::step(p, InputView::Line(line));
            let unknown = text::contains(text::lower(s), "not found"@) || text::contains(
                text::lower(s),
                "no rollout"@,
            );
            &&& effects.len() == 0
            &&& id == 4 ==> end is None
            &&& id != 4 ==> (end matches Some(EndView::Failed(e)) && e.message == s && e.code
                == if id == 2 && unknown {
                "cli_resume_failed"@
            } else if id == 1 {
                "cli_protocol"@
            } else {
                "cli_execution_error"@
            })
        }),
{
}

/// A handshake that takes too long fails the turn; a turn that was interrupted and does not
/// end is cancelled. A process that takes no more input fails the turn, unless it was the
/// interruption that it did not take.
pub proof fn silence_ends_the_turn(p: PumpView, error: Seq<char>)
    ensures
        codex_driver::step(p, InputView::Timeout).2 == Some(
            if p.phase == Phase::Interrupting {
                EndView::Cancelled
            } else {
                EndView::Failed(
                    ErrorView {
                        code: "cli_handshake_timeout"@,
                        message: "Codex did not start the turn within 60s"@,
                        details: None,
                    },
                )
            },
        ),
        codex_driver::step(p, InputView::SendFailed { error, interrupt: false }).2 == Some(
            EndView::Failed(
                ErrorView {
                    code: "cli_exited"@,
                    message: "Codex stopped reading its input: "@ + error,
                    details: None,
                },
            ),
        ),
        codex_driver::step(p, InputView::SendFailed { error, interrupt: true }).2 == Some(
            EndView::Cancelled,
        ),
        codex_driver::step(p, InputView::Closed).2 == Some(EndView::Eof),
        p.phase != Phase::Interrupting ==> codex_driver::step(p, InputView::Disconnect).2 == Some(
            EndView::Disconnected,
        ),
{
    reveal_strlit("Codex did not start the turn within ");
    reveal_strlit("s");
    reveal_strlit("Codex did not start the turn within 60s");
    reveal_with_fuel(text::dec, 3);
    assert(text::dec(60) =~= seq!['6', '0']);
    assert("Codex did not start the turn within "@ + text::dec(60) + "s"@
        =~= "Codex did not start the turn within 60s"@);
}

/// A cancel before the turn runs ends the exchange at once.
pub proof fn early_cancels_end_at_once(p: PumpView)
    requires
        p.phase != Phase::Interrupting,
        p.turn_id is None || p.thread_id is None,
    ensures
        codex_driver::step(p, InputView::Cancel) == (
            p,
            Seq::<EffectView>::empty(),
            Some(EndView::Cancelled),
        ),
{
}

/// The input of a turn holds every piece of the prompt, in order: texts as they are, files
/// by their path. A prompt without content and one that is too long are refused.
pub proof fn inputs_hold_every_piece(a: ApartView, s: Seq<char>, path: Seq<char>)
    ensures
        codex_driver::input_item(PieceView::Text(s)) == JsonView::Object(
            seq![
                ("type"@, JsonView::Str("text"@)),
                ("text"@, JsonView::Str(s)),
                ("text_elements"@, JsonView::Array(Seq::empty())),
            ],
        ),
        codex_driver::input_item(PieceView::File(path)) == JsonView::Object(
            seq![("type"@, JsonView::Str("localImage"@)), ("path"@, JsonView::Str(path))],
        ),
        a.error is Some ==> codex_driver::input(a) == Err::<JsonView, ErrorView>(a.error->0),
        a.error is None && a.pieces.len() == 0 ==> (codex_driver::input(a) matches Err(e) && e.code
            == "invalid_params"@),
        a.error is None && codex_driver::text_bytes(a.pieces) > 524288 ==> (
        codex_driver::input(a) matches Err(e) && e.code == if a.pieces.len() == 0 {
            "invalid_params"@
        } else {
            "prompt_too_large"@
        }),
        a.error is None && a.pieces.len() > 0 && codex_driver::text_bytes(a.pieces)
            <= 524288 ==> (codex_driver::input(a) matches Ok(
            JsonView::Array(items),
        ) && items.len() == a.pieces.len() && forall|i: int|
            0 <= i < items.len() ==> items[i] == #[trigger] codex_driver::input_item(a.pieces[i])),
{
    assert(codex_driver::input_item(PieceView::Text(s))->Object_0 =~= seq![
        ("type"@, JsonView::Str("text"@)),
        ("text"@, JsonView::Str(s)),
        ("text_elements"@, JsonView::Array(Seq::empty())),
    ]);
    assert(codex_driver::input_item(PieceView::File(path))->Object_0 =~= seq![
        ("type"@, JsonView::Str("localImage"@)),
        ("path"@, JsonView::Str(path)),
    ]);
}

/// A prompt is taken apart block by block: each text that is not blank becomes a piece behind
/// the others, and each image a file.
pub proof fn prompts_are_taken_apart(
    blocks: Seq<crate::cli::prompt::BlockView>,
    block: crate::cli::prompt::BlockView,
    dir: Seq<char>,
    existing: Seq<bool>,
    s: Seq<char>,
)
    requires
        attachments::apart(blocks, dir, existing).error is None,
        block == (crate::cli::prompt::BlockView::Text { text: s }),
    ensures
        ({
            let before = attachments::apart(blocks, dir, existing);
            let now = attachments::apart(blocks.push(block), dir, existing);
            &&& now.error is None
            &&& now.writes == before.writes
            &&& now.pieces == if text::trim(s).len() > 0 {
                before.pieces.push(PieceView::Text(s))
            } else {
                before.pieces
            }
        }),
{
    assert(blocks.push(block).drop_last() =~= blocks);
}

} // verus!
