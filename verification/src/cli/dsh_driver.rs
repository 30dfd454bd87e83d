//! The turns of DeepSeek Harness: one process per prompt, which prints one JSON
//! object per line. The first turn of a session learns its id from the output.
use vstd::prelude::*;
use crate::agents::DriverKind;
use crate::cli::dsh_prompt;
use crate::cli::dsh_stream;
use crate::cli::dsh_stream::{DshStreamMapper, DshView};
use crate::cli::outcome::{CliTurnError, ErrorView, FinishView, LineOutcome, OutcomeView};
use crate::cli::outcome::TurnFinish;
use crate::cli::turn;
use crate::cli::turn::{EffectView, EndView, InputView, RecordView, TurnEffect, TurnEnd};
use crate::cli::turn::{TurnInput, TurnRecord};
use crate::json;
use crate::json::JsonView;
use crate::text;

verus! {

/// The exchange with one DeepSeek Harness process.
pub struct DshPump {
    mapper: DshStreamMapper,
    record: TurnRecord,
    unparsable: usize,
}

/// The state of the exchange.
#[verifier::ext_equal]
pub struct PumpView {
    pub mapper: DshView,
    pub record: RecordView,
    pub unparsable: nat,
}

impl View for DshPump {
    type V = PumpView;

    closed spec fn view(&self) -> PumpView {
        PumpView {
            mapper: self.mapper@,
            record: self.record@,
            unparsable: self.unparsable as nat,
        }
    }
}

/// State, effects and end after a line that is not blank.
pub open spec fn on_line(p: PumpView, line: Seq<char>) -> (PumpView, Seq<EffectView>, Option<EndView>) {
    let (m, outcome) = dsh_stream::step_line(p.mapper, line);
    match outcome {
        OutcomeView::Events(events) => {
            let (r, effects) = turn::all_recorded(p.record, events);
            (PumpView { mapper: m, record: r, unparsable: 0 }, effects, None)
        },
        OutcomeView::Finished { events, finish } => {
            let (r, effects) = turn::all_recorded(p.record, events);
            (
                PumpView { mapper: m, record: r, ..p },
                effects,
                Some(EndView::Finished(finish)),
            )
        },
        OutcomeView::Unparsable => {
            let n = turn::one_more(p.unparsable);
            (PumpView { mapper: m, unparsable: n, ..p }, Seq::empty(), turn::given_up(n, line))
        },
    }
}

/// State, effects and end after one input.
pub open spec fn step(p: PumpView, input: InputView) -> (PumpView, Seq<EffectView>, Option<EndView>) {
    match input {
        InputView::Line(line) => if text::trim(line).len() == 0 {
            (p, Seq::empty(), None)
        } else {
            on_line(p, line)
        },
        InputView::Closed => (p, Seq::empty(), Some(EndView::Eof)),
        InputView::Cancel => (p, Seq::empty(), Some(EndView::Cancelled)),
        InputView::Disconnect => (p, Seq::empty(), Some(EndView::Disconnected)),
        _ => (p, Seq::empty(), None),
    }
}

/// The arguments of a turn, or why it cannot be started. `patch` tells where the
/// patch of the turn was written, or why that failed.
pub fn prepare_turn(
    prompt: Result<String, CliTurnError>,
    patch: Result<String, String>,
    session: Option<&str>,
) -> (r: Result<Vec<String>, CliTurnError>)
    ensures
        match r {
            Ok(list) => prompt is Ok && patch is Ok && list.deep_view() == dsh_prompt::args(
                patch->Ok_0@,
                session.deep_view(),
                prompt->Ok_0@,
            ),
            Err(e) => match prompt {
                Err(refused) => e@ == refused@,
                Ok(_) => patch is Err && e@ == (ErrorView {
                    code: "dsh_profile_failed"@,
                    message: patch->Err_0@,
                    details: None,
                }),
            },
        },
{
    match prompt {
        Err(e) => Err(e),
        Ok(prompt) => match patch {
            Ok(path) => Ok(dsh_prompt::build_args(path.as_str(), session, prompt.as_str())),
            Err(message) => Err(
                CliTurnError { code: "dsh_profile_failed", message, details: None },
            ),
        },
    }
}

/// How the end of the exchange ends the turn. Output that told the end of the turn
/// but lost its `final` line still has that outcome.
pub open spec fn concluded(p: PumpView, end: EndView, status: Seq<char>, tail: Seq<char>) -> (
    FinishView,
    bool,
) {
    if end is Eof && p.mapper.pending_finish is Some {
        (p.mapper.pending_finish->0, false)
    } else {
        turn::concluded(DriverKind::Dsh, end, status, tail)
    }
}

impl DshPump {
    /// The exchange with a process that was just started.
    pub fn new(record: TurnRecord, working_dir: &str, context_window: Option<u64>) -> (r: DshPump)
        ensures
            r@ == (PumpView {
                mapper: DshView {
                    session_id: record@.session_id,
                    cwd: Some(working_dir@),
                    context_window,
                    saw_text: false,
                    last_step_usage: None,
                    pending_finish: None,
                },
                record: record@,
                unparsable: 0,
            }),
    {
        let mapper = DshStreamMapper::new(
            text::copied(&record.session_id),
            Some(working_dir.to_owned()),
            context_window,
        );
        DshPump { mapper, record, unparsable: 0 }
    }

    /// Takes one input; tells what to do and whether the exchange has ended.
    pub fn on_input(&mut self, input: TurnInput) -> (r: (Vec<TurnEffect>, Option<TurnEnd>))
        ensures
            (final(self)@, r.0.deep_view(), r.1.deep_view()) == step(old(self)@, input@),
    {
        match input {
            TurnInput::Line(line) => {
                if text::trimmed(line.as_str()).as_str().is_empty() {
                    return (turn::nothing(), None);
                }
                match self.mapper.map_line(line.as_str()) {
                    LineOutcome::Events(events) => {
                        self.unparsable = 0;
                        (self.record.record_all(events), None)
                    },
                    LineOutcome::Finished { events, finish } => {
                        (self.record.record_all(events), Some(TurnEnd::Finished(finish)))
                    },
                    LineOutcome::Unparsable => {
                        let end = turn::count_unparsable(&mut self.unparsable, line.as_str());
                        (turn::nothing(), end)
                    },
                }
            },
            TurnInput::Closed => (turn::nothing(), Some(TurnEnd::Eof)),
            TurnInput::Cancel => (turn::nothing(), Some(TurnEnd::Cancelled)),
            TurnInput::Disconnect => (turn::nothing(), Some(TurnEnd::Disconnected)),
            _ => (turn::nothing(), None),
        }
    }

    /// How the end of the exchange ends the turn, and whether the connection
    /// closes.
    pub fn conclude(&mut self, end: TurnEnd, status: &str, tail: &str) -> (r: (TurnFinish, bool))
        ensures
            (r.0@, r.1) == concluded(old(self)@, end@, status@, tail@),
            final(self)@ == (if end@ is Eof {
                PumpView {
                    mapper: DshView { pending_finish: None, ..old(self)@.mapper },
                    ..old(self)@
                }
            } else {
                old(self)@
            }),
    {
        if let TurnEnd::Eof = end {
            if let Some(finish) = self.mapper.take_pending_finish() {
                return (finish, false);
            }
        }
        turn::conclude(DriverKind::Dsh, end, status, tail)
    }

    /// The session that the turn records to, once it is known.
    pub fn session_id(&self) -> (r: Option<&str>)
        ensures
            r.deep_view() == self@.record.session_id,
    {
        text::borrowed(&self.record.session_id)
    }
}

/// Effects and end of an exchange that takes the inputs one after the other, up to
/// the one that ends it.
pub open spec fn run(p: PumpView, inputs: Seq<InputView>) -> (Seq<EffectView>, Option<EndView>)
    decreases inputs.len(),
{
    if inputs.len() == 0 {
        (Seq::empty(), None)
    } else {
        let (q, effects, end) = step(p, inputs[0]);
        if end is Some {
            (effects, end)
        } else {
            let rest = run(q, inputs.drop_first());
            (effects + rest.0, rest.1)
        }
    }
}

/// No input completes the turn or changes the status by itself.
proof fn step_is_quiet(p: PumpView, input: InputView)
    ensures
        turn::plain(step(p, input).1),
{
    if let InputView::Line(line) = input {
        match json::parsed(line) {
            Some(v) => {
                let o = dsh_stream::step(p.mapper, v).1;
                match o {
                    OutcomeView::Events(e) => {
                        assert(turn::quiet(e));
                        turn::recording_is_quiet(p.record, e);
                    },
                    OutcomeView::Finished { events, .. } => {
                        assert(turn::quiet(events));
                        turn::recording_is_quiet(p.record, events);
                    },
                    OutcomeView::Unparsable => {},
                }
            },
            None => {},
        }
    }
}

/// The exchange completes no turn and changes no status by itself.
proof fn run_is_quiet(p: PumpView, inputs: Seq<InputView>)
    ensures
        turn::plain(run(p, inputs).0),
        turn::completions(run(p, inputs).0) == 0,
    decreases inputs.len(),
{
    if inputs.len() > 0 {
        let (q, effects, end) = step(p, inputs[0]);
        step_is_quiet(p, inputs[0]);
        if end is None {
            run_is_quiet(q, inputs.drop_first());
            turn::plain_adds_up(effects, run(q, inputs.drop_first()).0);
        }
    }
    turn::plain_completes_nothing(run(p, inputs).0);
}

/// Every turn ends with exactly one `TurnComplete`: whatever comes in and however
/// the exchange ends, all effects of the turn together hold one.
pub proof fn turn_completes_once(
    user: Option<(Seq<char>, JsonView)>,
    known: Option<Seq<char>>,
    p: PumpView,
    inputs: Seq<InputView>,
    finish: FinishView,
    session: Option<Seq<char>>,
    external: Option<Seq<char>>,
    agent_type: Seq<char>,
    duration_ms: u64,
    model: Option<Seq<char>>,
    disconnect: bool,
)
    ensures
        turn::completions(
            turn::beginning(user, known) + run(p, inputs).0 + turn::ending(
                finish,
                session,
                external,
                agent_type,
                duration_ms,
                model,
                disconnect,
            ),
        ) == 1,
{
    let a = turn::beginning(user, known);
    let b = run(p, inputs).0;
    let c = turn::ending(finish, session, external, agent_type, duration_ms, model, disconnect);
    turn::beginning_is_quiet(user, known);
    run_is_quiet(p, inputs);
    turn::ending_completes_once(finish, session, external, agent_type, duration_ms, model, disconnect);
    turn::completions_add_up(a, b);
    turn::completions_add_up(a + b, c);
}

/// The events of every turn are in order: `Prompting` first, an error before the one
/// `TurnComplete`, and `Connected` last if and only if the connection stays, whatever
/// comes in and however the exchange ends.
pub proof fn events_are_in_order(
    user: Option<(Seq<char>, JsonView)>,
    known: Option<Seq<char>>,
    p: PumpView,
    inputs: Seq<InputView>,
    finish: FinishView,
    session: Option<Seq<char>>,
    external: Option<Seq<char>>,
    agent_type: Seq<char>,
    duration_ms: u64,
    model: Option<Seq<char>>,
    disconnect: bool,
)
    ensures
        turn::in_order(
            turn::emitted(
                turn::beginning(user, known) + run(p, inputs).0 + turn::ending(
                    finish,
                    session,
                    external,
                    agent_type,
                    duration_ms,
                    model,
                    disconnect,
                ),
            ),
            finish,
            disconnect,
        ),
{
    turn::beginning_is_quiet(user, known);
    run_is_quiet(p, inputs);
    turn::turn_is_in_order(
        turn::beginning(user, known),
        run(p, inputs).0,
        finish,
        session,
        external,
        agent_type,
        duration_ms,
        model,
        disconnect,
    );
}

} // verus!
