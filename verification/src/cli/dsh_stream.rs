//! Maps the headless JSON lines of DeepSeek Harness to events. One mapper per
//! turn.
//!
//! A turn prints `session`, then `thinking` and `text` blocks, tool calls and
//! their results, a `status` at the end of each step and of the turn, and at
//! last `final`. A failure of the runner itself prints `error` and no `final`.
use vstd::prelude::*;
use crate::cli::dsh_tool_info;
use crate::cli::outcome::{clean, failed, FinishView, LineOutcome, OutcomeView, TurnFinish};
use crate::cli::outcome::{STOP_CANCELLED, STOP_END_TURN, STOP_UNKNOWN};
use crate::cli::tool_info;
use crate::events;
use crate::events::{AcpEvent, EventView};
use crate::json;
use crate::json::{Json, JsonView};
use crate::text;

verus! {

/// Maps the lines of one turn.
pub struct DshStreamMapper {
    session_id: Option<String>,
    cwd: Option<String>,
    /// The context window of the model, in tokens, where it is known.
    context_window: Option<u64>,
    saw_text: bool,
    /// Input and output tokens of the most recent step.
    last_step_usage: Option<(u64, u64)>,
    /// Set at the end of the turn; consumed by `final` or at the end of output.
    pending_finish: Option<TurnFinish>,
}

/// The state of a mapper.
#[verifier::ext_equal]
pub struct DshView {
    pub session_id: Option<Seq<char>>,
    pub cwd: Option<Seq<char>>,
    pub context_window: Option<u64>,
    pub saw_text: bool,
    pub last_step_usage: Option<(u64, u64)>,
    pub pending_finish: Option<FinishView>,
}

impl View for DshStreamMapper {
    type V = DshView;

    closed spec fn view(&self) -> DshView {
        DshView {
            session_id: self.session_id.deep_view(),
            cwd: self.cwd.deep_view(),
            context_window: self.context_window,
            saw_text: self.saw_text,
            last_step_usage: self.last_step_usage,
            pending_finish: self.pending_finish.deep_view(),
        }
    }
}

/// The sum of two counts, within 64 bits.
pub open spec fn sum(a: u64, b: u64) -> u64 {
    if a + b <= u64::MAX {
        (a + b) as u64
    } else {
        u64::MAX
    }
}

/// Adds two counts; a sum past 64 bits counts as the largest number.
pub fn sum_of(a: u64, b: u64) -> (r: u64)
    ensures
        r == sum(a, b),
{
    if a <= u64::MAX - b {
        a + b
    } else {
        u64::MAX
    }
}

/// The context used by the last step and the size of the context window. The
/// last step is the one whose context the next turn inherits.
pub open spec fn usage(m: DshView) -> Option<(u64, u64)> {
    match (m.last_step_usage, m.context_window) {
        (Some((input, output)), Some(size)) => if size > 0 {
            Some((sum(input, output), size))
        } else {
            None
        },
        _ => None,
    }
}

/// Whether an error code means that the credential was refused.
pub open spec fn auth_code(code: Seq<char>) -> bool {
    let c = text::lower(code);
    c == "unauthorized"@ || c == "forbidden"@ || c == "401"@ || c == "403"@ || c
        == "invalid_api_key"@ || c == "missing_credential"@
}

/// How the reason at the end of a turn ends it.
pub open spec fn finish(reason: JsonView) -> FinishView {
    match reason.str_at("kind"@) {
        None => FinishView::clean(STOP_END_TURN@),
        Some(kind) => if kind == "completed"@ {
            FinishView::clean(STOP_END_TURN@)
        } else if kind == "aborted"@ {
            FinishView::clean(STOP_CANCELLED@)
        } else {
            let error = reason.at("error"@);
            let code = tool_info::or(error.str_at("code"@), ""@);
            let message = tool_info::or(
                error.filled("message"@),
                "DeepSeek Harness turn ended with "@ + kind,
            );
            FinishView::failed(
                if auth_code(code) || text::contains(message, " 401"@) || text::contains(
                    message,
                    " 403"@,
                ) {
                    "auth_required"@
                } else {
                    STOP_UNKNOWN@
                },
                "cli_api_error"@,
                message,
                if code.len() > 0 {
                    Some("code="@ + code)
                } else {
                    None
                },
            )
        },
    }
}

/// State and events after a `session` line.
pub open spec fn on_session(m: DshView, v: JsonView) -> (DshView, Seq<EventView>) {
    match v.filled("sessionId"@) {
        Some(sid) => if m.session_id != Some(sid) {
            (
                DshView { session_id: Some(sid), ..m },
                seq![EventView::SessionStarted { session_id: sid }],
            )
        } else {
            (m, Seq::empty())
        },
        None => (m, Seq::empty()),
    }
}

/// The state after a `status` line.
pub open spec fn on_status(m: DshView, v: JsonView) -> DshView {
    if v.str_at("phase"@) == Some("step_end"@) {
        match (
            v.at("usage"@).at("inputTokens"@).as_u64(),
            v.at("usage"@).at("outputTokens"@).as_u64(),
        ) {
            (Some(input), Some(output)) => DshView {
                last_step_usage: Some((input, output)),
                ..m
            },
            _ => m,
        }
    } else if v.str_at("phase"@) == Some("turn_end"@) {
        DshView { pending_finish: Some(finish(v.at("reason"@))), ..m }
    } else {
        m
    }
}

/// The announcement of a tool call.
pub open spec fn call_news(m: DshView, v: JsonView) -> Seq<EventView> {
    match v.filled("callId"@) {
        Some(id) => {
            let input = match v.get("input"@) {
                Some(i) => i,
                None => JsonView::empty_object(),
            };
            let shown = dsh_tool_info::dsh_shown(
                tool_info::or(v.str_at("tool"@), ""@),
                input,
                m.cwd,
            );
            seq![
                EventView::tool_call(
                    None,
                    id,
                    shown.title,
                    shown.kind,
                    "in_progress"@,
                    Some(json::written(input)),
                    shown.locations,
                ),
            ]
        },
        None => Seq::empty(),
    }
}

/// The news of a tool result.
pub open spec fn result_news(v: JsonView) -> Seq<EventView> {
    match v.filled("callId"@) {
        Some(id) => seq![
            EventView::tool_update(
                None,
                id,
                None,
                if v.str_at("status"@) == Some("error"@) {
                    "failed"@
                } else {
                    "completed"@
                },
                None,
                Some(
                    json::written(JsonView::Str(tool_info::or(v.str_at("result"@), ""@))),
                ),
                None,
            ),
        ],
        None => Seq::empty(),
    }
}

/// The events of a `final` line: the text, if none came before, and the usage.
pub open spec fn final_news(m: DshView, v: JsonView) -> Seq<EventView> {
    let said = if !m.saw_text && v.filled("text"@) is Some {
        seq![EventView::ContentDelta { text: v.filled("text"@)->0, parent_tool_use_id: None }]
    } else {
        Seq::empty()
    };
    match usage(m) {
        Some((used, size)) => said.push(EventView::UsageUpdate { used, size }),
        None => said,
    }
}

/// How a failure of the runner itself ends the turn.
pub open spec fn runner_finish(v: JsonView) -> FinishView {
    let message = tool_info::or(v.filled("message"@), "DeepSeek Harness reported an error"@);
    let l = text::lower(message);
    FinishView::failed(
        STOP_UNKNOWN@,
        if text::contains(l, "session"@) && (text::contains(l, "unknown"@) || text::contains(
            l,
            "not found"@,
        ) || text::contains(l, "no stored"@)) {
            "cli_resume_failed"@
        } else {
            "cli_execution_error"@
        },
        message,
        None,
    )
}

/// State and outcome after one line's value.
pub open spec fn step(m: DshView, v: JsonView) -> (DshView, OutcomeView) {
    let kind = v.str_at("type"@);
    if kind == Some("session"@) {
        let (n, e) = on_session(m, v);
        (n, OutcomeView::Events(e))
    } else if kind == Some("status"@) {
        (on_status(m, v), OutcomeView::Events(Seq::empty()))
    } else if kind == Some("thinking"@) {
        (
            m,
            OutcomeView::Events(
                match v.filled("text"@) {
                    Some(s) => seq![EventView::Thinking { text: s, parent_tool_use_id: None }],
                    None => Seq::empty(),
                },
            ),
        )
    } else if kind == Some("text"@) {
        match v.filled("text"@) {
            Some(s) => (
                DshView { saw_text: true, ..m },
                OutcomeView::Events(
                    seq![EventView::ContentDelta { text: s, parent_tool_use_id: None }],
                ),
            ),
            None => (m, OutcomeView::Events(Seq::empty())),
        }
    } else if kind == Some("tool_call"@) {
        (m, OutcomeView::Events(call_news(m, v)))
    } else if kind == Some("tool_result"@) {
        (m, OutcomeView::Events(result_news(v)))
    } else if kind == Some("final"@) {
        (
            DshView { pending_finish: None, ..m },
            OutcomeView::Finished {
                events: final_news(m, v),
                finish: match m.pending_finish {
                    Some(f) => f,
                    None => FinishView::clean(STOP_END_TURN@),
                },
            },
        )
    } else if kind == Some("error"@) {
        (m, OutcomeView::Finished { events: Seq::empty(), finish: runner_finish(v) })
    } else {
        (m, OutcomeView::Events(Seq::empty()))
    }
}

/// State and outcome after one line of output.
pub open spec fn step_line(m: DshView, line: Seq<char>) -> (DshView, OutcomeView) {
    match json::parsed(line) {
        Some(v) => step(m, v),
        None => (m, OutcomeView::Unparsable),
    }
}

impl DshStreamMapper {
    /// A mapper for a new turn.
    pub fn new(session_id: Option<String>, cwd: Option<String>, context_window: Option<u64>) -> (r:
        DshStreamMapper)
        ensures
            r@ == (DshView {
                session_id: session_id.deep_view(),
                cwd: cwd.deep_view(),
                context_window,
                saw_text: false,
                last_step_usage: None,
                pending_finish: None,
            }),
    {
        DshStreamMapper {
            session_id,
            cwd,
            context_window,
            saw_text: false,
            last_step_usage: None,
            pending_finish: None,
        }
    }

    /// The end of the turn seen so far, for output that lost its `final` line.
    pub fn take_pending_finish(&mut self) -> (r: Option<TurnFinish>)
        ensures
            r.deep_view() == old(self)@.pending_finish,
            final(self)@ == (DshView { pending_finish: None, ..old(self)@ }),
    {
        self.pending_finish.take()
    }

    /// Maps one line of output.
    pub fn map_line(&mut self, line: &str) -> (r: LineOutcome)
        ensures
            (final(self)@, r@) == step_line(old(self)@, line@),
    {
        match json::read_text(line) {
            Some(value) => self.map_value(&value),
            None => LineOutcome::Unparsable,
        }
    }

    /// Maps one line's value.
    pub fn map_value(&mut self, v: &Json) -> (r: LineOutcome)
        ensures
            (final(self)@, r@) == step(old(self)@, v@),
    {
        if v.is("type", "session") {
            LineOutcome::Events(self.on_session(v))
        } else if v.is("type", "status") {
            self.on_status(v);
            LineOutcome::Events(events::none())
        } else if v.is("type", "thinking") {
            match v.filled("text") {
                Some(s) => LineOutcome::Events(
                    events::one(
                        AcpEvent::Thinking { text: s.to_owned(), parent_tool_use_id: None },
                    ),
                ),
                None => LineOutcome::Events(events::none()),
            }
        } else if v.is("type", "text") {
            match v.filled("text") {
                Some(s) => {
                    self.saw_text = true;
                    LineOutcome::Events(
                        events::one(
                            AcpEvent::ContentDelta { text: s.to_owned(), parent_tool_use_id: None },
                        ),
                    )
                },
                None => LineOutcome::Events(events::none()),
            }
        } else if v.is("type", "tool_call") {
            LineOutcome::Events(self.on_tool_call(v))
        } else if v.is("type", "tool_result") {
            LineOutcome::Events(on_tool_result(v))
        } else if v.is("type", "final") {
            self.on_final(v)
        } else if v.is("type", "error") {
            on_runner_error(v)
        } else {
            LineOutcome::Events(events::none())
        }
    }

    /// Handles a `session` line.
    fn on_session(&mut self, v: &Json) -> (r: Vec<AcpEvent>)
        ensures
            (final(self)@, r.deep_view()) == on_session(old(self)@, v@),
    {
        match v.filled("sessionId") {
            Some(sid) => if !text::is_text(&self.session_id, sid) {
                self.session_id = Some(sid.to_owned());
                events::one(AcpEvent::SessionStarted { session_id: sid.to_owned() })
            } else {
                events::none()
            },
            None => events::none(),
        }
    }

    /// Handles a `status` line.
    fn on_status(&mut self, v: &Json)
        ensures
            final(self)@ == on_status(old(self)@, v@),
    {
        if v.is("phase", "step_end") {
            let usage = v.at("usage");
            if let (Some(input), Some(output)) = (
                usage.at("inputTokens").as_u64(),
                usage.at("outputTokens").as_u64(),
            ) {
                self.last_step_usage = Some((input, output));
            }
        } else if v.is("phase", "turn_end") {
            self.pending_finish = Some(finish_from_reason(v.at("reason")));
        }
    }

    /// Handles a `tool_call` line.
    fn on_tool_call(&self, v: &Json) -> (r: Vec<AcpEvent>)
        ensures
            r.deep_view() == call_news(self@, v@),
    {
        match v.filled("callId") {
            Some(id) => {
                let name = tool_info::text_or(v.str_at("tool"), "");
                let input = match v.get("input") {
                    Some(i) => i.copy(),
                    None => Json::empty_object(),
                };
                let info = dsh_tool_info::dsh_tool_info(
                    name.as_str(),
                    &input,
                    text::borrowed(&self.cwd),
                );
                events::one(
                    events::tool_call(
                        None,
                        id,
                        info.title,
                        info.kind,
                        "in_progress",
                        Some(input.write()),
                        info.locations,
                    ),
                )
            },
            None => events::none(),
        }
    }

    /// Handles a `final` line.
    fn on_final(&mut self, v: &Json) -> (r: LineOutcome)
        ensures
            final(self)@ == (DshView { pending_finish: None, ..old(self)@ }),
            r@ == (OutcomeView::Finished {
                events: final_news(old(self)@, v@),
                finish: match old(self)@.pending_finish {
                    Some(f) => f,
                    None => FinishView::clean(STOP_END_TURN@),
                },
            }),
    {
        let mut out = events::none();
        if !self.saw_text {
            if let Some(s) = v.filled("text") {
                events::add_to(
                    &mut out,
                    AcpEvent::ContentDelta { text: s.to_owned(), parent_tool_use_id: None },
                );
            }
        }
        if let Some((used, size)) = self.usage_update() {
            events::add_to(&mut out, AcpEvent::UsageUpdate { used, size });
        }
        let finish = match self.pending_finish.take() {
            Some(f) => f,
            None => clean(STOP_END_TURN),
        };
        LineOutcome::Finished { events: out, finish }
    }

    /// The context used by the last step and the size of the context window.
    pub fn usage_update(&self) -> (r: Option<(u64, u64)>)
        ensures
            r == usage(self@),
    {
        match (self.last_step_usage, self.context_window) {
            (Some((input, output)), Some(size)) => if size > 0 {
                Some((sum_of(input, output), size))
            } else {
                None
            },
            _ => None,
        }
    }
}

/// Handles a `tool_result` line.
fn on_tool_result(v: &Json) -> (r: Vec<AcpEvent>)
    ensures
        r.deep_view() == result_news(v@),
{
    match v.filled("callId") {
        Some(id) => {
            let status = if v.is("status", "error") {
                "failed"
            } else {
                "completed"
            };
            let output = Json::Str(tool_info::text_or(v.str_at("result"), "")).write();
            events::one(events::tool_update(None, id, None, status, None, Some(output), None))
        },
        None => events::none(),
    }
}

/// Whether an error code means that the credential was refused.
fn is_auth_code(code: &str) -> (r: bool)
    ensures
        r == auth_code(code@),
{
    let c = text::to_lower(code);
    text::same(c.as_str(), "unauthorized") || text::same(c.as_str(), "forbidden") || text::same(
        c.as_str(),
        "401",
    ) || text::same(c.as_str(), "403") || text::same(c.as_str(), "invalid_api_key") || text::same(
        c.as_str(),
        "missing_credential",
    )
}

/// How the reason at the end of a turn ends it.
pub fn finish_from_reason(reason: &Json) -> (r: TurnFinish)
    ensures
        r@ == finish(reason@),
{
    match reason.str_at("kind") {
        None => clean(STOP_END_TURN),
        Some(kind) => if text::same(kind, "completed") {
            clean(STOP_END_TURN)
        } else if text::same(kind, "aborted") {
            clean(STOP_CANCELLED)
        } else {
            let error = reason.at("error");
            let code = tool_info::text_or(error.str_at("code"), "");
            let fallback = text::cat2("DeepSeek Harness turn ended with ", kind);
            let message = tool_info::text_or(error.filled("message"), fallback.as_str());
            let auth = is_auth_code(code.as_str()) || text::has(message.as_str(), " 401")
                || text::has(message.as_str(), " 403");
            let details = if code.as_str().is_empty() {
                None
            } else {
                Some(text::cat2("code=", code.as_str()))
            };
            failed(
                if auth {
                    "auth_required"
                } else {
                    STOP_UNKNOWN
                },
                "cli_api_error",
                message,
                details,
            )
        },
    }
}

/// A failure of the runner itself: the run never reached a turn.
fn on_runner_error(v: &Json) -> (r: LineOutcome)
    ensures
        r@ == (OutcomeView::Finished { events: Seq::empty(), finish: runner_finish(v@) }),
{
    let message = tool_info::text_or(v.filled("message"), "DeepSeek Harness reported an error");
    let lower = text::to_lower(message.as_str());
    let code = if text::has(lower.as_str(), "session") && (text::has(lower.as_str(), "unknown")
        || text::has(lower.as_str(), "not found") || text::has(lower.as_str(), "no stored")) {
        "cli_resume_failed"
    } else {
        "cli_execution_error"
    };
    LineOutcome::Finished {
        events: events::none(),
        finish: failed(STOP_UNKNOWN, code, message, None),
    }
}

/// Whether a kind of line ends the turn.
pub open spec fn ends_turn(kind: Option<Seq<char>>) -> bool {
    kind == Some("final"@) || kind == Some("error"@)
}

/// The kinds of lines that end the turn are none of the others.
proof fn kinds_are_distinct()
    ensures
        "final"@ != "session"@,
        "final"@ != "status"@,
        "final"@ != "thinking"@,
        "final"@ != "text"@,
        "final"@ != "tool_call"@,
        "final"@ != "tool_result"@,
        "error"@ != "session"@,
        "error"@ != "status"@,
        "error"@ != "thinking"@,
        "error"@ != "text"@,
        "error"@ != "tool_call"@,
        "error"@ != "tool_result"@,
        "error"@ != "final"@,
        "text"@ != "session"@,
        "text"@ != "status"@,
        "text"@ != "thinking"@,
        "status"@ != "session"@,
{
    reveal_strlit("session");
    reveal_strlit("status");
    reveal_strlit("thinking");
    reveal_strlit("text");
    reveal_strlit("tool_call");
    reveal_strlit("tool_result");
    reveal_strlit("final");
    reveal_strlit("error");
    assert("session"@.len() == 7 && "status"@.len() == 6 && "thinking"@.len() == 8 && "text"@.len()
        == 4 && "tool_call"@.len() == 9 && "tool_result"@.len() == 11 && "final"@.len() == 5
        && "error"@.len() == 5);
    assert("final"@[0] == 'f' && "error"@[0] == 'e');
}

/// A turn is finished by `final` and `error` lines and by no others.
pub proof fn only_final_and_error_finish(m: DshView, v: JsonView)
    ensures
        step(m, v).1 is Finished <==> ends_turn(v.str_at("type"@)),
{
    kinds_are_distinct();
}

/// A session is announced once: the line that announced it announces nothing
/// when it comes again.
pub proof fn session_is_announced_once(m: DshView, v: JsonView)
    requires
        v.str_at("type"@) == Some("session"@),
    ensures
        step(step(m, v).0, v) == (step(m, v).0, OutcomeView::Events(Seq::empty())),
{
}

/// Text that came as a block is not sent again by the `final` line.
pub proof fn final_repeats_no_text(m: DshView, block: JsonView, last: JsonView)
    requires
        block.str_at("type"@) == Some("text"@),
        block.filled("text"@) is Some,
        last.str_at("type"@) == Some("final"@),
    ensures
        step(step(m, block).0, last).1 matches OutcomeView::Finished { events, .. } && forall|i: int|
            0 <= i < events.len() ==> !(#[trigger] events[i] is ContentDelta),
{
    kinds_are_distinct();
}

/// The end of the turn that a `status` line told is the one that `final` reports.
pub proof fn final_reports_the_turn_end(m: DshView, status: JsonView, last: JsonView)
    requires
        status.str_at("type"@) == Some("status"@),
        status.str_at("phase"@) == Some("turn_end"@),
        last.str_at("type"@) == Some("final"@),
    ensures
        step(step(m, status).0, last).1 matches OutcomeView::Finished { finish: f, .. } && f
            == finish(status.at("reason"@)),
{
    kinds_are_distinct();
    reveal_strlit("step_end");
    reveal_strlit("turn_end");
    assert("step_end"@[0] == 's' && "turn_end"@[0] == 't');
}

} // verus!
