//! Tells the replay of a session's history from its live output.
//!
//! An agent that restores a session sends the conversation so far before it answers
//! the request. The answer is the boundary: what comes before it is history, and is
//! kept out of the live stream; what comes after it is live.
use vstd::prelude::*;
use crate::json::{Json, JsonView};
use crate::text;

verus! {

/// What the latch does with a message.
#[derive(Clone, Copy, Debug, PartialEq, Eq, Structural)]
pub enum GateAction {
    /// A part of the replay: keep it out of the live stream.
    Capture,
    /// The answer to the restoring request: close the latch, let it through.
    CloseAndPass,
    /// Anything else.
    Pass,
}

/// Whether a kind of update tells how the session is now, and not what was.
pub open spec fn state_kind(kind: Seq<char>) -> bool {
    kind == "current_mode_update"@ || kind == "config_option_update"@ || kind
        == "available_commands_update"@ || kind == "usage_update"@ || kind
        == "session_info_update"@
}

/// Whether a kind of update tells how the session is now.
fn is_state_kind(kind: &str) -> (r: bool)
    ensures
        r == state_kind(kind@),
{
    text::same(kind, "current_mode_update") || text::same(kind, "config_option_update")
        || text::same(kind, "available_commands_update") || text::same(kind, "usage_update")
        || text::same(kind, "session_info_update")
}

/// What the latch does with a message.
pub open spec fn decision(
    closed: bool,
    is_notification: bool,
    is_response: bool,
    method: Seq<char>,
    restoring_method: Seq<char>,
    for_this_session: bool,
    update_kind: Option<Seq<char>>,
) -> GateAction {
    if closed {
        GateAction::Pass
    } else if is_response && method == restoring_method {
        GateAction::CloseAndPass
    } else if !is_notification || !for_this_session {
        GateAction::Pass
    } else if method == "session/update"@ && update_kind is Some && state_kind(update_kind->0) {
        GateAction::Pass
    } else {
        GateAction::Capture
    }
}

/// What the latch does with a message. `update_kind` is the kind of a `session/update`.
pub fn decide(
    closed: bool,
    is_notification: bool,
    is_response: bool,
    method: &str,
    restoring_method: &str,
    for_this_session: bool,
    update_kind: Option<&str>,
) -> (r: GateAction)
    ensures
        r == decision(
            closed,
            is_notification,
            is_response,
            method@,
            restoring_method@,
            for_this_session,
            update_kind.deep_view(),
        ),
{
    if closed {
        return GateAction::Pass;
    }
    if is_response && text::same(method, restoring_method) {
        return GateAction::CloseAndPass;
    }
    if !is_notification || !for_this_session {
        return GateAction::Pass;
    }
    if text::same(method, "session/update") {
        if let Some(kind) = update_kind {
            if is_state_kind(kind) {
                return GateAction::Pass;
            }
        }
    }
    GateAction::Capture
}

/// The kinds of messages.
#[derive(Clone, Copy, Debug, PartialEq, Eq, Structural)]
pub enum MessageKind {
    Request,
    Notification,
    Response,
}

/// A message of an agent. A response bears the method that it answers, and no
/// parameters.
#[derive(Debug)]
pub struct Incoming {
    pub kind: MessageKind,
    pub method: String,
    pub params: Option<Json>,
}

/// The content of an `Incoming`.
#[verifier::ext_equal]
pub struct IncomingView {
    pub kind: MessageKind,
    pub method: Seq<char>,
    pub params: Option<JsonView>,
}

impl View for Incoming {
    type V = IncomingView;

    open spec fn view(&self) -> IncomingView {
        IncomingView {
            kind: self.kind,
            method: self.method@,
            params: self.params.deep_view(),
        }
    }
}

/// The session that a message is about.
pub open spec fn session_of(m: IncomingView) -> Option<Seq<char>> {
    match m.params {
        Some(p) => p.str_at("sessionId"@),
        None => None,
    }
}

/// The kind of the update that a message brings.
pub open spec fn kind_of(m: IncomingView) -> Option<Seq<char>> {
    match m.params {
        Some(p) => p.at("update"@).str_at("sessionUpdate"@),
        None => None,
    }
}

/// The session that a message is about.
pub fn session_id_of(m: &Incoming) -> (r: Option<&str>)
    ensures
        r.deep_view() == session_of(m@),
{
    match &m.params {
        Some(p) => p.str_at("sessionId"),
        None => None,
    }
}

/// The kind of the update that a message brings.
pub fn update_kind_of(m: &Incoming) -> (r: Option<&str>)
    ensures
        r.deep_view() == kind_of(m@),
{
    match &m.params {
        Some(p) => p.at("update").str_at("sessionUpdate"),
        None => None,
    }
}

/// The latch for one restoring request.
#[derive(Debug)]
pub struct ReplayGate {
    session_id: String,
    restoring_method: String,
    closed: bool,
}

/// The content of a `ReplayGate`.
#[verifier::ext_equal]
pub struct GateView {
    pub session_id: Seq<char>,
    pub restoring_method: Seq<char>,
    pub closed: bool,
}

impl View for ReplayGate {
    type V = GateView;

    closed spec fn view(&self) -> GateView {
        GateView {
            session_id: self.session_id@,
            restoring_method: self.restoring_method@,
            closed: self.closed,
        }
    }
}

/// What a latch does with a message.
pub open spec fn gated(g: GateView, m: IncomingView) -> GateAction {
    decision(
        g.closed,
        m.kind == MessageKind::Notification,
        m.kind == MessageKind::Response,
        m.method,
        g.restoring_method,
        session_of(m) == Some(g.session_id),
        kind_of(m),
    )
}

/// A latch after a message.
pub open spec fn after(g: GateView, m: IncomingView) -> GateView {
    GateView { closed: g.closed || gated(g, m) == GateAction::CloseAndPass, ..g }
}

impl ReplayGate {
    /// An open latch, for a session that is about to be restored by a method.
    pub fn new(session_id: &str, restoring_method: &str) -> (r: ReplayGate)
        ensures
            r@ == (GateView {
                session_id: session_id@,
                restoring_method: restoring_method@,
                closed: false,
            }),
    {
        ReplayGate {
            session_id: session_id.to_owned(),
            restoring_method: restoring_method.to_owned(),
            closed: false,
        }
    }

    /// What is done with the next message.
    pub fn on_message(&mut self, m: &Incoming) -> (r: GateAction)
        ensures
            r == gated(old(self)@, m@),
            final(self)@ == after(old(self)@, m@),
    {
        let here = match session_id_of(m) {
            Some(id) => text::same(id, self.session_id.as_str()),
            None => false,
        };
        let action = decide(
            self.closed,
            m.kind == MessageKind::Notification,
            m.kind == MessageKind::Response,
            m.method.as_str(),
            self.restoring_method.as_str(),
            here,
            update_kind_of(m),
        );
        if action == GateAction::CloseAndPass {
            self.closed = true;
        }
        action
    }

    /// Closes the latch, if no answer did.
    pub fn close(&mut self)
        ensures
            final(self)@ == (GateView { closed: true, ..old(self)@ }),
    {
        self.closed = true;
    }

    /// A description for logs.
    pub fn describe(&self) -> (r: String)
        ensures
            r@ == "ReplayGate("@ + self@.session_id + " until "@ + self@.restoring_method
                + " response)"@,
    {
        text::cat5(
            "ReplayGate(",
            self.session_id.as_str(),
            " until ",
            self.restoring_method.as_str(),
            " response)",
        )
    }
}

/// What a latch captures of a row of messages.
pub open spec fn captured(g: GateView, messages: Seq<IncomingView>) -> Seq<IncomingView>
    decreases messages.len(),
{
    if messages.len() == 0 {
        Seq::empty()
    } else {
        let rest = captured(after(g, messages[0]), messages.skip(1));
        if gated(g, messages[0]) == GateAction::Capture {
            seq![messages[0]] + rest
        } else {
            rest
        }
    }
}

/// Nothing is captured once the latch is closed.
pub proof fn closed_gates_capture_nothing(g: GateView, messages: Seq<IncomingView>)
    requires
        g.closed,
    ensures
        captured(g, messages) == Seq::<IncomingView>::empty(),
    decreases messages.len(),
{
    if messages.len() > 0 {
        closed_gates_capture_nothing(after(g, messages[0]), messages.skip(1));
    }
}

/// The answer is the boundary: what comes behind the answer to the restoring request
/// is live, and none of it is captured.
pub proof fn nothing_behind_the_answer_is_captured(
    g: GateView,
    answer: IncomingView,
    messages: Seq<IncomingView>,
)
    requires
        answer.kind == MessageKind::Response,
        answer.method == g.restoring_method,
    ensures
        gated(g, answer) != GateAction::Capture,
        captured(after(g, answer), messages) == Seq::<IncomingView>::empty(),
{
    closed_gates_capture_nothing(after(g, answer), messages);
}

/// A request is never captured, since the agent waits for its answer; nor is a
/// response, a message of another session, or an update of the session's state.
pub proof fn only_history_is_captured(g: GateView, m: IncomingView)
    requires
        gated(g, m) == GateAction::Capture,
    ensures
        !g.closed,
        m.kind == MessageKind::Notification,
        session_of(m) == Some(g.session_id),
        m.method == "session/update"@ && kind_of(m) is Some ==> !state_kind(kind_of(m)->0),
{
}

/// While the latch is open, every notification of the session is captured but the
/// updates of its state.
pub proof fn history_is_captured_while_open(g: GateView, m: IncomingView)
    requires
        !g.closed,
        m.kind == MessageKind::Notification,
        session_of(m) == Some(g.session_id),
        !(m.method == "session/update"@ && kind_of(m) is Some && state_kind(kind_of(m)->0)),
    ensures
        gated(g, m) == GateAction::Capture,
{
}

} // verus!
