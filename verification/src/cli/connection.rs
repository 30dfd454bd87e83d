//! Connections of command-line agents: which live one is reused, which session is
//! locked, and how a new one starts.
use vstd::prelude::*;
use crate::agents;
use crate::agents::{AgentType, ConnectionTransport, DriverKind};
use crate::events::{AcpEvent, ConnectionStatus, EventView};
use crate::paths;
use crate::text;

verus! {

/// The owner of a connection that names none.
pub const CLI_OWNER_WINDOW: &'static str = "web";

/// What a connection is asked for with.
#[derive(Debug)]
pub struct CliConnectRequest {
    pub agent_type: AgentType,
    pub working_dir: String,
    /// The session to continue; none starts a new one.
    pub session_id: Option<String>,
    pub runtime_env: Vec<(String, String)>,
    pub executable: String,
    /// The route of the model, for agents that take one.
    pub provider: Option<String>,
    pub model: Option<String>,
    pub owner_window_label: Option<String>,
}

/// A connection that was made or found.
#[derive(Debug, PartialEq, Eq)]
pub struct CliConnection {
    pub connection_id: String,
    /// None while the agent has not named the session yet.
    pub session_id: Option<String>,
    pub reused: bool,
}

/// Why there is no connection.
#[derive(Debug, PartialEq, Eq)]
pub enum CliConnectError {
    /// Another live connection drives this session.
    SessionLocked { connection_id: String },
    /// The home of the agent could not be prepared.
    ProfileWriteFailed(String),
}

/// The content of a `CliConnection`.
#[verifier::ext_equal]
pub struct ConnectionView {
    pub connection_id: Seq<char>,
    pub session_id: Option<Seq<char>>,
    pub reused: bool,
}

impl View for CliConnection {
    type V = ConnectionView;

    open spec fn view(&self) -> ConnectionView {
        ConnectionView {
            connection_id: self.connection_id@,
            session_id: self.session_id.deep_view(),
            reused: self.reused,
        }
    }
}

/// A live connection.
#[derive(Debug)]
pub struct LiveConnection {
    pub id: String,
    pub agent_type: AgentType,
    pub transport: ConnectionTransport,
    pub status: ConnectionStatus,
    pub external_id: Option<String>,
    pub working_dir: Option<String>,
}

/// Whether a connection still drives a session.
pub open spec fn drives(c: LiveConnection, session: Seq<char>) -> bool {
    c.external_id.deep_view() == Some(session) && c.status != ConnectionStatus::Disconnected
        && c.status != ConnectionStatus::Error
}

/// Whether a connection serves a request as it is.
pub open spec fn serves(c: LiveConnection, request: CliConnectRequest) -> bool {
    &&& c.transport == ConnectionTransport::Cli
    &&& c.agent_type == request.agent_type
    &&& c.working_dir matches Some(dir) && paths::same_parts(dir@, request.working_dir@)
}

/// What a live connection means for a request.
pub enum Claim {
    /// Nothing holds the session.
    Free,
    /// A connection can be used again.
    Reuse(Seq<char>),
    /// A connection holds the session.
    Locked(Seq<char>),
}

/// What the live connections, in the order given, mean for a request: the first
/// that drives the session decides.
pub open spec fn claim(live: Seq<LiveConnection>, request: CliConnectRequest, session: Seq<char>) -> Claim
    decreases live.len(),
{
    if live.len() == 0 {
        Claim::Free
    } else {
        match claim(live.drop_last(), request, session) {
            Claim::Free => if !drives(live.last(), session) {
                Claim::Free
            } else if serves(live.last(), request) {
                Claim::Reuse(live.last().id@)
            } else {
                Claim::Locked(live.last().id@)
            },
            decided => decided,
        }
    }
}

/// What the live connections mean for a request; nothing where it continues none.
pub open spec fn claim_of(live: Seq<LiveConnection>, request: CliConnectRequest) -> Claim {
    match request.session_id {
        Some(s) => claim(live, request, s@),
        None => Claim::Free,
    }
}

/// Whether the `uuid` crate reads a text as a UUID.
pub uninterp spec fn uuid_accepted(text: Seq<char>) -> bool;

/// `uuid::Uuid::parse_str`: whether a text is a UUID. The answer is named
/// `uuid_accepted`.
#[verifier::external_body]
pub(crate) fn is_uuid(text: &str) -> (r: bool)
    ensures
        r == uuid_accepted(text@),
{
    uuid::Uuid::parse_str(text).is_ok()
}

/// `uuid::Uuid::new_v4`: a random UUID in its hyphenated form, which is 36
/// characters long and which `uuid::Uuid::parse_str` reads. Which one it is, is not
/// said.
#[verifier::external_body]
pub(crate) fn new_uuid() -> (r: String)
    ensures
        r@.len() == 36,
        uuid_accepted(r@),
{
    uuid::Uuid::new_v4().to_string()
}

/// Whether an id is one that DeepSeek Harness names its sessions with.
pub open spec fn dsh_session(id: Seq<char>) -> bool {
    match text::without_prefix(id, "session-"@) {
        Some(rest) => uuid_accepted(rest),
        None => false,
    }
}

/// Whether an id is one that DeepSeek Harness names its sessions with.
pub fn is_dsh_session_id(id: &str) -> (r: bool)
    ensures
        r == dsh_session(id@),
{
    match text::strip_prefix(id, "session-") {
        Some(rest) => is_uuid(rest.as_str()),
        None => false,
    }
}

/// The session that a new connection starts with: the one asked for, or `minted`
/// where the agent takes a session that is named up front. DeepSeek Harness and
/// Codex name their sessions themselves; the harness continues only its own ids.
pub open spec fn first_session(agent: AgentType, asked: Option<Seq<char>>, minted: Seq<char>) -> Option<
    Seq<char>,
> {
    match asked {
        Some(id) => if agent == AgentType::DeepSeek && !dsh_session(id) {
            None
        } else {
            Some(id)
        },
        None => if agent == AgentType::DeepSeek || agent == AgentType::Codex {
            None
        } else {
            Some(minted)
        },
    }
}

/// The earlier session that a new one links back to, because it cannot be resumed.
pub open spec fn linked_session(agent: AgentType, asked: Option<Seq<char>>) -> Option<Seq<char>> {
    match asked {
        Some(id) => if agent == AgentType::DeepSeek && !dsh_session(id) {
            Some(id)
        } else {
            None
        },
        None => None,
    }
}

/// A text that is not blank.
pub open spec fn not_blank(s: Option<Seq<char>>) -> Option<Seq<char>> {
    match s {
        Some(t) => if text::trim(t).len() > 0 {
            Some(t)
        } else {
            None
        },
        None => None,
    }
}

/// A new connection to be registered.
#[derive(Debug)]
pub struct NewConnection {
    pub connection: CliConnection,
    pub driver: DriverKind,
    pub continues_from: Option<String>,
    pub cli_model: Option<String>,
    pub provider: Option<String>,
    pub owner_window_label: String,
    /// The events to send once it is registered.
    pub events: Vec<AcpEvent>,
}

/// The content of a `NewConnection`.
#[verifier::ext_equal]
pub struct NewConnectionView {
    pub connection: ConnectionView,
    pub driver: DriverKind,
    pub continues_from: Option<Seq<char>>,
    pub cli_model: Option<Seq<char>>,
    pub provider: Option<Seq<char>>,
    pub owner_window_label: Seq<char>,
    pub events: Seq<EventView>,
}

impl View for NewConnection {
    type V = NewConnectionView;

    open spec fn view(&self) -> NewConnectionView {
        NewConnectionView {
            connection: self.connection@,
            driver: self.driver,
            continues_from: self.continues_from.deep_view(),
            cli_model: self.cli_model.deep_view(),
            provider: self.provider.deep_view(),
            owner_window_label: self.owner_window_label@,
            events: self.events.deep_view(),
        }
    }
}

/// The events that announce a new connection: its session, where it has one, and
/// that it is connected.
pub open spec fn announcement(session: Option<Seq<char>>) -> Seq<EventView> {
    let connected = EventView::StatusChanged { status: ConnectionStatus::Connected };
    match session {
        Some(session_id) => seq![EventView::SessionStarted { session_id }, connected],
        None => seq![connected],
    }
}

/// The new connection for a request. `id` and `minted` are fresh ids.
pub open spec fn fresh(request: CliConnectRequest, id: Seq<char>, minted: Seq<char>) -> NewConnectionView {
    let session = first_session(request.agent_type, request.session_id.deep_view(), minted);
    NewConnectionView {
        connection: ConnectionView { connection_id: id, session_id: session, reused: false },
        driver: agents::driver_of(request.agent_type),
        continues_from: linked_session(request.agent_type, request.session_id.deep_view()),
        cli_model: not_blank(request.model.deep_view()),
        provider: not_blank(request.provider.deep_view()),
        owner_window_label: match request.owner_window_label {
            Some(l) => l@,
            None => CLI_OWNER_WINDOW@,
        },
        events: announcement(session),
    }
}

/// What a request leads to.
#[derive(Debug)]
pub enum ConnectionPlan {
    Reuse(CliConnection),
    Create(NewConnection),
}

/// What the live connections mean for a request: nothing, a connection to use
/// again, or one that holds the session.
fn find_claim(request: &CliConnectRequest, live: &Vec<LiveConnection>) -> (r: Result<
    Option<CliConnection>,
    CliConnectError,
>)
    ensures
        match r {
            Ok(None) => claim_of(live@, *request) is Free,
            Ok(Some(c)) => claim_of(live@, *request) == Claim::Reuse(c.connection_id@)
                && c.session_id.deep_view() == request.session_id.deep_view() && c.reused,
            Err(e) => e matches CliConnectError::SessionLocked { connection_id } && claim_of(
                live@,
                *request,
            ) == Claim::Locked(connection_id@),
        },
{
    if let Some(session) = &request.session_id {
        let ghost s = session@;
        assert(live@.take(0) =~= Seq::empty());
        for i in 0..live.len()
            invariant
                request.session_id == Some(*session),
                s == session@,
                claim(live@.take(i as int), *request, s) is Free,
        {
            let c = &live[i];
            assert(live@.take(i + 1).drop_last() =~= live@.take(i as int));
            assert(live@.take(i + 1).last() == *c);
            let driving = text::is_text(&c.external_id, session.as_str()) && c.status
                != ConnectionStatus::Disconnected && c.status != ConnectionStatus::Error;
            if driving {
                proof {
                    claim_is_settled(live@, *request, s, i + 1);
                }
                let here = match &c.working_dir {
                    Some(dir) => paths::is_same(dir.as_str(), request.working_dir.as_str()),
                    None => false,
                };
                if c.transport == ConnectionTransport::Cli && c.agent_type == request.agent_type
                    && here {
                    return Ok(
                        Some(
                            CliConnection {
                                connection_id: c.id.clone(),
                                session_id: Some(session.clone()),
                                reused: true,
                            },
                        ),
                    );
                }
                return Err(CliConnectError::SessionLocked { connection_id: c.id.clone() });
            }
        }
        assert(live@.take(live@.len() as int) =~= live@);
    }
    Ok(None)
}

/// Once a connection has decided, later ones do not matter.
proof fn claim_is_settled(live: Seq<LiveConnection>, request: CliConnectRequest, session: Seq<char>, n: int)
    requires
        0 <= n <= live.len(),
        !(claim(live.take(n), request, session) is Free),
    ensures
        claim(live, request, session) == claim(live.take(n), request, session),
    decreases live.len() - n,
{
    if n < live.len() {
        assert(live.take(n + 1).drop_last() =~= live.take(n));
        claim_is_settled(live, request, session, n + 1);
    } else {
        assert(live.take(n) =~= live);
    }
}

/// A text that is not blank.
fn if_not_blank(s: &Option<String>) -> (r: Option<String>)
    ensures
        r.deep_view() == not_blank(s.deep_view()),
{
    match s {
        Some(t) => if text::trimmed(t.as_str()).as_str().is_empty() {
            None
        } else {
            Some(t.clone())
        },
        None => None,
    }
}

/// The new connection for a request.
pub fn new_connection(request: &CliConnectRequest, id: String, minted: String) -> (r: NewConnection)
    ensures
        r@ == fresh(*request, id@, minted@),
{
    let (session, link) = match &request.session_id {
        Some(asked) => if request.agent_type == AgentType::DeepSeek && !is_dsh_session_id(
            asked.as_str(),
        ) {
            (None, Some(asked.clone()))
        } else {
            (Some(asked.clone()), None)
        },
        None => if request.agent_type == AgentType::DeepSeek || request.agent_type
            == AgentType::Codex {
            (None, None)
        } else {
            (Some(minted), None)
        },
    };
    let mut events: Vec<AcpEvent> = Vec::new();
    if let Some(s) = &session {
        events.push(AcpEvent::SessionStarted { session_id: s.clone() });
    }
    events.push(AcpEvent::StatusChanged { status: ConnectionStatus::Connected });
    assert(events.deep_view() =~= announcement(session.deep_view()));
    let owner = match &request.owner_window_label {
        Some(l) => l.clone(),
        None => CLI_OWNER_WINDOW.to_owned(),
    };
    NewConnection {
        connection: CliConnection { connection_id: id, session_id: session, reused: false },
        driver: agents::driver_kind(request.agent_type),
        continues_from: link,
        cli_model: if_not_blank(&request.model),
        provider: if_not_blank(&request.provider),
        owner_window_label: owner,
        events,
    }
}

/// What a request leads to, with the fresh ids given.
pub fn plan_connection(
    request: &CliConnectRequest,
    live: &Vec<LiveConnection>,
    id: String,
    minted: String,
) -> (r: Result<ConnectionPlan, CliConnectError>)
    ensures
        match claim_of(live@, *request) {
            Claim::Free => r matches Ok(ConnectionPlan::Create(n)) && n@ == fresh(
                *request,
                id@,
                minted@,
            ),
            Claim::Reuse(existing) => r matches Ok(ConnectionPlan::Reuse(c)) && c@ == (
            ConnectionView {
                connection_id: existing,
                session_id: request.session_id.deep_view(),
                reused: true,
            }),
            Claim::Locked(holder) => r matches Err(
                CliConnectError::SessionLocked { connection_id },
            ) && connection_id@ == holder,
        },
{
    match find_claim(request, live) {
        Ok(Some(c)) => Ok(ConnectionPlan::Reuse(c)),
        Ok(None) => Ok(ConnectionPlan::Create(new_connection(request, id, minted))),
        Err(e) => Err(e),
    }
}

/// Uses the live connection that is bound to the session, or starts a new one. No
/// process is started here. `live` are the live connections in any order.
pub fn create_or_reuse_cli_connection(request: &CliConnectRequest, live: &Vec<LiveConnection>) -> (r:
    Result<ConnectionPlan, CliConnectError>)
    ensures
        match claim_of(live@, *request) {
            Claim::Free => r matches Ok(ConnectionPlan::Create(n)) && exists|
                id: Seq<char>,
                minted: Seq<char>,
            | id.len() == 36 && uuid_accepted(id) && minted.len() == 36 && uuid_accepted(minted)
                && n@ == #[trigger] fresh(*request, id, minted),
            Claim::Reuse(existing) => r matches Ok(ConnectionPlan::Reuse(c)) && c@ == (
            ConnectionView {
                connection_id: existing,
                session_id: request.session_id.deep_view(),
                reused: true,
            }),
            Claim::Locked(holder) => r matches Err(
                CliConnectError::SessionLocked { connection_id },
            ) && connection_id@ == holder,
        },
{
    let id = new_uuid();
    let minted = new_uuid();
    let ghost a = id@;
    let ghost b = minted@;
    let r = plan_connection(request, live, id, minted);
    assert(claim_of(live@, *request) is Free ==> (r matches Ok(ConnectionPlan::Create(n)) && n@
        == fresh(*request, a, b)));
    r
}

/// The process model behind a live connection.
pub open spec fn transport_of(live: Seq<LiveConnection>, id: Seq<char>) -> Option<ConnectionTransport>
    decreases live.len(),
{
    if live.len() == 0 {
        None
    } else if live[0].id@ == id {
        Some(live[0].transport)
    } else {
        transport_of(live.skip(1), id)
    }
}

/// The process model behind a live connection; nothing where there is none.
pub fn connection_transport(live: &Vec<LiveConnection>, id: &str) -> (r: Option<ConnectionTransport>)
    ensures
        r == transport_of(live@, id@),
{
    assert(live@.skip(0) =~= live@);
    for i in 0..live.len()
        invariant
            transport_of(live@, id@) == transport_of(live@.skip(i as int), id@),
    {
        assert(live@.skip(i as int)[0] == live@[i as int]);
        if text::same(live[i].id.as_str(), id) {
            return Some(live[i].transport);
        }
        assert(live@.skip(i as int).skip(1) =~= live@.skip(i + 1));
    }
    None
}

/// A session is never driven twice: if a live connection drives it, no new
/// connection is made.
pub proof fn driven_session_is_not_started_again(
    live: Seq<LiveConnection>,
    request: CliConnectRequest,
    i: int,
)
    requires
        request.session_id is Some,
        0 <= i < live.len(),
        drives(live[i], request.session_id->0@),
    ensures
        !(claim_of(live, request) is Free),
    decreases live.len(),
{
    let s = request.session_id->0@;
    if i < live.len() - 1 {
        driven_session_is_not_started_again(live.drop_last(), request, i);
    }
}

/// A connection that no longer lives never holds a session.
pub proof fn dead_connections_hold_nothing(live: Seq<LiveConnection>, request: CliConnectRequest)
    requires
        forall|i: int|
            0 <= i < live.len() ==> (#[trigger] live[i]).status == ConnectionStatus::Disconnected
                || live[i].status == ConnectionStatus::Error,
    ensures
        claim_of(live, request) is Free,
    decreases live.len(),
{
    if live.len() > 0 {
        assert forall|i: int| 0 <= i < live.drop_last().len() implies (
        #[trigger] live.drop_last()[i]).status == ConnectionStatus::Disconnected
            || live.drop_last()[i].status == ConnectionStatus::Error by {
            assert(live.drop_last()[i] == live[i]);
        }
        dead_connections_hold_nothing(live.drop_last(), request);
        assert(live.last() == live[live.len() - 1]);
    }
}

} // verus!
