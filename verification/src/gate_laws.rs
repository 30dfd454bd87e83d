//! What keeping a replay apart from the live stream promises.
use vstd::prelude::*;
use crate::json::JsonView;
use crate::replay_gate;
use crate::replay_gate::{GateAction, GateView, IncomingView, MessageKind};

verus! {

/// A notification of the session that is restored.
pub open spec fn is_of(m: IncomingView, session: Seq<char>) -> bool {
    m.kind == MessageKind::Notification && m.params is Some && m.params->0.at("sessionId"@)
        == JsonView::Str(session)
}

/// An update that tells how the session stands, which is no part of its history.
pub open spec fn tells_the_state(m: IncomingView) -> bool {
    &&& m.method == "session/update"@
    &&& m.params is Some
    &&& {
        let kind = m.params->0.at("update"@).at("sessionUpdate"@);
        kind == JsonView::Str("current_mode_update"@) || kind == JsonView::Str(
            "config_option_update"@,
        ) || kind == JsonView::Str("available_commands_update"@) || kind == JsonView::Str(
            "usage_update"@,
        ) || kind == JsonView::Str("session_info_update"@)
    }
}

/// While the session is restored, exactly the notifications of the session are captured,
/// but for those that tell how it stands; the answer to the request that restores it ends
/// that, and everything else passes.
pub proof fn the_replay_is_captured(g: GateView, m: IncomingView)
    ensures
        replay_gate::gated(g, m) == GateAction::Capture <==> !g.closed && is_of(m, g.session_id)
            && !tells_the_state(m),
        replay_gate::gated(g, m) == GateAction::CloseAndPass <==> !g.closed && m.kind
            == MessageKind::Response && m.method == g.restoring_method,
        replay_gate::after(g, m) == (GateView {
            closed: g.closed || (m.kind == MessageKind::Response && m.method == g.restoring_method),
            ..g
        }),
{
}

} // verus!
