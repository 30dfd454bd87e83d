//! What one line of an agent's output amounts to.
use vstd::prelude::*;
use crate::events::{AcpEvent, EventView};

verus! {

pub const STOP_END_TURN: &'static str = "end_turn";

pub const STOP_CANCELLED: &'static str = "cancelled";

pub const STOP_UNKNOWN: &'static str = "unknown";

/// Why a turn failed.
#[derive(Debug, PartialEq, Eq)]
pub struct CliTurnError {
    pub code: &'static str,
    pub message: String,
    pub details: Option<String>,
}

/// How a turn ended.
#[derive(Debug, PartialEq, Eq)]
pub struct TurnFinish {
    pub stop_reason: String,
    pub error: Option<CliTurnError>,
}

/// What one line amounts to.
#[derive(Debug)]
pub enum LineOutcome {
    Events(Vec<AcpEvent>),
    /// The turn is over.
    Finished { events: Vec<AcpEvent>, finish: TurnFinish },
    Unparsable,
}

/// The content of a `CliTurnError`.
#[verifier::ext_equal]
pub struct ErrorView {
    pub code: Seq<char>,
    pub message: Seq<char>,
    pub details: Option<Seq<char>>,
}

/// The content of a `TurnFinish`.
#[verifier::ext_equal]
pub struct FinishView {
    pub stop_reason: Seq<char>,
    pub error: Option<ErrorView>,
}

/// The content of a `LineOutcome`.
#[verifier::ext_equal]
pub enum OutcomeView {
    Events(Seq<EventView>),
    Finished { events: Seq<EventView>, finish: FinishView },
    Unparsable,
}

impl View for CliTurnError {
    type V = ErrorView;

    open spec fn view(&self) -> ErrorView {
        ErrorView {
            code: self.code@,
            message: self.message@,
            details: self.details.deep_view(),
        }
    }
}

impl DeepView for CliTurnError {
    type V = ErrorView;

    open spec fn deep_view(&self) -> ErrorView {
        self@
    }
}

impl View for TurnFinish {
    type V = FinishView;

    open spec fn view(&self) -> FinishView {
        FinishView { stop_reason: self.stop_reason@, error: self.error.deep_view() }
    }
}

impl DeepView for TurnFinish {
    type V = FinishView;

    open spec fn deep_view(&self) -> FinishView {
        self@
    }
}

impl View for LineOutcome {
    type V = OutcomeView;

    open spec fn view(&self) -> OutcomeView {
        match *self {
            LineOutcome::Events(events) => OutcomeView::Events(events.deep_view()),
            LineOutcome::Finished { events, finish } => OutcomeView::Finished {
                events: events.deep_view(),
                finish: finish@,
            },
            LineOutcome::Unparsable => OutcomeView::Unparsable,
        }
    }
}

impl FinishView {
    /// A turn that ended without an error.
    pub open spec fn clean(stop_reason: Seq<char>) -> FinishView {
        FinishView { stop_reason, error: None }
    }

    /// A turn that failed.
    pub open spec fn failed(
        stop_reason: Seq<char>,
        code: Seq<char>,
        message: Seq<char>,
        details: Option<Seq<char>>,
    ) -> FinishView {
        FinishView { stop_reason, error: Some(ErrorView { code, message, details }) }
    }
}

/// A turn that ended without an error.
pub fn clean(stop_reason: &str) -> (r: TurnFinish)
    ensures
        r@ == FinishView::clean(stop_reason@),
{
    TurnFinish { stop_reason: stop_reason.to_owned(), error: None }
}

/// A turn that failed.
pub fn failed(
    stop_reason: &str,
    code: &'static str,
    message: String,
    details: Option<String>,
) -> (r: TurnFinish)
    ensures
        r@ == FinishView::failed(stop_reason@, code@, message@, details.deep_view()),
{
    TurnFinish {
        stop_reason: stop_reason.to_owned(),
        error: Some(CliTurnError { code, message, details }),
    }
}

} // verus!
