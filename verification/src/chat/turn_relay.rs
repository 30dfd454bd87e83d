//! Replies that grow in a Telegram chat while they are generated.
//!
//! While there is no text, a draft shows a status. The first text is sent as a
//! message, and from then on that message is edited; only a message that is full is
//! followed by another. Edits can be repeated without harm, so that nothing is sent
//! twice. A turn whose events were missed is handed back, and sends nothing more.
use vstd::prelude::*;
use vstd::utf8::*;
use crate::chat::composer;
use crate::chat::composer::{Composer, ComposerView};
use crate::chat::tg_html;
use crate::cli::connection;
use crate::events::{AcpEvent, ConnectionStatus, EventView};
use crate::json;
use crate::json::{Json, JsonView};
use crate::table::Table;
use crate::text;

verus! {

/// The least time between two updates, in milliseconds.
pub const MIN_UPDATE_INTERVAL_MS: u64 = 1_000;

/// How often a draft is sent again so that it stays, in milliseconds. Drafts vanish
/// after about ten seconds.
pub const DRAFT_HEARTBEAT_MS: u64 = 5_000;

/// How long a turn is followed at most, in milliseconds.
pub const MAX_TURN_MS: u64 = 10_800_000;

/// How long a claim counts, in milliseconds.
pub const CLAIM_TTL_MS: u64 = 21_600_000;

/// How often a call is tried that is turned down for its rate.
pub const SEND_RETRIES: u64 = 3;

/// The longest pause before a call is tried again, in seconds.
pub const MAX_RETRY_WAIT_SECS: u64 = 30;

/// The longest status line in characters.
pub const STATUS_MAX: usize = 120;

/// The fixed texts of a turn.
#[derive(Debug)]
pub struct RelayTexts {
    /// What a draft shows while there is neither text nor a tool that runs.
    pub thinking: String,
    pub failed: String,
    pub cancelled: String,
    pub empty: String,
}

/// The content of `RelayTexts`.
#[verifier::ext_equal]
pub struct TextsView {
    pub thinking: Seq<char>,
    pub failed: Seq<char>,
    pub cancelled: Seq<char>,
    pub empty: Seq<char>,
}

impl View for RelayTexts {
    type V = TextsView;

    open spec fn view(&self) -> TextsView {
        TextsView {
            thinking: self.thinking@,
            failed: self.failed@,
            cancelled: self.cancelled@,
            empty: self.empty@,
        }
    }
}

impl Default for RelayTexts {
    fn default() -> (r: RelayTexts)
        ensures
            r@ == (TextsView {
                thinking: "💭 Thinking…"@,
                failed:
                    "⚠️ Something went wrong while generating this reply. Please try again."@,
                cancelled: "⏹ Stopped."@,
                empty: "(No reply was generated.)"@,
            }),
    {
        RelayTexts {
            thinking: "💭 Thinking…".to_owned(),
            failed:
                "⚠️ Something went wrong while generating this reply. Please try again.".to_owned(),
            cancelled: "⏹ Stopped.".to_owned(),
            empty: "(No reply was generated.)".to_owned(),
        }
    }
}

/// Where the reply of a turn goes.
pub enum OutboundSpec {
    Telegram {
        /// The id of the turn, which is given back in notifications.
        turn_id: String,
        bot_token: String,
        chat_id: i64,
        /// The id of the draft; derived from the id of the turn where there is none.
        draft_id: Option<i64>,
        texts: RelayTexts,
    },
}

impl OutboundSpec {
    /// The id of the turn.
    pub open spec fn turn(self) -> Seq<char> {
        match self {
            OutboundSpec::Telegram { turn_id, .. } => turn_id@,
        }
    }

    /// The id of the turn.
    pub fn turn_id(&self) -> (r: &str)
        ensures
            r@ == self.turn(),
    {
        match self {
            OutboundSpec::Telegram { turn_id, .. } => turn_id.as_str(),
        }
    }

    /// A description for logs, which does not hold the token.
    pub fn describe(&self) -> (r: String)
        ensures
            match *self {
                OutboundSpec::Telegram { turn_id, chat_id, .. } => r@
                    == "Telegram { turn_id: "@ + turn_id@ + ", chat_id: "@ + text::dec_signed(chat_id as int)
                    + ", bot_token: <redacted> }"@,
            },
    {
        match self {
            OutboundSpec::Telegram { turn_id, chat_id, .. } => text::cat5(
                "Telegram { turn_id: ",
                turn_id.as_str(),
                ", chat_id: ",
                text::dec_i64(*chat_id).as_str(),
                ", bot_token: <redacted> }",
            ),
        }
    }
}

/// A hash of bytes: each byte is mixed in and the whole is multiplied by a prime,
/// modulo 2 to the 64.
pub open spec fn hash(bytes: Seq<u8>) -> u64
    decreases bytes.len(),
{
    if bytes.len() == 0 {
        0xcbf2_9ce4_8422_2325
    } else {
        (hash(bytes.drop_last()) ^ bytes.last() as u64).wrapping_mul(0x0100_0000_01b3)
    }
}

/// The id of the draft of a turn: the hash of its id, in 30 bits and not zero.
pub open spec fn draft_base(turn_id: Seq<char>) -> int {
    let n = hash(encode_utf8(turn_id)) % 0x4000_0000;
    if n == 0 {
        1
    } else {
        n as int
    }
}

/// The id of the draft of a turn, from the id of the turn.
pub fn derive_draft_base(turn_id: &str) -> (r: i64)
    ensures
        r == draft_base(turn_id@),
        1 <= r < 0x4000_0000,
{
    let bytes = turn_id.as_bytes();
    let ghost all = bytes@;
    let mut h: u64 = 0xcbf2_9ce4_8422_2325;
    assert(all.take(0) =~= Seq::empty());
    for i in 0..bytes.len()
        invariant
            bytes@ == all,
            h == hash(all.take(i as int)),
    {
        assert(all.take(i + 1).drop_last() =~= all.take(i as int));
        assert(all.take(i + 1).last() == all[i as int]);
        h = (h ^ bytes[i] as u64).wrapping_mul(0x0100_0000_01b3);
    }
    assert(all.take(all.len() as int) =~= all);
    let n: u64 = h % 0x4000_0000;
    if n == 0 {
        1
    } else {
        n as i64
    }
}

/// The label of a tool: its description, or its title where it has none.
pub open spec fn tool_label(description: Option<Seq<char>>, title: Seq<char>) -> Seq<char> {
    match description {
        Some(d) => if text::trim(d).len() > 0 {
            text::trim(d)
        } else {
            text::trim(title)
        },
        None => text::trim(title),
    }
}

/// The status line while a tool runs; nothing where the tool has no label.
pub open spec fn tool_line(description: Option<Seq<char>>, title: Seq<char>) -> Option<Seq<char>> {
    let label = tool_label(description, title);
    if label.len() == 0 {
        None
    } else if label.len() > STATUS_MAX {
        Some("🔧 "@ + (label.take(STATUS_MAX as int) + "…"@))
    } else {
        Some("🔧 "@ + label)
    }
}

/// The status line while a tool runs.
pub fn tool_status(description: Option<&str>, title: &str) -> (r: Option<String>)
    ensures
        r.deep_view() == tool_line(description.deep_view(), title@),
{
    let mut label = text::trimmed(title);
    if let Some(d) = description {
        let d = text::trimmed(d);
        if !d.as_str().is_empty() {
            label = d;
        }
    }
    if label.as_str().is_empty() {
        return None;
    }
    let v = text::chars(label.as_str());
    if v.len() > STATUS_MAX {
        let clipped = text::slice(v.as_slice(), 0, STATUS_MAX);
        assert(clipped@ =~= label@.take(STATUS_MAX as int));
        Some(text::cat2("🔧 ", text::cat2(clipped.as_str(), "…").as_str()))
    } else {
        Some(text::cat2("🔧 ", label.as_str()))
    }
}

/// Why a call failed.
#[derive(Debug, PartialEq, Eq)]
pub enum TgError {
    /// Too many calls; the next may come after so many seconds.
    RetryAfter(u64),
    Other(String),
}

/// What came of a call: the id of the message, where it has one.
#[verifier::ext_equal]
pub enum ReplyView {
    Delivered(Option<i64>),
    Limited(u64),
    Refused(Seq<char>),
}

/// The content of a reply.
pub open spec fn reply_view(r: Result<Option<i64>, TgError>) -> ReplyView {
    match r {
        Ok(id) => ReplyView::Delivered(id),
        Err(TgError::RetryAfter(s)) => ReplyView::Limited(s),
        Err(TgError::Other(e)) => ReplyView::Refused(e@),
    }
}

/// What the answer to a call says.
pub open spec fn answered(v: JsonView) -> ReplyView {
    if v.at("ok"@).as_bool() == Some(true) {
        ReplyView::Delivered(v.at("result"@).at("message_id"@).as_i64())
    } else {
        match v.at("parameters"@).at("retry_after"@).as_u64() {
            Some(s) => ReplyView::Limited(s),
            None => ReplyView::Refused(
                match v.str_at("description"@) {
                    Some(d) => d,
                    None => "unknown error"@,
                },
            ),
        }
    }
}

/// Reads the answer to a call.
pub fn read_answer(v: &Json) -> (r: Result<Option<i64>, TgError>)
    ensures
        reply_view(r) == answered(v@),
{
    if let Some(true) = v.at("ok").as_bool() {
        return Ok(v.at("result").at("message_id").as_i64());
    }
    if let Some(s) = v.at("parameters").at("retry_after").as_u64() {
        return Err(TgError::RetryAfter(s));
    }
    Err(
        TgError::Other(
            match v.str_at("description") {
                Some(d) => d.to_owned(),
                None => "unknown error".to_owned(),
            },
        ),
    )
}

/// The address of a method.
pub fn method_url(token: &str, method: &str) -> (r: String)
    ensures
        r@ == "https://api.telegram.org/bot"@ + token@ + "/"@ + method@,
{
    text::cat4("https://api.telegram.org/bot", token, "/", method)
}

/// How a turn ended.
#[derive(Clone, Copy, Debug, PartialEq, Eq, Structural)]
pub enum Outcome {
    Completed,
    Cancelled,
    Failed,
    /// Another turn took its place, or its prompt was withdrawn: nothing more is sent.
    Aborted,
    /// Events were missed: nothing more is sent.
    Lagged,
}

/// What came of a turn.
#[derive(Debug, PartialEq, Eq)]
pub struct TurnReport {
    pub outcome: Outcome,
    /// Whether some text was not delivered.
    pub delivery_failed: bool,
    /// The messages that the turn wrote, in order.
    pub message_ids: Vec<i64>,
}

/// The content of a `TurnReport`.
#[verifier::ext_equal]
pub struct ReportView {
    pub outcome: Outcome,
    pub delivery_failed: bool,
    pub message_ids: Seq<i64>,
}

impl View for TurnReport {
    type V = ReportView;

    open spec fn view(&self) -> ReportView {
        ReportView {
            outcome: self.outcome,
            delivery_failed: self.delivery_failed,
            message_ids: self.message_ids@,
        }
    }
}

/// What a turn is told.
#[derive(Debug)]
pub enum RelayInput {
    /// An event of the connection.
    Event(AcpEvent),
    /// Events were missed.
    Lagged,
    /// No event can come any more.
    Closed,
    /// The time came that was waited for.
    Timer,
    /// The turn has lasted too long.
    Deadline,
    /// What came of the call.
    Reply(Result<Option<i64>, TgError>),
    /// The pause is over.
    Woken,
}

/// The content of a `RelayInput`.
#[verifier::ext_equal]
pub enum RelayInputView {
    Event(EventView),
    Lagged,
    Closed,
    Timer,
    Deadline,
    Reply(ReplyView),
    Woken,
}

impl View for RelayInput {
    type V = RelayInputView;

    open spec fn view(&self) -> RelayInputView {
        match *self {
            RelayInput::Event(e) => RelayInputView::Event(e@),
            RelayInput::Lagged => RelayInputView::Lagged,
            RelayInput::Closed => RelayInputView::Closed,
            RelayInput::Timer => RelayInputView::Timer,
            RelayInput::Deadline => RelayInputView::Deadline,
            RelayInput::Reply(r) => RelayInputView::Reply(reply_view(r)),
            RelayInput::Woken => RelayInputView::Woken,
        }
    }
}

/// What a turn asks for.
#[derive(Debug)]
pub enum RelayAction {
    /// Call a method, and hand back what came of it.
    Call { method: String, body: Json },
    /// Pause for so many seconds.
    Sleep(u64),
    /// Wait for an event, and until this time at most.
    Wait { until: u64 },
    /// The turn is over.
    Done(TurnReport),
    /// Nothing: the input did not fit.
    Nothing,
}

/// The content of a `RelayAction`.
#[verifier::ext_equal]
pub enum ActionView {
    Call { method: Seq<char>, body: JsonView },
    Sleep(u64),
    Wait { until: u64 },
    Done(ReportView),
    Nothing,
}

impl View for RelayAction {
    type V = ActionView;

    open spec fn view(&self) -> ActionView {
        match *self {
            RelayAction::Call { method, body } => ActionView::Call {
                method: method@,
                body: body@,
            },
            RelayAction::Sleep(s) => ActionView::Sleep(s),
            RelayAction::Wait { until } => ActionView::Wait { until },
            RelayAction::Done(r) => ActionView::Done(r@),
            RelayAction::Nothing => ActionView::Nothing,
        }
    }
}

/// The message that is being written.
#[derive(Debug)]
pub struct Live {
    pub message_id: i64,
    /// What it shows.
    pub shown: String,
}

/// The content of a `Live`.
#[verifier::ext_equal]
pub struct LiveView {
    pub message_id: i64,
    pub shown: Seq<char>,
}

impl View for Live {
    type V = LiveView;

    open spec fn view(&self) -> LiveView {
        LiveView { message_id: self.message_id, shown: self.shown@ }
    }
}

impl DeepView for Live {
    type V = LiveView;

    open spec fn deep_view(&self) -> LiveView {
        self@
    }
}

/// What a text that was written is followed by.
#[derive(Clone, Copy, Debug, PartialEq, Eq, Structural)]
pub enum After {
    /// The message is full: the next text needs a new one.
    Head,
    /// More events.
    Update,
    /// The end of the turn.
    End,
}

/// A text on its way.
#[derive(Debug)]
pub struct WriteJob {
    pub text: String,
    pub html: String,
    /// The code that is open behind the text.
    pub fence: Option<String>,
    /// The message to edit; none where a new one is sent.
    pub edit: Option<i64>,
    /// Whether the text goes without format.
    pub plain: bool,
    /// How often the call was turned down for its rate.
    pub tries: u64,
    pub pausing: bool,
    pub after: After,
}

/// The content of a `WriteJob`.
#[verifier::ext_equal]
pub struct WriteView {
    pub text: Seq<char>,
    pub html: Seq<char>,
    pub fence: Option<Seq<char>>,
    pub edit: Option<i64>,
    pub plain: bool,
    pub tries: u64,
    pub pausing: bool,
    pub after: After,
}

impl View for WriteJob {
    type V = WriteView;

    open spec fn view(&self) -> WriteView {
        WriteView {
            text: self.text@,
            html: self.html@,
            fence: self.fence.deep_view(),
            edit: self.edit,
            plain: self.plain,
            tries: self.tries,
            pausing: self.pausing,
            after: self.after,
        }
    }
}

/// What a turn is busy with.
#[derive(Debug)]
#[allow(inconsistent_fields)]
pub enum Job {
    Idle,
    Draft { text: String },
    Write(WriteJob),
    Note { text: String, tries: u64, pausing: bool },
    Over,
}

/// The content of a `Job`.
#[allow(inconsistent_fields)]
#[verifier::ext_equal]
pub enum JobView {
    Idle,
    Draft { text: Seq<char> },
    Write(WriteView),
    Note { text: Seq<char>, tries: u64, pausing: bool },
    Over,
}

impl View for Job {
    type V = JobView;

    open spec fn view(&self) -> JobView {
        match *self {
            Job::Idle => JobView::Idle,
            Job::Draft { text } => JobView::Draft { text: text@ },
            Job::Write(w) => JobView::Write(w@),
            Job::Note { text, tries, pausing } => JobView::Note { text: text@, tries, pausing },
            Job::Over => JobView::Over,
        }
    }
}

/// A turn whose reply goes to a Telegram chat.
#[derive(Debug)]
pub struct TelegramTurn {
    chat_id: i64,
    draft_base: i64,
    texts: RelayTexts,
    body: Composer,
    live: Option<Live>,
    message_ids: Vec<i64>,
    delivery_failed: bool,
    draft_shown: Option<String>,
    last_update: Option<u64>,
    blocked_until: Option<u64>,
    fence: Option<String>,
    status: String,
    status_tool: Option<String>,
    queue: Vec<String>,
    outcome: Option<Outcome>,
    job: Job,
}

/// The content of a `TelegramTurn`.
#[verifier::ext_equal]
pub struct TurnView {
    pub chat_id: i64,
    pub draft_base: i64,
    pub texts: TextsView,
    /// The text of the current message.
    pub body: ComposerView,
    /// The message that is being written.
    pub live: Option<LiveView>,
    /// The messages that were written, in order.
    pub message_ids: Seq<i64>,
    pub delivery_failed: bool,
    /// What the draft shows.
    pub draft_shown: Option<Seq<char>>,
    pub last_update: Option<u64>,
    pub blocked_until: Option<u64>,
    /// The code that the text written last left open.
    pub fence: Option<Seq<char>>,
    pub status: Seq<char>,
    /// The tool that the status is about.
    pub status_tool: Option<Seq<char>>,
    /// The full messages that wait to be written.
    pub queue: Seq<Seq<char>>,
    pub outcome: Option<Outcome>,
    pub job: JobView,
}

/// A turn that has not begun.
pub open spec fn unbegun(chat_id: i64, draft_base: i64, texts: TextsView) -> TurnView {
    TurnView {
        chat_id,
        draft_base,
        texts,
        body: ComposerView { text: Seq::empty(), index: 0 },
        live: None,
        message_ids: Seq::empty(),
        delivery_failed: false,
        draft_shown: None,
        last_update: None,
        blocked_until: None,
        fence: None,
        status: texts.thinking,
        status_tool: None,
        queue: Seq::empty(),
        outcome: None,
        job: JobView::Idle,
    }
}

impl View for TelegramTurn {
    type V = TurnView;

    closed spec fn view(&self) -> TurnView {
        TurnView {
            chat_id: self.chat_id,
            draft_base: self.draft_base,
            texts: self.texts@,
            body: self.body@,
            live: self.live.deep_view(),
            message_ids: self.message_ids@,
            delivery_failed: self.delivery_failed,
            draft_shown: self.draft_shown.deep_view(),
            last_update: self.last_update,
            blocked_until: self.blocked_until,
            fence: self.fence.deep_view(),
            status: self.status@,
            status_tool: self.status_tool.deep_view(),
            queue: self.queue.deep_view(),
            outcome: self.outcome,
            job: self.job@,
        }
    }
}

/// What is to be seen: the text, with the status behind it while a tool runs; the
/// status alone while there is no text.
pub open spec fn display(v: TurnView) -> Seq<char> {
    let shown = text::trim_end(v.body.text);
    if text::trim(shown).len() == 0 {
        v.status
    } else if v.status_tool is Some {
        shown + "\n\n"@ + v.status
    } else {
        shown
    }
}

/// Whether something else is to be seen than what is shown.
pub open spec fn dirty(v: TurnView) -> bool {
    match v.live {
        Some(l) => l.shown != display(v),
        None => v.draft_shown != Some(display(v)),
    }
}

/// A later time; the last there is where it would lie behind it.
pub open spec fn later(t: u64, by: u64) -> u64 {
    if t + by <= u64::MAX {
        (t + by) as u64
    } else {
        u64::MAX
    }
}

/// When the turn acts on its own: soon where something is to be shown, in time to
/// keep a draft, and not at all for a message that shows what it should.
pub open spec fn next_time(v: TurnView, now: u64) -> u64 {
    let base = match v.last_update {
        Some(t) => t,
        None => now,
    };
    let next = if dirty(v) {
        later(base, MIN_UPDATE_INTERVAL_MS)
    } else if v.live is Some {
        later(base, MAX_TURN_MS)
    } else {
        later(base, DRAFT_HEARTBEAT_MS)
    };
    match v.blocked_until {
        Some(b) => if b > next {
            b
        } else {
            next
        },
        None => next,
    }
}

/// A turn that waits.
pub open spec fn waiting(v: TurnView, now: u64) -> (TurnView, ActionView) {
    (TurnView { job: JobView::Idle, ..v }, ActionView::Wait { until: next_time(v, now) })
}

/// The call of a draft.
pub open spec fn draft_call(v: TurnView, shown: Seq<char>) -> ActionView {
    ActionView::Call {
        method: "sendMessageDraft"@,
        body: JsonView::empty_object().with("chat_id"@, JsonView::of_i64(v.chat_id)).with(
            "draft_id"@,
            JsonView::of_i64(v.draft_base),
        ).with("text"@, JsonView::Str(shown)),
    }
}

/// A turn that sends a draft.
pub open spec fn drafting(v: TurnView, shown: Seq<char>, now: u64) -> (TurnView, ActionView) {
    (
        TurnView { last_update: Some(now), job: JobView::Draft { text: shown }, ..v },
        draft_call(v, shown),
    )
}

/// The call that writes a text.
pub open spec fn write_call(v: TurnView, w: WriteView) -> ActionView {
    let base = JsonView::empty_object().with("chat_id"@, JsonView::of_i64(v.chat_id));
    let base = match w.edit {
        Some(id) => base.with("message_id"@, JsonView::of_i64(id)),
        None => base,
    };
    ActionView::Call {
        method: if w.edit is Some {
            "editMessageText"@
        } else {
            "sendMessage"@
        },
        body: if w.plain {
            base.with("text"@, JsonView::Str(w.text))
        } else {
            base.with("text"@, JsonView::Str(w.html)).with(
                "parse_mode"@,
                JsonView::Str("HTML"@),
            )
        },
    }
}

/// Whether a text has to be written: it is not blank, and not what is shown.
pub open spec fn needed(v: TurnView, s: Seq<char>) -> bool {
    text::trim(s).len() > 0 && !(v.live matches Some(l) && l.shown == s)
}

/// A turn that writes a text: into its message, or into a new one.
pub open spec fn sending(v: TurnView, s: Seq<char>, after: After, now: u64) -> (
    TurnView,
    ActionView,
) {
    let w = WriteView {
        text: s,
        html: tg_html::rendered(s, v.fence),
        fence: tg_html::left_open(s, v.fence),
        edit: match v.live {
            Some(l) => Some(l.message_id),
            None => None,
        },
        plain: false,
        tries: 0,
        pausing: false,
        after,
    };
    (TurnView { last_update: Some(now), job: JobView::Write(w), ..v }, write_call(v, w))
}

/// A turn that writes the full messages that wait, each into a message of its own.
pub open spec fn next_head(v: TurnView, now: u64) -> (TurnView, ActionView)
    decreases v.queue.len(),
{
    if v.queue.len() == 0 {
        waiting(v, now)
    } else {
        let rest = TurnView { queue: v.queue.skip(1), ..v };
        if needed(rest, v.queue[0]) {
            sending(rest, v.queue[0], After::Head, now)
        } else {
            next_head(TurnView { live: None, ..rest }, now)
        }
    }
}

/// The report of a turn.
pub open spec fn report(v: TurnView) -> ReportView {
    ReportView {
        outcome: v.outcome->0,
        delivery_failed: v.delivery_failed,
        message_ids: v.message_ids,
    }
}

/// A turn that is over.
pub open spec fn over(v: TurnView) -> (TurnView, ActionView) {
    (TurnView { job: JobView::Over, ..v }, ActionView::Done(report(v)))
}

/// The remark that closes a turn, if it needs one.
pub open spec fn closing_note(v: TurnView) -> Option<Seq<char>> {
    match v.outcome {
        Some(Outcome::Completed) => if text::trim(v.body.text).len() == 0 && v.message_ids.len()
            == 0 {
            Some(v.texts.empty)
        } else {
            None
        },
        Some(Outcome::Cancelled) => Some(v.texts.cancelled),
        Some(Outcome::Failed) => Some(v.texts.failed),
        _ => None,
    }
}

/// The call of a remark.
pub open spec fn note_call(v: TurnView, note: Seq<char>) -> ActionView {
    ActionView::Call {
        method: "sendMessage"@,
        body: JsonView::empty_object().with("chat_id"@, JsonView::of_i64(v.chat_id)).with(
            "text"@,
            JsonView::Str(note),
        ),
    }
}

/// A turn whose text is complete: it sends its remark, if it needs one.
pub open spec fn noting(v: TurnView) -> (TurnView, ActionView) {
    match closing_note(v) {
        Some(note) => (
            TurnView { job: JobView::Note { text: note, tries: 0, pausing: false }, ..v },
            note_call(v, note),
        ),
        None => over(v),
    }
}

/// A turn that ends: its text is written without the status, then its remark. A turn
/// that was aborted or missed events sends nothing more.
pub open spec fn ending(v: TurnView, outcome: Outcome, now: u64) -> (TurnView, ActionView) {
    let v = TurnView { outcome: Some(outcome), ..v };
    if outcome == Outcome::Aborted || outcome == Outcome::Lagged {
        over(TurnView { delivery_failed: false, ..v })
    } else {
        let whole = text::trim(v.body.text);
        if needed(v, whole) {
            sending(v, whole, After::End, now)
        } else {
            noting(v)
        }
    }
}

/// A turn whose text was written, or could not be.
pub open spec fn settled(v: TurnView, w: WriteView, ok: bool, now: u64) -> (TurnView, ActionView) {
    let v = TurnView {
        fence: w.fence,
        blocked_until: None,
        delivery_failed: v.delivery_failed || !ok,
        ..v
    };
    match w.after {
        After::Head => next_head(TurnView { live: None, ..v }, now),
        After::Update => waiting(v, now),
        After::End => noting(v),
    }
}

/// Whether an error says that a message shows the text already.
pub open spec fn unchanged(e: Seq<char>) -> bool {
    text::contains(e, "not modified"@)
}

/// Whether an error says that a message cannot be edited any more.
pub open spec fn gone(e: Seq<char>) -> bool {
    text::contains(e, "not found"@) || text::contains(e, "can't be edited"@)
}

/// A turn whose call failed: it tries without format, writes a new message where the
/// old one is gone, or gives up on the text.
pub open spec fn failing(v: TurnView, w: WriteView, e: Seq<char>, now: u64) -> (
    TurnView,
    ActionView,
) {
    if !w.plain && !unchanged(e) && !gone(e) {
        let w = WriteView { plain: true, tries: 0, pausing: false, ..w };
        (TurnView { job: JobView::Write(w), ..v }, write_call(v, w))
    } else if w.edit is Some && unchanged(e) {
        settled(v, w, true, now)
    } else if w.edit is Some && gone(e) {
        sending(TurnView { live: None, ..v }, w.text, w.after, now)
    } else {
        settled(v, w, false, now)
    }
}

/// The pause before a call is tried again.
pub open spec fn pause(secs: u64) -> u64 {
    if secs < MAX_RETRY_WAIT_SECS {
        secs
    } else {
        MAX_RETRY_WAIT_SECS
    }
}

/// A turn whose text got an answer.
pub open spec fn on_written(v: TurnView, w: WriteView, reply: ReplyView, now: u64) -> (
    TurnView,
    ActionView,
) {
    match reply {
        ReplyView::Delivered(id) => {
            let v = match w.edit {
                Some(_) => match v.live {
                    Some(l) => TurnView {
                        live: Some(LiveView { message_id: l.message_id, shown: w.text }),
                        ..v
                    },
                    None => v,
                },
                None => match id {
                    Some(id) => TurnView {
                        message_ids: v.message_ids.push(id),
                        live: Some(LiveView { message_id: id, shown: w.text }),
                        ..v
                    },
                    None => v,
                },
            };
            settled(v, w, true, now)
        },
        ReplyView::Limited(s) => (
            TurnView {
                job: JobView::Write(
                    WriteView { tries: later(w.tries, 1), pausing: true, ..w },
                ),
                ..v
            },
            ActionView::Sleep(pause(s)),
        ),
        ReplyView::Refused(e) => failing(v, w, e, now),
    }
}

/// A turn whose draft got an answer. A draft is for show: a failure is passed over.
pub open spec fn on_drafted(v: TurnView, shown: Seq<char>, reply: ReplyView, now: u64) -> (
    TurnView,
    ActionView,
) {
    let v = match reply {
        ReplyView::Delivered(_) => TurnView {
            draft_shown: Some(shown),
            blocked_until: None,
            ..v
        },
        ReplyView::Limited(s) => TurnView {
            blocked_until: Some(later(now, millis(s))),
            ..v
        },
        ReplyView::Refused(_) => TurnView { draft_shown: Some(shown), ..v },
    };
    waiting(v, now)
}

/// Seconds in milliseconds, up to the largest number.
pub open spec fn millis(secs: u64) -> u64 {
    if secs * 1000 <= u64::MAX {
        (secs * 1000) as u64
    } else {
        u64::MAX
    }
}

/// A turn whose remark got an answer.
pub open spec fn on_noted(v: TurnView, note: Seq<char>, tries: u64, reply: ReplyView) -> (
    TurnView,
    ActionView,
) {
    match reply {
        ReplyView::Delivered(Some(id)) => over(
            TurnView { message_ids: v.message_ids.push(id), ..v },
        ),
        ReplyView::Delivered(None) => over(v),
        ReplyView::Limited(s) => (
            TurnView {
                job: JobView::Note { text: note, tries: later(tries, 1), pausing: true },
                ..v
            },
            ActionView::Sleep(pause(s)),
        ),
        ReplyView::Refused(_) => over(TurnView { delivery_failed: true, ..v }),
    }
}

/// How a turn ended that stopped for a reason.
pub open spec fn outcome_of(stop_reason: Seq<char>) -> Outcome {
    if stop_reason == "end_turn"@ {
        Outcome::Completed
    } else if stop_reason == "cancelled"@ {
        Outcome::Cancelled
    } else {
        Outcome::Failed
    }
}

/// The status line that an update of a tool brings, if it brings one.
pub open spec fn updated_line(description: Option<Seq<char>>, title: Option<Seq<char>>) -> Option<
    Seq<char>,
> {
    match description {
        Some(d) => tool_line(Some(d), ""@),
        None => match title {
            Some(t) => tool_line(None, t),
            None => None,
        },
    }
}

/// A turn that waits and gets an event.
pub open spec fn on_event(v: TurnView, e: EventView, now: u64) -> (TurnView, ActionView) {
    match e {
        EventView::ContentDelta { text, parent_tool_use_id } => if parent_tool_use_id is None {
            let (body, heads) = composer::grown(v.body, text);
            next_head(TurnView { body, queue: heads, ..v }, now)
        } else {
            waiting(v, now)
        },
        EventView::ToolCall { tool_call_id, title, description, .. } => match tool_line(
            description,
            title,
        ) {
            Some(line) => waiting(
                TurnView { status: line, status_tool: Some(tool_call_id), ..v },
                now,
            ),
            None => waiting(v, now),
        },
        EventView::ToolCallUpdate { tool_call_id, title, description, status, .. } => if v.status_tool
            == Some(tool_call_id) {
            if status == Some("completed"@) || status == Some("failed"@) {
                waiting(TurnView { status: v.texts.thinking, status_tool: None, ..v }, now)
            } else {
                match updated_line(description, title) {
                    Some(line) => waiting(TurnView { status: line, ..v }, now),
                    None => waiting(v, now),
                }
            }
        } else {
            waiting(v, now)
        },
        EventView::TurnComplete { stop_reason, .. } => ending(v, outcome_of(stop_reason), now),
        EventView::Error { terminal, .. } => if terminal {
            ending(v, Outcome::Failed, now)
        } else {
            waiting(v, now)
        },
        EventView::StatusChanged { status } => if status == ConnectionStatus::Disconnected
            || status == ConnectionStatus::Error {
            ending(v, Outcome::Failed, now)
        } else {
            waiting(v, now)
        },
        _ => waiting(v, now),
    }
}

/// A turn that waits and whose time has come.
pub open spec fn on_timer(v: TurnView, now: u64) -> (TurnView, ActionView) {
    if text::trim(v.body.text).len() == 0 {
        drafting(v, display(v), now)
    } else if needed(v, display(v)) {
        sending(v, display(v), After::Update, now)
    } else {
        waiting(v, now)
    }
}

/// A turn that is busy with nothing.
pub open spec fn free(v: TurnView) -> TurnView {
    TurnView { job: JobView::Idle, ..v }
}

/// A turn that is told something.
pub open spec fn step(v: TurnView, input: RelayInputView, now: u64) -> (TurnView, ActionView) {
    match (v.job, input) {
        (JobView::Idle, RelayInputView::Event(e)) => on_event(v, e, now),
        (JobView::Idle, RelayInputView::Lagged) => ending(v, Outcome::Lagged, now),
        (JobView::Idle, RelayInputView::Closed) => ending(v, Outcome::Aborted, now),
        (JobView::Idle, RelayInputView::Timer) => on_timer(v, now),
        (JobView::Idle, RelayInputView::Deadline) => ending(v, Outcome::Failed, now),
        (JobView::Draft { text }, RelayInputView::Reply(r)) => on_drafted(free(v), text, r, now),
        (JobView::Write(w), RelayInputView::Reply(r)) => if w.pausing {
            (v, ActionView::Nothing)
        } else {
            on_written(free(v), w, r, now)
        },
        (JobView::Write(w), RelayInputView::Woken) => if !w.pausing {
            (v, ActionView::Nothing)
        } else if w.tries < SEND_RETRIES {
            let w = WriteView { pausing: false, ..w };
            (TurnView { job: JobView::Write(w), ..v }, write_call(v, w))
        } else {
            failing(free(v), w, "rate limited"@, now)
        },
        (JobView::Note { text, tries, pausing }, RelayInputView::Reply(r)) => if pausing {
            (v, ActionView::Nothing)
        } else {
            on_noted(free(v), text, tries, r)
        },
        (JobView::Note { text, tries, pausing }, RelayInputView::Woken) => if !pausing {
            (v, ActionView::Nothing)
        } else if tries < SEND_RETRIES {
            (
                TurnView { job: JobView::Note { text, tries, pausing: false }, ..v },
                note_call(v, text),
            )
        } else {
            over(TurnView { delivery_failed: true, ..free(v) })
        },
        _ => (v, ActionView::Nothing),
    }
}

/// A later time; the last there is where it would lie behind it.
fn add_time(t: u64, by: u64) -> (r: u64)
    ensures
        r == later(t, by),
{
    if by <= u64::MAX - t {
        t + by
    } else {
        u64::MAX
    }
}

/// Whether an error says that a message shows the text already.
fn says_unchanged(e: &str) -> (r: bool)
    ensures
        r == unchanged(e@),
{
    text::has(e, "not modified")
}

/// Whether an error says that a message cannot be edited any more.
fn says_gone(e: &str) -> (r: bool)
    ensures
        r == gone(e@),
{
    text::has(e, "not found") || text::has(e, "can't be edited")
}

/// How a turn ended that stopped for a reason.
pub fn read_outcome(stop_reason: &str) -> (r: Outcome)
    ensures
        r == outcome_of(stop_reason@),
{
    if text::same(stop_reason, "end_turn") {
        Outcome::Completed
    } else if text::same(stop_reason, "cancelled") {
        Outcome::Cancelled
    } else {
        Outcome::Failed
    }
}

/// The status line that an update of a tool brings, if it brings one.
fn update_line(description: &Option<String>, title: &Option<String>) -> (r: Option<String>)
    ensures
        r.deep_view() == updated_line(description.deep_view(), title.deep_view()),
{
    match description {
        Some(d) => tool_status(Some(d.as_str()), ""),
        None => match title {
            Some(t) => tool_status(None, t.as_str()),
            None => None,
        },
    }
}

impl TelegramTurn {
    /// A turn that has not begun.
    pub fn new(chat_id: i64, draft_base: i64, texts: RelayTexts) -> (r: TelegramTurn)
        ensures
            r@ == unbegun(chat_id, draft_base, texts@),
    {
        let status = texts.thinking.clone();
        let queue: Vec<String> = Vec::new();
        assert(queue.deep_view() =~= Seq::empty());
        TelegramTurn {
            chat_id,
            draft_base,
            texts,
            body: Composer::new(),
            live: None,
            message_ids: Vec::new(),
            delivery_failed: false,
            draft_shown: None,
            last_update: None,
            blocked_until: None,
            fence: None,
            status,
            status_tool: None,
            queue,
            outcome: None,
            job: Job::Idle,
        }
    }

    /// What is to be seen.
    pub fn display(&self) -> (r: String)
        ensures
            r@ == display(self@),
    {
        let shown = text::trimmed_end(self.body.text());
        if text::trimmed(shown.as_str()).as_str().is_empty() {
            return self.status.clone();
        }
        if self.status_tool.is_some() {
            text::cat3(shown.as_str(), "\n\n", self.status.as_str())
        } else {
            shown
        }
    }

    /// Waits.
    fn wait(&mut self, now: u64) -> (r: RelayAction)
        ensures
            (final(self)@, r@) == waiting(old(self)@, now),
    {
        let want = self.display();
        let dirty = match &self.live {
            Some(l) => !text::same(l.shown.as_str(), want.as_str()),
            None => !text::is_text(&self.draft_shown, want.as_str()),
        };
        let base: u64 = match self.last_update {
            Some(t) => t,
            None => now,
        };
        let next: u64 = if dirty {
            add_time(base, MIN_UPDATE_INTERVAL_MS)
        } else if self.live.is_some() {
            add_time(base, MAX_TURN_MS)
        } else {
            add_time(base, DRAFT_HEARTBEAT_MS)
        };
        let until: u64 = match self.blocked_until {
            Some(b) => if b > next {
                b
            } else {
                next
            },
            None => next,
        };
        self.job = Job::Idle;
        RelayAction::Wait { until }
    }

    /// Sends a draft.
    fn draft(&mut self, shown: String, now: u64) -> (r: RelayAction)
        ensures
            (final(self)@, r@) == drafting(old(self)@, shown@, now),
    {
        let body = Json::empty_object().with("chat_id", Json::of_i64(self.chat_id)).with(
            "draft_id",
            Json::of_i64(self.draft_base),
        ).with("text", Json::of_str(shown.as_str()));
        self.last_update = Some(now);
        self.job = Job::Draft { text: shown };
        RelayAction::Call { method: "sendMessageDraft".to_owned(), body }
    }

    /// Shows the status as a draft, before anything else.
    pub fn start(&mut self, now: u64) -> (r: RelayAction)
        ensures
            (final(self)@, r@) == drafting(old(self)@, old(self)@.status, now),
    {
        let shown = self.status.clone();
        self.draft(shown, now)
    }

    /// The call that writes a text.
    fn call_for(&self, w: &WriteJob) -> (r: RelayAction)
        ensures
            r@ == write_call(self@, w@),
    {
        let mut body = Json::empty_object().with("chat_id", Json::of_i64(self.chat_id));
        let mut method = "sendMessage";
        if let Some(id) = w.edit {
            body = body.with("message_id", Json::of_i64(id));
            method = "editMessageText";
        }
        if w.plain {
            body = body.with("text", Json::of_str(w.text.as_str()));
        } else {
            body = body.with("text", Json::of_str(w.html.as_str())).with(
                "parse_mode",
                Json::of_str("HTML"),
            );
        }
        RelayAction::Call { method: method.to_owned(), body }
    }

    /// Whether a text has to be written.
    fn needs(&self, s: &str) -> (r: bool)
        ensures
            r == needed(self@, s@),
    {
        if text::trimmed(s).as_str().is_empty() {
            return false;
        }
        match &self.live {
            Some(l) => !text::same(l.shown.as_str(), s),
            None => true,
        }
    }

    /// Writes a text: into the message there is, or into a new one.
    fn send(&mut self, s: String, after: After, now: u64) -> (r: RelayAction)
        ensures
            (final(self)@, r@) == sending(old(self)@, s@, after, now),
    {
        let mut fence = text::copied(&self.fence);
        let html = tg_html::render_chunk(s.as_str(), &mut fence);
        let edit: Option<i64> = match &self.live {
            Some(l) => Some(l.message_id),
            None => None,
        };
        let w = WriteJob {
            text: s,
            html,
            fence,
            edit,
            plain: false,
            tries: 0,
            pausing: false,
            after,
        };
        let action = self.call_for(&w);
        self.last_update = Some(now);
        self.job = Job::Write(w);
        action
    }

    /// Writes the full messages that wait.
    fn write_heads(&mut self, now: u64) -> (r: RelayAction)
        ensures
            (final(self)@, r@) == next_head(old(self)@, now),
    {
        let ghost start = self@;
        while self.queue.len() > 0
            invariant
                start == old(self)@,
                next_head(start, now) == next_head(self@, now),
            decreases self.queue@.len(),
        {
            let ghost before = self@;
            let ghost queue = self.queue.deep_view();
            let head = self.queue.remove(0);
            assert(queue[0] == head@);
            assert(self.queue.deep_view() =~= queue.skip(1));
            assert(self@ =~= (TurnView { queue: queue.skip(1), ..before }));
            if self.needs(head.as_str()) {
                return self.send(head, After::Head, now);
            }
            self.live = None;
        }
        assert(self.queue.deep_view().len() == 0);
        self.wait(now)
    }

    /// Ends with a report.
    fn finish(&mut self, outcome: Outcome) -> (r: RelayAction)
        requires
            old(self)@.outcome == Some(outcome),
        ensures
            (final(self)@, r@) == over(old(self)@),
    {
        self.job = Job::Over;
        let mut message_ids: Vec<i64> = Vec::new();
        for i in 0..self.message_ids.len()
            invariant
                message_ids@ == self.message_ids@.take(i as int),
        {
            message_ids.push(self.message_ids[i]);
            assert(message_ids@ =~= self.message_ids@.take(i + 1));
        }
        assert(message_ids@ =~= self.message_ids@);
        RelayAction::Done(
            TurnReport { outcome, delivery_failed: self.delivery_failed, message_ids },
        )
    }

    /// The call of a remark.
    fn call_note(&self, note: &str) -> (r: RelayAction)
        ensures
            r@ == note_call(self@, note@),
    {
        RelayAction::Call {
            method: "sendMessage".to_owned(),
            body: Json::empty_object().with("chat_id", Json::of_i64(self.chat_id)).with(
                "text",
                Json::of_str(note),
            ),
        }
    }

    /// Sends the closing remark, if one is needed.
    fn note(&mut self, outcome: Outcome) -> (r: RelayAction)
        requires
            old(self)@.outcome == Some(outcome),
        ensures
            (final(self)@, r@) == noting(old(self)@),
    {
        let note: Option<String> = match outcome {
            Outcome::Completed => if text::trimmed(self.body.text()).as_str().is_empty()
                && self.message_ids.len() == 0 {
                Some(self.texts.empty.clone())
            } else {
                None
            },
            Outcome::Cancelled => Some(self.texts.cancelled.clone()),
            Outcome::Failed => Some(self.texts.failed.clone()),
            _ => None,
        };
        match note {
            Some(text) => {
                let action = self.call_note(text.as_str());
                self.job = Job::Note { text, tries: 0, pausing: false };
                action
            },
            None => self.finish(outcome),
        }
    }

    /// Ends.
    fn end(&mut self, outcome: Outcome, now: u64) -> (r: RelayAction)
        ensures
            (final(self)@, r@) == ending(old(self)@, outcome, now),
    {
        self.outcome = Some(outcome);
        if outcome == Outcome::Aborted || outcome == Outcome::Lagged {
            self.delivery_failed = false;
            return self.finish(outcome);
        }
        let whole = text::trimmed(self.body.text());
        if self.needs(whole.as_str()) {
            self.send(whole, After::End, now)
        } else {
            self.note(outcome)
        }
    }

    /// Goes on after a text was written, or could not be.
    fn settle(&mut self, w: WriteJob, ok: bool, now: u64) -> (r: RelayAction)
        requires
            w.after == After::End ==> old(self)@.outcome is Some,
        ensures
            (final(self)@, r@) == settled(old(self)@, w@, ok, now),
    {
        self.fence = w.fence;
        self.blocked_until = None;
        self.delivery_failed = self.delivery_failed || !ok;
        match w.after {
            After::Head => {
                self.live = None;
                self.write_heads(now)
            },
            After::Update => self.wait(now),
            After::End => match self.outcome {
                Some(outcome) => self.note(outcome),
                None => self.wait(now),
            },
        }
    }

    /// Goes on after a call failed.
    fn fail(&mut self, w: WriteJob, e: &str, now: u64) -> (r: RelayAction)
        requires
            w.after == After::End ==> old(self)@.outcome is Some,
        ensures
            (final(self)@, r@) == failing(old(self)@, w@, e@, now),
    {
        let unchanged = says_unchanged(e);
        let gone = says_gone(e);
        if !w.plain && !unchanged && !gone {
            let mut w = w;
            w.plain = true;
            w.tries = 0;
            w.pausing = false;
            let action = self.call_for(&w);
            self.job = Job::Write(w);
            action
        } else if w.edit.is_some() && unchanged {
            self.settle(w, true, now)
        } else if w.edit.is_some() && gone {
            self.live = None;
            self.send(w.text, w.after, now)
        } else {
            self.settle(w, false, now)
        }
    }

    /// Goes on after a text got an answer.
    fn on_written(&mut self, w: WriteJob, reply: Result<Option<i64>, TgError>, now: u64) -> (r:
        RelayAction)
        requires
            w.after == After::End ==> old(self)@.outcome is Some,
        ensures
            (final(self)@, r@) == on_written(old(self)@, w@, reply_view(reply), now),
    {
        match reply {
            Ok(id) => {
                if w.edit.is_some() {
                    let live = self.live.take();
                    if let Some(l) = live {
                        self.live = Some(
                            Live { message_id: l.message_id, shown: w.text.clone() },
                        );
                    }
                } else if let Some(id) = id {
                    self.message_ids.push(id);
                    self.live = Some(Live { message_id: id, shown: w.text.clone() });
                }
                self.settle(w, true, now)
            },
            Err(TgError::RetryAfter(s)) => {
                let mut w = w;
                w.tries = add_time(w.tries, 1);
                w.pausing = true;
                self.job = Job::Write(w);
                RelayAction::Sleep(
                    if s < MAX_RETRY_WAIT_SECS {
                        s
                    } else {
                        MAX_RETRY_WAIT_SECS
                    },
                )
            },
            Err(TgError::Other(e)) => self.fail(w, e.as_str(), now),
        }
    }

    /// Goes on after a draft got an answer.
    fn on_drafted(&mut self, shown: String, reply: Result<Option<i64>, TgError>, now: u64) -> (r:
        RelayAction)
        ensures
            (final(self)@, r@) == on_drafted(old(self)@, shown@, reply_view(reply), now),
    {
        match reply {
            Ok(_) => {
                self.draft_shown = Some(shown);
                self.blocked_until = None;
            },
            Err(TgError::RetryAfter(s)) => {
                let wait: u64 = if s <= u64::MAX / 1000 {
                    s * 1000
                } else {
                    u64::MAX
                };
                self.blocked_until = Some(add_time(now, wait));
            },
            Err(TgError::Other(_)) => {
                self.draft_shown = Some(shown);
            },
        }
        self.wait(now)
    }

    /// Goes on after the remark got an answer.
    fn on_noted(
        &mut self,
        text: String,
        tries: u64,
        outcome: Outcome,
        reply: Result<Option<i64>, TgError>,
    ) -> (r: RelayAction)
        requires
            old(self)@.outcome == Some(outcome),
        ensures
            (final(self)@, r@) == on_noted(old(self)@, text@, tries, reply_view(reply)),
    {
        match reply {
            Ok(id) => {
                if let Some(id) = id {
                    self.message_ids.push(id);
                }
                self.finish(outcome)
            },
            Err(TgError::RetryAfter(s)) => {
                self.job = Job::Note { text, tries: add_time(tries, 1), pausing: true };
                RelayAction::Sleep(
                    if s < MAX_RETRY_WAIT_SECS {
                        s
                    } else {
                        MAX_RETRY_WAIT_SECS
                    },
                )
            },
            Err(TgError::Other(_)) => {
                self.delivery_failed = true;
                self.finish(outcome)
            },
        }
    }

    /// Goes on after an event.
    fn on_event(&mut self, event: AcpEvent, now: u64) -> (r: RelayAction)
        ensures
            (final(self)@, r@) == on_event(old(self)@, event@, now),
    {
        match event {
            AcpEvent::ContentDelta { text, parent_tool_use_id } => if parent_tool_use_id.is_none() {
                self.queue = self.body.push(text.as_str());
                self.write_heads(now)
            } else {
                self.wait(now)
            },
            AcpEvent::ToolCall { tool_call_id, title, description, .. } => {
                if let Some(line) = tool_status(text::borrowed(&description), title.as_str()) {
                    self.status = line;
                    self.status_tool = Some(tool_call_id);
                }
                self.wait(now)
            },
            AcpEvent::ToolCallUpdate { tool_call_id, title, description, status, .. } => {
                if text::is_text(&self.status_tool, tool_call_id.as_str()) {
                    if text::is_text(&status, "completed") || text::is_text(&status, "failed") {
                        self.status = self.texts.thinking.clone();
                        self.status_tool = None;
                    } else if let Some(line) = update_line(&description, &title) {
                        self.status = line;
                    }
                }
                self.wait(now)
            },
            AcpEvent::TurnComplete { stop_reason, .. } => self.end(
                read_outcome(stop_reason.as_str()),
                now,
            ),
            AcpEvent::Error { terminal, .. } => if terminal {
                self.end(Outcome::Failed, now)
            } else {
                self.wait(now)
            },
            AcpEvent::StatusChanged { status } => if status == ConnectionStatus::Disconnected
                || status == ConnectionStatus::Error {
                self.end(Outcome::Failed, now)
            } else {
                self.wait(now)
            },
            _ => self.wait(now),
        }
    }

    /// Goes on after the time came that was waited for.
    fn on_timer(&mut self, now: u64) -> (r: RelayAction)
        ensures
            (final(self)@, r@) == on_timer(old(self)@, now),
    {
        let want = self.display();
        if text::trimmed(self.body.text()).as_str().is_empty() {
            self.draft(want, now)
        } else if self.needs(want.as_str()) {
            self.send(want, After::Update, now)
        } else {
            self.wait(now)
        }
    }

    /// Takes the next input, and says what is to be done. `now` is the time in
    /// milliseconds.
    pub fn on_input(&mut self, input: RelayInput, now: u64) -> (r: RelayAction)
        requires
            sound(old(self)@),
        ensures
            (final(self)@, r@) == step(old(self)@, input@, now),
            sound(final(self)@),
    {
        let ghost before = self@;
        proof {
            step_keeps_sound(before, input@, now);
        }
        let mut job = Job::Idle;
        std::mem::swap(&mut job, &mut self.job);
        match job {
            Job::Idle => match input {
                RelayInput::Event(e) => self.on_event(e, now),
                RelayInput::Lagged => self.end(Outcome::Lagged, now),
                RelayInput::Closed => self.end(Outcome::Aborted, now),
                RelayInput::Timer => self.on_timer(now),
                RelayInput::Deadline => self.end(Outcome::Failed, now),
                _ => RelayAction::Nothing,
            },
            Job::Draft { text } => match input {
                RelayInput::Reply(reply) => self.on_drafted(text, reply, now),
                _ => {
                    self.job = Job::Draft { text };
                    RelayAction::Nothing
                },
            },
            Job::Write(w) => match input {
                RelayInput::Reply(reply) => if w.pausing {
                    self.job = Job::Write(w);
                    RelayAction::Nothing
                } else {
                    self.on_written(w, reply, now)
                },
                RelayInput::Woken => if !w.pausing {
                    self.job = Job::Write(w);
                    RelayAction::Nothing
                } else if w.tries < SEND_RETRIES {
                    let mut w = w;
                    w.pausing = false;
                    let action = self.call_for(&w);
                    self.job = Job::Write(w);
                    action
                } else {
                    self.fail(w, "rate limited", now)
                },
                _ => {
                    self.job = Job::Write(w);
                    RelayAction::Nothing
                },
            },
            Job::Note { text, tries, pausing } => {
                let outcome = match self.outcome {
                    Some(o) => o,
                    None => Outcome::Failed,
                };
                match input {
                    RelayInput::Reply(reply) => if pausing {
                        self.job = Job::Note { text, tries, pausing };
                        RelayAction::Nothing
                    } else {
                        self.on_noted(text, tries, outcome, reply)
                    },
                    RelayInput::Woken => if !pausing {
                        self.job = Job::Note { text, tries, pausing };
                        RelayAction::Nothing
                    } else if tries < SEND_RETRIES {
                        let action = self.call_note(text.as_str());
                        self.job = Job::Note { text, tries, pausing: false };
                        action
                    } else {
                        self.delivery_failed = true;
                        self.finish(outcome)
                    },
                    _ => {
                        self.job = Job::Note { text, tries, pausing };
                        RelayAction::Nothing
                    },
                }
            },
            Job::Over => {
                self.job = Job::Over;
                RelayAction::Nothing
            },
        }
    }
}

/// Whether a call may have been turned down so often for its rate.
pub open spec fn tried(tries: u64, pausing: bool) -> bool {
    if pausing {
        tries <= SEND_RETRIES
    } else {
        tries < SEND_RETRIES
    }
}

/// Whether a turn is in a state that it can come into: one that writes its last text
/// or its remark knows how it ended, and no call is tried too often.
pub open spec fn sound(v: TurnView) -> bool {
    match v.job {
        JobView::Write(w) => (w.after == After::End ==> v.outcome is Some) && tried(
            w.tries,
            w.pausing,
        ),
        JobView::Note { tries, pausing, .. } => v.outcome is Some && tried(tries, pausing),
        _ => true,
    }
}

/// Writing the full messages keeps a turn sound.
proof fn heads_keep_sound(v: TurnView, now: u64)
    ensures
        sound(next_head(v, now).0),
    decreases v.queue.len(),
{
    if v.queue.len() > 0 {
        let rest = TurnView { queue: v.queue.skip(1), ..v };
        if !needed(rest, v.queue[0]) {
            heads_keep_sound(TurnView { live: None, ..rest }, now);
        }
    }
}

/// Every step keeps a turn sound.
proof fn step_keeps_sound(v: TurnView, input: RelayInputView, now: u64)
    requires
        sound(v),
    ensures
        sound(step(v, input, now).0),
{
    match (v.job, input) {
        (JobView::Idle, RelayInputView::Event(EventView::ContentDelta { text, .. })) => {
            let (body, heads) = composer::grown(v.body, text);
            heads_keep_sound(TurnView { body, queue: heads, ..v }, now);
        },
        (JobView::Write(w), _) => {
            let plain = TurnView {
                fence: w.fence,
                blocked_until: None,
                live: None,
                ..free(v)
            };
            heads_keep_sound(TurnView { delivery_failed: v.delivery_failed || false, ..plain }, now);
            heads_keep_sound(TurnView { delivery_failed: true, ..plain }, now);
            if let RelayInputView::Reply(ReplyView::Delivered(Some(id))) = input {
                heads_keep_sound(
                    TurnView { message_ids: v.message_ids.push(id), ..plain },
                    now,
                );
            }
        },
        _ => {},
    }
}

/// A turn whose events were missed, or whose place was taken, calls nothing any more
/// and reports no failure: its reply is left to others.
pub proof fn handed_back_turns_send_nothing(v: TurnView, now: u64)
    requires
        v.job == JobView::Idle,
    ensures
        step(v, RelayInputView::Lagged, now).1 == ActionView::Done(
            ReportView {
                outcome: Outcome::Lagged,
                delivery_failed: false,
                message_ids: v.message_ids,
            },
        ),
        step(v, RelayInputView::Closed, now).1 == ActionView::Done(
            ReportView {
                outcome: Outcome::Aborted,
                delivery_failed: false,
                message_ids: v.message_ids,
            },
        ),
{
}

/// A turn that is over does nothing more, whatever it is told.
pub proof fn nothing_follows_the_end(v: TurnView, input: RelayInputView, now: u64)
    requires
        v.job == JobView::Over,
    ensures
        step(v, input, now) == (v, ActionView::Nothing),
{
}

/// While there is a message, text is edited into it and not sent anew.
pub proof fn text_grows_in_one_message(v: TurnView, s: Seq<char>, after: After, now: u64)
    requires
        v.live is Some,
    ensures
        sending(v, s, after, now).1 matches ActionView::Call { method, body } && method
            == "editMessageText"@ && body.at("message_id"@) == JsonView::of_i64(
            v.live->0.message_id,
        ),
{
    reveal_strlit("chat_id");
    reveal_strlit("message_id");
    reveal_strlit("text");
    reveal_strlit("parse_mode");
    assert("chat_id"@.len() == 7 && "message_id"@.len() == 10 && "text"@.len() == 4);
    assert("parse_mode"@.len() == 10 && "parse_mode"@[0] == 'p' && "message_id"@[0] == 'm');
    let w = sending(v, s, after, now).0.job->Write_0;
    let base = JsonView::empty_object().with("chat_id"@, JsonView::of_i64(v.chat_id));
    let edited = base.with("message_id"@, JsonView::of_i64(v.live->0.message_id));
    let id = JsonView::of_i64(v.live->0.message_id);
    json::with_holds(JsonView::empty_object(), "chat_id"@, JsonView::of_i64(v.chat_id), "message_id"@);
    json::with_holds(base, "message_id"@, id, "text"@);
    json::with_holds(edited, "text"@, JsonView::Str(w.html), "message_id"@);
    json::with_holds(
        edited.with("text"@, JsonView::Str(w.html)),
        "parse_mode"@,
        JsonView::Str("HTML"@),
        "message_id"@,
    );
}

/// A message that shows what it should is left alone, however often the time comes.
pub proof fn shown_text_is_not_sent_again(v: TurnView, now: u64)
    requires
        v.job == JobView::Idle,
        v.live is Some,
        !dirty(v),
        text::trim(v.body.text).len() > 0,
    ensures
        step(v, RelayInputView::Timer, now) == (v, ActionView::Wait { until: next_time(v, now) }),
{
}

/// Updates keep their distance, and no update comes while calls are blocked.
pub proof fn updates_are_spaced(v: TurnView, now: u64)
    ensures
        waiting(v, now).1 matches ActionView::Wait { until } && (v.last_update matches Some(t) ==> until
            >= later(t, MIN_UPDATE_INTERVAL_MS)) && (v.blocked_until matches Some(b) ==> until >= b),
{
}

/// A draft is sent again before it vanishes: while there is no message and calls are
/// not blocked, the next update is at most the heartbeat away from the last.
pub proof fn drafts_are_kept_alive(v: TurnView, now: u64)
    requires
        v.live is None,
        v.blocked_until is None,
        v.last_update is Some,
    ensures
        waiting(v, now).1 matches ActionView::Wait { until } && until <= later(
            v.last_update->0,
            DRAFT_HEARTBEAT_MS,
        ),
{
}

/// Writing the full messages adds no message by itself.
proof fn heads_add_no_message(v: TurnView, now: u64)
    ensures
        next_head(v, now).0.message_ids == v.message_ids,
    decreases v.queue.len(),
{
    if v.queue.len() > 0 {
        let rest = TurnView { queue: v.queue.skip(1), ..v };
        if !needed(rest, v.queue[0]) {
            heads_add_no_message(TurnView { live: None, ..rest }, now);
        }
    }
}

/// The messages of a turn are those that were delivered as new, in order: a step adds
/// one only where a call that was no edit was answered with its id, and takes none
/// away.
pub proof fn messages_are_those_delivered(v: TurnView, input: RelayInputView, now: u64)
    ensures
        ({
            let ids = step(v, input, now).0.message_ids;
            ||| ids == v.message_ids
            ||| input matches RelayInputView::Reply(ReplyView::Delivered(Some(id))) && ids
                == v.message_ids.push(id) && match v.job {
                JobView::Write(w) => w.edit is None,
                JobView::Note { .. } => true,
                _ => false,
            }
        }),
{
    match (v.job, input) {
        (JobView::Idle, RelayInputView::Event(EventView::ContentDelta { text, .. })) => {
            let (body, heads) = composer::grown(v.body, text);
            heads_add_no_message(TurnView { body, queue: heads, ..v }, now);
        },
        (JobView::Write(w), _) => {
            let plain = TurnView {
                fence: w.fence,
                blocked_until: None,
                live: None,
                ..free(v)
            };
            heads_add_no_message(plain, now);
            heads_add_no_message(TurnView { delivery_failed: true, ..plain }, now);
            if let RelayInputView::Reply(ReplyView::Delivered(Some(id))) = input {
                heads_add_no_message(
                    TurnView { message_ids: v.message_ids.push(id), ..plain },
                    now,
                );
            }
        },
        _ => {},
    }
}

/// A turn that completes writes its whole text without the status, unless its message
/// shows exactly that.
pub proof fn completion_writes_the_text(v: TurnView, now: u64)
    requires
        v.job == JobView::Idle,
        text::trim(v.body.text).len() > 0,
    ensures
        ({
            let (after, action) = ending(v, Outcome::Completed, now);
            if v.live matches Some(l) && l.shown == text::trim(v.body.text) {
                action == ActionView::Done(
                    ReportView {
                        outcome: Outcome::Completed,
                        delivery_failed: v.delivery_failed,
                        message_ids: v.message_ids,
                    },
                )
            } else {
                after.job matches JobView::Write(w) && w.text == text::trim(v.body.text) && w.after
                    == After::End
            }
        }),
{
    trim_is_stable(v.body.text);
}

/// Trimming a trimmed text changes nothing.
proof fn trim_is_stable(s: Seq<char>)
    ensures
        text::trim(text::trim(s)) == text::trim(s),
{
    let t = text::trim_start(s);
    front_is_kept(s);
    end_is_trimmed(t);
    let u = text::trim_end(t);
    if u.len() > 0 {
        end_keeps_front(t);
        assert(text::trim_start(u) == u);
    }
    end_is_trimmed(u);
}

/// A text trimmed in front begins with no white space.
proof fn front_is_kept(s: Seq<char>)
    ensures
        text::trim_start(s).len() > 0 ==> !text::white(text::trim_start(s)[0]),
    decreases s.len(),
{
    if s.len() > 0 && text::white(s[0]) {
        front_is_kept(s.skip(1));
    }
}

/// A text trimmed at its end ends in no white space, and is not trimmed further.
proof fn end_is_trimmed(s: Seq<char>)
    ensures
        text::trim_end(text::trim_end(s)) == text::trim_end(s),
    decreases s.len(),
{
    if s.len() > 0 && text::white(s.last()) {
        end_is_trimmed(s.drop_last());
    }
}

/// Trimming the end leaves the first character, where it leaves any.
proof fn end_keeps_front(s: Seq<char>)
    ensures
        text::trim_end(s).len() <= s.len(),
        text::trim_end(s).len() > 0 ==> text::trim_end(s)[0] == s[0],
    decreases s.len(),
{
    if s.len() > 0 && text::white(s.last()) {
        end_keeps_front(s.drop_last());
    }
}

/// A claim on the turn of a connection.
#[derive(Debug)]
pub struct Claim {
    pub turn_id: String,
    /// When it was made, in milliseconds.
    pub at: u64,
}

/// The turns whose replies are relayed, by connection.
pub struct Relay {
    workers: Table<String>,
    claims: Table<Claim>,
}

/// Whether a claim from a time still counts.
pub open spec fn fresh(at: u64, now: u64) -> bool {
    now - at < CLAIM_TTL_MS
}

/// Whether a claim is one on a turn.
pub open spec fn is_claim_on(claim: Option<(Seq<char>, u64)>, turn_id: Seq<char>) -> bool {
    match claim {
        Some((turn, _)) => turn == turn_id,
        None => false,
    }
}

/// A claim where it still counts.
pub open spec fn if_fresh(claim: Option<(Seq<char>, u64)>, now: u64) -> Option<(Seq<char>, u64)> {
    match claim {
        Some((turn, at)) => if fresh(at, now) {
            Some((turn, at))
        } else {
            None
        },
        None => None,
    }
}

impl Relay {
    /// The turn that is relayed on a connection.
    pub closed spec fn worker(&self, connection: Seq<char>) -> Option<Seq<char>> {
        if self.workers@.contains_key(connection) {
            Some(self.workers@[connection]@)
        } else {
            None
        }
    }

    /// The turn that is claimed on a connection, and since when.
    pub closed spec fn claim(&self, connection: Seq<char>) -> Option<(Seq<char>, u64)> {
        if self.claims@.contains_key(connection) {
            Some((self.claims@[connection].turn_id@, self.claims@[connection].at))
        } else {
            None
        }
    }

    /// No turns.
    pub fn new() -> (r: Relay)
        ensures
            forall|c: Seq<char>| r.worker(c) is None && r.claim(c) is None,
    {
        Relay { workers: Table::new(), claims: Table::new() }
    }

    /// Whether a turn is relayed on a connection.
    pub fn is_relayed(&self, connection_id: &str) -> (r: bool)
        ensures
            r == (self.worker(connection_id@) is Some),
    {
        self.workers.get(connection_id).is_some()
    }

    /// Forgets the claims that no longer count.
    fn drop_stale(&mut self, now: u64)
        ensures
            forall|c: Seq<char>| final(self).worker(c) == old(self).worker(c),
            forall|c: Seq<char>| final(self).claim(c) == if_fresh(old(self).claim(c), now),
    {
        let keys = self.claims.keys();
        let ghost before = self.claims@;
        let ghost names = keys.deep_view();
        for i in 0..keys.len()
            invariant
                names == keys.deep_view(),
                self.workers == old(self).workers,
                forall|c: Seq<char>| names.contains(c) == before.contains_key(c),
                forall|c: Seq<char>| #[trigger]
                    self.claims@.contains_key(c) == (before.contains_key(c) && !(exists|j: int|
                        0 <= j < i && #[trigger] names[j] == c && !fresh(before[c].at, now))),
                forall|c: Seq<char>| #[trigger]
                    self.claims@.contains_key(c) ==> self.claims@[c] == before[c],
        {
            let ghost k = names[i as int];
            assert(k == keys@[i as int]@);
            assert(names.contains(k));
            let stale = match self.claims.get(keys[i].as_str()) {
                Some(c) => !(now < c.at || now - c.at < CLAIM_TTL_MS),
                None => false,
            };
            if stale {
                let _ = self.claims.remove(keys[i].as_str());
            }
            assert forall|c: Seq<char>| #[trigger]
                self.claims@.contains_key(c) == (before.contains_key(c) && !(exists|j: int|
                    0 <= j < i + 1 && #[trigger] names[j] == c && !fresh(before[c].at, now))) by {
                if c == k && !fresh(before[c].at, now) {
                    assert(names[i as int] == c);
                }
            }
        }
        assert forall|c: Seq<char>| self.claim(c) == if_fresh(old(self).claim(c), now) by {
            assert(self.claims@.contains_key(c) ==> self.claims@[c] == before[c]);
            if before.contains_key(c) && !fresh(before[c].at, now) {
                assert(names.contains(c));
                let j = choose|j: int| 0 <= j < names.len() && names[j] == c;
                assert(names[j] == c);
            }
        }
    }

    /// Registers a turn on a connection, before its prompt is sent. It takes the place
    /// of the turn that is registered there.
    pub fn register(&mut self, connection_id: &str, turn_id: &str, now: u64)
        ensures
            forall|c: Seq<char>|
                final(self).worker(c) == if c == connection_id@ {
                    Some(turn_id@)
                } else {
                    old(self).worker(c)
                },
            forall|c: Seq<char>|
                final(self).claim(c) == if c == connection_id@ {
                    Some((turn_id@, now))
                } else {
                    if_fresh(old(self).claim(c), now)
                },
    {
        self.drop_stale(now);
        let ghost mid = *self;
        self.workers.insert(connection_id.to_owned(), turn_id.to_owned());
        self.claims.insert(
            connection_id.to_owned(),
            Claim { turn_id: turn_id.to_owned(), at: now },
        );
        assert forall|c: Seq<char>|
            self.worker(c) == if c == connection_id@ {
                Some(turn_id@)
            } else {
                old(self).worker(c)
            } by {
            assert(mid.worker(c) == old(self).worker(c));
        }
        assert forall|c: Seq<char>|
            self.claim(c) == if c == connection_id@ {
                Some((turn_id@, now))
            } else {
                if_fresh(old(self).claim(c), now)
            } by {
            assert(mid.claim(c) == if_fresh(old(self).claim(c), now));
        }
    }

    /// Forgets the worker of a turn that is over, but not that of a later one.
    pub fn finished(&mut self, connection_id: &str, turn_id: &str)
        ensures
            forall|c: Seq<char>|
                final(self).worker(c) == if c == connection_id@ && old(self).worker(c) == Some(
                    turn_id@,
                ) {
                    None
                } else {
                    old(self).worker(c)
                },
            forall|c: Seq<char>| final(self).claim(c) == old(self).claim(c),
    {
        let own = match self.workers.get(connection_id) {
            Some(t) => text::same(t.as_str(), turn_id),
            None => false,
        };
        if own {
            let _ = self.workers.remove(connection_id);
        }
    }

    /// Hands every turn back after events were missed, and gives the connections whose
    /// workers have to be told.
    pub fn hand_back(&mut self) -> (r: Vec<String>)
        ensures
            r.deep_view().no_duplicates(),
            forall|c: Seq<char>| r.deep_view().contains(c) == (old(self).worker(c) is Some),
            forall|c: Seq<char>| final(self).worker(c) is None,
            forall|c: Seq<char>|
                final(self).claim(c) == if old(self).worker(c) is Some {
                    None
                } else {
                    old(self).claim(c)
                },
    {
        let keys = self.workers.keys();
        let ghost names = keys.deep_view();
        let ghost before = self.claims@;
        self.workers = Table::new();
        for i in 0..keys.len()
            invariant
                names == keys.deep_view(),
                self.workers@ == Map::<Seq<char>, String>::empty(),
                forall|c: Seq<char>| #[trigger]
                    self.claims@.contains_key(c) == (before.contains_key(c) && !names.take(
                        i as int,
                    ).contains(c)),
                forall|c: Seq<char>| #[trigger]
                    self.claims@.contains_key(c) ==> self.claims@[c] == before[c],
        {
            let ghost k = names[i as int];
            assert(k == keys@[i as int]@);
            let _ = self.claims.remove(keys[i].as_str());
            assert(names.take(i + 1) =~= names.take(i as int).push(k));
            assert forall|c: Seq<char>| #[trigger]
                self.claims@.contains_key(c) == (before.contains_key(c) && !names.take(
                    i + 1,
                ).contains(c)) by {
                pushed_is_contained(names.take(i as int), k, c);
            }
        }
        assert(names.take(names.len() as int) =~= names);
        keys
    }
}

/// What a list with one more item holds.
proof fn pushed_is_contained(s: Seq<Seq<char>>, x: Seq<char>, c: Seq<char>)
    ensures
        s.push(x).contains(c) == (s.contains(c) || c == x),
{
    if s.contains(c) {
        let i = choose|i: int| 0 <= i < s.len() && s[i] == c;
        assert(s.push(x)[i] == c);
    }
    if c == x {
        assert(s.push(x)[s.len() as int] == c);
    }
    if s.push(x).contains(c) && c != x {
        let i = choose|i: int| 0 <= i < s.push(x).len() && s.push(x)[i] == c;
        assert(s[i] == c);
    }
}

/// Whether a turn may be registered for a prompt. While a turn runs on the connection
/// the prompt is refused, and registering would take the place of that turn.
pub fn may_register(in_flight: Option<bool>) -> (r: bool)
    ensures
        r == (in_flight != Some(true)),
{
    match in_flight {
        Some(running) => !running,
        None => true,
    }
}

/// The turn for a reply, with the token that its calls need.
pub fn turn_for(spec: OutboundSpec) -> (r: (TelegramTurn, String))
    ensures
        sound(r.0@),
        match spec {
            OutboundSpec::Telegram { turn_id, bot_token, chat_id, draft_id, texts } => {
                &&& r.1@ == bot_token@
                &&& r.0@ == unbegun(
                    chat_id,
                    match draft_id {
                        Some(d) if d > 0 => d,
                        _ => draft_base(turn_id@) as i64,
                    },
                    texts@,
                )
            },
        },
{
    match spec {
        OutboundSpec::Telegram { turn_id, bot_token, chat_id, draft_id, texts } => {
            let base: i64 = match draft_id {
                Some(d) => if d > 0 {
                    d
                } else {
                    derive_draft_base(turn_id.as_str())
                },
                None => derive_draft_base(turn_id.as_str()),
            };
            (TelegramTurn::new(chat_id, base, texts), bot_token)
        },
    }
}

/// Withdraws a turn whose prompt was refused, and no later one.
pub fn abort(relay: &mut Relay, connection_id: &str, turn_id: &str)
    ensures
        forall|c: Seq<char>|
            final(relay).worker(c) == if c == connection_id@ && old(relay).worker(c) == Some(
                turn_id@,
            ) {
                None
            } else {
                old(relay).worker(c)
            },
        forall|c: Seq<char>|
            final(relay).claim(c) == if c == connection_id@ && is_claim_on(
                old(relay).claim(c),
                turn_id@,
            ) {
                None
            } else {
                old(relay).claim(c)
            },
{
    relay.finished(connection_id, turn_id);
    let ghost mid = *relay;
    let own = match relay.claims.get(connection_id) {
        Some(c) => text::same(c.turn_id.as_str(), turn_id),
        None => false,
    };
    if own {
        let _ = relay.claims.remove(connection_id);
    }
    assert forall|c: Seq<char>|
        relay.claim(c) == if c == connection_id@ && is_claim_on(old(relay).claim(c), turn_id@) {
            None
        } else {
            old(relay).claim(c)
        } by {
        assert(mid.claim(c) == old(relay).claim(c));
    }
    assert forall|c: Seq<char>| relay.worker(c) == mid.worker(c) by {}
}

/// The turn that is relayed on a connection, for the notification of its end; with
/// `take`, the claim is used up. A claim that is too old is forgotten.
pub fn relay_turn_id_for(relay: &mut Relay, connection_id: &str, take: bool, now: u64) -> (r: Option<
    String,
>)
    ensures
        forall|c: Seq<char>| final(relay).worker(c) == old(relay).worker(c),
        r.deep_view() == match if_fresh(old(relay).claim(connection_id@), now) {
            Some((turn, _)) => Some(turn),
            None => None,
        },
        forall|c: Seq<char>|
            final(relay).claim(c) == if c != connection_id@ {
                old(relay).claim(c)
            } else if take {
                None
            } else {
                if_fresh(old(relay).claim(c), now)
            },
{
    let counts = match relay.claims.get(connection_id) {
        Some(c) => now < c.at || now - c.at < CLAIM_TTL_MS,
        None => false,
    };
    if !counts {
        let _ = relay.claims.remove(connection_id);
        return None;
    }
    if take {
        match relay.claims.remove(connection_id) {
            Some(c) => Some(c.turn_id),
            None => None,
        }
    } else {
        match relay.claims.get(connection_id) {
            Some(c) => Some(c.turn_id.clone()),
            None => None,
        }
    }
}

/// The notification that some text of a turn was not delivered.
pub open spec fn failure(
    event_id: Seq<char>,
    connection_id: Seq<char>,
    conversation_id: Option<i32>,
    turn_id: Seq<char>,
    message_ids: Seq<i64>,
    occurred_at: Seq<char>,
) -> JsonView {
    JsonView::empty_object().with("event_id"@, JsonView::Str(event_id)).with(
        "event"@,
        JsonView::Str("relay_failed"@),
    ).with("connection_id"@, JsonView::Str(connection_id)).with(
        "conversation_id"@,
        match conversation_id {
            Some(n) => JsonView::of_i64(n as i64),
            None => JsonView::Null,
        },
    ).with("relay_turn_id"@, JsonView::Str(turn_id)).with(
        "message_ids"@,
        JsonView::Array(message_ids.map_values(|n: i64| JsonView::of_i64(n))),
    ).with("occurred_at"@, JsonView::Str(occurred_at)).with("source"@, JsonView::Str("codeg"@))
}

/// The notification that some text of a turn was not delivered, with the messages
/// that were written, so that they can be edited.
pub fn failure_payload(
    event_id: &str,
    connection_id: &str,
    conversation_id: Option<i32>,
    turn_id: &str,
    message_ids: &Vec<i64>,
    occurred_at: &str,
) -> (r: Json)
    ensures
        r@ == failure(
            event_id@,
            connection_id@,
            conversation_id,
            turn_id@,
            message_ids@,
            occurred_at@,
        ),
{
    let mut ids: Vec<Json> = Vec::new();
    let ghost all = message_ids@.map_values(|n: i64| JsonView::of_i64(n));
    assert(ids.deep_view() =~= all.take(0));
    for i in 0..message_ids.len()
        invariant
            all == message_ids@.map_values(|n: i64| JsonView::of_i64(n)),
            ids.deep_view() == all.take(i as int),
    {
        let ghost before = ids.deep_view();
        ids.push(Json::of_i64(message_ids[i]));
        assert(ids.deep_view() =~= before.push(all[i as int]));
        assert(ids.deep_view() =~= all.take(i + 1));
    }
    assert(all.take(all.len() as int) =~= all);
    let conversation = match conversation_id {
        Some(n) => Json::of_i64(n as i64),
        None => Json::Null,
    };
    Json::empty_object().with("event_id", Json::of_str(event_id)).with(
        "event",
        Json::of_str("relay_failed"),
    ).with("connection_id", Json::of_str(connection_id)).with("conversation_id", conversation).with(
        "relay_turn_id",
        Json::of_str(turn_id),
    ).with("message_ids", Json::of_vec(ids)).with("occurred_at", Json::of_str(occurred_at)).with(
        "source",
        Json::of_str("codeg"),
    )
}

/// `chrono::Utc::now` and `chrono::DateTime::to_rfc3339`: the time as a text. Nothing
/// is said of it.
#[verifier::external_body]
fn utc_now() -> String {
    chrono::Utc::now().to_rfc3339()
}

/// The notification that some text of a turn was not delivered, with a fresh id and
/// the time.
pub fn report_failure(
    connection_id: &str,
    conversation_id: Option<i32>,
    turn_id: &str,
    message_ids: &Vec<i64>,
) -> (r: Json)
    ensures
        exists|event_id: Seq<char>, occurred_at: Seq<char>|
            event_id.len() == 36 && connection::uuid_accepted(event_id) && r@
                == #[trigger] failure(
                event_id,
                connection_id@,
                conversation_id,
                turn_id@,
                message_ids@,
                occurred_at,
            ),
{
    let event_id = connection::new_uuid();
    let occurred_at = utc_now();
    failure_payload(
        event_id.as_str(),
        connection_id,
        conversation_id,
        turn_id,
        message_ids,
        occurred_at.as_str(),
    )
}

} // verus!
