//! When a relayed turn acts, where its messages end, and what it makes of the answers.
use vstd::prelude::*;
use crate::chat::composer;
use crate::chat::composer::ComposerView;
use crate::chat::turn_relay;
use crate::chat::turn_relay::{
    ActionView,
    After,
    JobView,
    Outcome,
    RelayInputView,
    ReplyView,
    ReportView,
    TurnView,
};
use crate::events::{ConnectionStatus, EventView};
use crate::json::JsonView;
use crate::text;

verus! {

/// Text that fits into the current message is put behind it, and fills none.
pub proof fn short_texts_fill_no_message(c: ComposerView, delta: Seq<char>)
    requires
        c.text.len() + delta.len() <= 3800,
        c.index <= u32::MAX,
    ensures
        composer::grown(c, delta) == (
            ComposerView { text: c.text + delta, index: c.index },
            Seq::<Seq<char>>::empty(),
        ),
{
}

/// A message that is full ends at the last line break among its first three thousand eight
/// hundred characters, or there where it has none. What follows begins behind the line breaks.
pub proof fn full_messages_end_at_line_breaks(s: Seq<char>, k: int, n: nat, rest: Seq<char>)
    requires
        s.len() > 3800,
        0 < k <= 3800,
        k < 3800 ==> s[k] == '\n',
        forall|j: int| k < j < 3800 ==> #[trigger] s[j] != '\n',
        k == 3800 ==> forall|j: int| 0 < j < 3800 ==> #[trigger] s[j] != '\n',
        s.skip(k) == Seq::new(n, |i: int| '\n') + rest,
        rest.len() > 0 ==> rest[0] != '\n',
    ensures
        composer::filled(s).0 == seq![s.take(k)] + composer::filled(rest).0,
        composer::filled(s).1 == composer::filled(rest).1,
{
    let front = s.take(3800);
    assert forall|j: int| k < j < front.len() implies #[trigger] front[j] != '\n' by {
        assert(s[j] == front[j]);
    }
    last_breaks_are_last(front, k);
    if k < 3800 {
        assert(front[k] == '\n');
        assert(composer::last_break(front) == Some(k));
    } else {
        assert forall|j: int| 0 < j < front.len() implies #[trigger] front[j] != '\n' by {
            assert(s[j] == front[j]);
        }
        only_the_first_can_break(front);
    }
    assert(composer::cut_at(s, 3800) == k);
    breaks_come_off(n, rest);
    assert(composer::tail(s, 3800) == rest);
}

/// The last line break of a text.
proof fn last_breaks_are_last(s: Seq<char>, k: int)
    requires
        0 <= k,
        forall|j: int| k < j < s.len() ==> #[trigger] s[j] != '\n',
    ensures
        k < s.len() && s[k] == '\n' ==> composer::last_break(s) == Some(k),
    decreases s.len(),
{
    if k < s.len() - 1 {
        let front = s.drop_last();
        assert(s[s.len() - 1] != '\n');
        assert forall|j: int| k < j < front.len() implies #[trigger] front[j] != '\n' by {
            assert(front[j] == s[j]);
        }
        last_breaks_are_last(front, k);
    }
}

/// A text whose only line break can be its first character.
proof fn only_the_first_can_break(s: Seq<char>)
    requires
        forall|j: int| 0 < j < s.len() ==> #[trigger] s[j] != '\n',
    ensures
        composer::last_break(s) is None || composer::last_break(s) == Some(0int),
    decreases s.len(),
{
    if s.len() > 1 {
        let front = s.drop_last();
        assert(s[s.len() - 1] != '\n');
        assert forall|j: int| 0 < j < front.len() implies #[trigger] front[j] != '\n' by {
            assert(front[j] == s[j]);
        }
        only_the_first_can_break(front);
    } else if s.len() == 1 {
        assert(s.drop_last().len() == 0);
        reveal_with_fuel(composer::last_break, 2);
    }
}

/// Line breaks in front come off.
proof fn breaks_come_off(n: nat, rest: Seq<char>)
    requires
        rest.len() > 0 ==> rest[0] != '\n',
    ensures
        composer::without_breaks(Seq::new(n, |i: int| '\n') + rest) == rest,
    decreases n,
{
    let s = Seq::new(n, |i: int| '\n') + rest;
    if n == 0 {
        assert(s =~= rest);
    } else {
        assert(s.skip(1) =~= Seq::new((n - 1) as nat, |i: int| '\n') + rest);
        breaks_come_off((n - 1) as nat, rest);
    }
}

/// The time after another, as far as time can be told.
pub open spec fn after(t: int, by: int) -> int {
    if t + by <= u64::MAX {
        t + by
    } else {
        u64::MAX as int
    }
}

/// A turn acts again a second after its last call where what it shows is out of date, five
/// seconds after it to keep a draft alive, and not before the service lets it.
pub proof fn waits_are_paced(v: TurnView, s: Seq<char>, parent: Seq<char>, now: u64)
    requires
        v.job is Idle,
    ensures
        ({
            let e = EventView::ContentDelta { text: s, parent_tool_use_id: Some(parent) };
            let (next, action) = turn_relay::step(v, RelayInputView::Event(e), now);
            let base = if v.last_update is Some {
                v.last_update->0 as int
            } else {
                now as int
            };
            let shown = if v.live is Some {
                Some(v.live->0.shown)
            } else {
                v.draft_shown
            };
            let due = if shown != Some(turn_relay::display(v)) {
                after(base, 1_000)
            } else if v.live is Some {
                after(base, 10_800_000)
            } else {
                after(base, 5_000)
            };
            &&& next == v
            &&& action matches ActionView::Wait { until } && until == (if v.blocked_until is Some
                && v.blocked_until->0 > due {
                v.blocked_until->0 as int
            } else {
                due
            })
        }),
{
}

/// A draft that was taken, or refused for good, is what is shown; one that came too soon is
/// sent again when the service lets it.
pub proof fn drafts_are_settled(v: TurnView, reply: ReplyView, now: u64)
    requires
        v.job is Draft,
    ensures
        ({
            let (next, action) = turn_relay::step(v, RelayInputView::Reply(reply), now);
            let shown = v.job->Draft_text;
            &&& action is Wait
            &&& next.job is Idle
            &&& next.body == v.body
            &&& next.message_ids == v.message_ids
            &&& next.delivery_failed == v.delivery_failed
            &&& reply is Delivered ==> next.draft_shown == Some(shown) && next.blocked_until is None
            &&& reply is Refused ==> next.draft_shown == Some(shown) && next.blocked_until
                == v.blocked_until
            &&& reply is Limited ==> next.draft_shown == v.draft_shown && next.blocked_until is Some
                && next.blocked_until->0 == after(now as int, after(0, reply->Limited_0 * 1000))
        }),
{
}

/// A closing remark is sent up to three times; one that was not taken is told as a failure,
/// and the turn ends either way with the messages that were written.
pub proof fn remarks_are_repeated(v: TurnView, reply: ReplyView, now: u64, later: u64)
    requires
        turn_relay::sound(v),
        v.job matches JobView::Note { pausing, .. } && !pausing,
    ensures
        ({
            let tries = v.job->Note_tries;
            let (next, action) = turn_relay::step(v, RelayInputView::Reply(reply), now);
            let (again, call) = turn_relay::step(next, RelayInputView::Woken, later);
            &&& reply matches ReplyView::Delivered(Some(id)) ==> action == ActionView::Done(
                ReportView {
                    outcome: v.outcome->0,
                    delivery_failed: v.delivery_failed,
                    message_ids: v.message_ids.push(id),
                },
            )
            &&& reply is Refused ==> action == ActionView::Done(
                ReportView {
                    outcome: v.outcome->0,
                    delivery_failed: true,
                    message_ids: v.message_ids,
                },
            )
            &&& reply is Limited ==> action == ActionView::Sleep(
                if reply->Limited_0 < 30 {
                    reply->Limited_0
                } else {
                    30
                },
            )
            &&& reply is Limited && tries < 2 ==> call is Call && again.job == JobView::Note {
                text: v.job->Note_text,
                tries: (tries + 1) as u64,
                pausing: false,
            }
            &&& reply is Limited && tries >= 2 ==> call == ActionView::Done(
                ReportView {
                    outcome: v.outcome->0,
                    delivery_failed: true,
                    message_ids: v.message_ids,
                },
            )
        }),
{
}

/// An answer of the service: a message that it took, the time to wait, or why it refused.
pub proof fn answers_are_read(v: JsonView, secs: u64)
    ensures
        v.at("ok"@) == JsonView::Bool(true) ==> turn_relay::answered(v) == ReplyView::Delivered(
            v.at("result"@).at("message_id"@).as_i64(),
        ),
        v.at("ok"@) != JsonView::Bool(true) && v.at("parameters"@).at("retry_after"@).as_u64()
            == Some(secs) ==> turn_relay::answered(v) == ReplyView::Limited(secs),
        v.at("ok"@) != JsonView::Bool(true) && v.at("parameters"@).at("retry_after"@).as_u64() is None
            && v.at("description"@) is Str ==> turn_relay::answered(v) == ReplyView::Refused(
            v.at("description"@)->Str_0,
        ),
        v.at("ok"@) != JsonView::Bool(true) && v.at("parameters"@).at("retry_after"@).as_u64() is None
            && !(v.at("description"@) is Str) ==> turn_relay::answered(v) == ReplyView::Refused(
            "unknown error"@,
        ),
{
}

/// An event after which the connection does no more for the turn.
pub open spec fn ends_badly(e: EventView) -> bool {
    match e {
        EventView::Error { terminal, .. } => terminal,
        EventView::StatusChanged { status } => status == ConnectionStatus::Disconnected || status
            == ConnectionStatus::Error,
        _ => false,
    }
}

/// A turn whose connection is lost, or that lasts too long, has failed: what there is of its
/// text is still written.
pub proof fn lost_turns_have_failed(v: TurnView, e: EventView, now: u64)
    requires
        v.job is Idle,
        ends_badly(e),
    ensures
        ({
            let (next, action) = turn_relay::step(v, RelayInputView::Event(e), now);
            let whole = text::trim(v.body.text);
            &&& next.outcome == Some(Outcome::Failed)
            &&& turn_relay::step(v, RelayInputView::Deadline, now) == (next, action)
            &&& whole.len() > 0 && !(v.live is Some && v.live->0.shown == whole) ==> next.job is Write
                && next.job->Write_0.text == whole && next.job->Write_0.after == After::End && action is Call
            &&& whole.len() == 0 ==> next.job == JobView::Note {
                text: v.texts.failed,
                tries: 0,
                pausing: false,
            }
        }),
{
    text::trimmed_is_tight(v.body.text);
}

/// Errors that are not final, and other news of the connection, change nothing.
pub proof fn other_news_changes_nothing(v: TurnView, e: EventView, now: u64)
    requires
        v.job is Idle,
        e is Error || e is StatusChanged || e is SessionStarted || e is Thinking,
        !ends_badly(e),
    ensures
        turn_relay::step(v, RelayInputView::Event(e), now).0 == v,
        turn_relay::step(v, RelayInputView::Event(e), now).1 is Wait,
{
}

/// News of the tool that is shown changes what is said of it: its description, or else its
/// title. News of another tool changes nothing.
pub proof fn news_of_tools_is_shown(v: TurnView, news: EventView, now: u64)
    requires
        v.job is Idle,
        news is ToolCallUpdate,
        news->ToolCallUpdate_status != Some("completed"@),
        news->ToolCallUpdate_status != Some("failed"@),
    ensures
        ({
            let next = turn_relay::step(v, RelayInputView::Event(news), now).0;
            let d = news->ToolCallUpdate_description;
            let t = news->ToolCallUpdate_title;
            let mine = v.status_tool == Some(news->ToolCallUpdate_tool_call_id);
            &&& !mine ==> next == v
            &&& mine && d is Some && 0 < text::trim(d->0).len() <= 120 ==> next == TurnView {
                status: seq!['🔧', ' '] + text::trim(d->0),
                ..v
            }
            &&& mine && d is None && t is Some && 0 < text::trim(t->0).len() <= 120 ==> next
                == TurnView { status: seq!['🔧', ' '] + text::trim(t->0), ..v }
            &&& mine && d is None && t is None ==> next == v
        }),
{
    reveal_strlit("🔧 ");
    assert("🔧 "@ =~= seq!['🔧', ' ']);
}

/// A turn whose text was not delivered is told to the platform with the messages that were.
pub proof fn failures_of_delivery_are_told(
    event: Seq<char>,
    connection: Seq<char>,
    conversation: i32,
    turn: Seq<char>,
    ids: Seq<i64>,
    time: Seq<char>,
)
    ensures
        turn_relay::failure(event, connection, Some(conversation), turn, ids, time)
            == JsonView::Object(
            seq![
                ("event_id"@, JsonView::Str(event)),
                ("event"@, JsonView::Str("relay_failed"@)),
                ("connection_id"@, JsonView::Str(connection)),
                ("conversation_id"@, JsonView::of_i64(conversation as i64)),
                ("relay_turn_id"@, JsonView::Str(turn)),
                (
                    "message_ids"@,
                    JsonView::Array(Seq::new(ids.len(), |i: int| JsonView::of_i64(ids[i]))),
                ),
                ("occurred_at"@, JsonView::Str(time)),
                ("source"@, JsonView::Str("codeg"@)),
            ],
        ),
        turn_relay::failure(event, connection, None, turn, ids, time).at("conversation_id"@)
            == JsonView::Null,
{
    let told = Seq::new(ids.len(), |i: int| JsonView::of_i64(ids[i]));
    assert(ids.map_values(|n: i64| JsonView::of_i64(n)) =~= told);
    assert(turn_relay::failure(event, connection, Some(conversation), turn, ids, time)->Object_0
        =~= seq![
        ("event_id"@, JsonView::Str(event)),
        ("event"@, JsonView::Str("relay_failed"@)),
        ("connection_id"@, JsonView::Str(connection)),
        ("conversation_id"@, JsonView::of_i64(conversation as i64)),
        ("relay_turn_id"@, JsonView::Str(turn)),
        ("message_ids"@, JsonView::Array(told)),
        ("occurred_at"@, JsonView::Str(time)),
        ("source"@, JsonView::Str("codeg"@)),
    ]);
    let other = turn_relay::failure(event, connection, None, turn, ids, time)->Object_0;
    reveal_strlit("event_id");
    reveal_strlit("event");
    reveal_strlit("connection_id");
    reveal_strlit("conversation_id");
    assert("event_id"@.len() == 8 && "event"@.len() == 5 && "connection_id"@.len() == 13
        && "conversation_id"@.len() == 15);
    assert(other[0].0 == "event_id"@ && other[1].0 == "event"@ && other[2].0 == "connection_id"@
        && other[3] == ("conversation_id"@, JsonView::Null));
    crate::json_laws::members_are_found(other, "conversation_id"@, 3);
}

/// A claim on a connection holds for six hours.
pub proof fn claims_run_out(turn: Seq<char>, at: u64, now: u64)
    ensures
        now - at < 21_600_000 ==> turn_relay::if_fresh(Some((turn, at)), now) == Some((turn, at)),
        now - at >= 21_600_000 ==> turn_relay::if_fresh(Some((turn, at)), now) is None,
        turn_relay::if_fresh(None, now) is None,
        turn_relay::is_claim_on(Some((turn, at)), turn),
        !turn_relay::is_claim_on(None, turn),
{
}

/// The draft of a turn has a number of its own: the hash of the id of the turn, byte by byte,
/// cut to thirty bits, and one where that is nought.
pub proof fn drafts_are_numbered(bytes: Seq<u8>, b: u8, turn: Seq<char>)
    ensures
        turn_relay::hash(Seq::empty()) == 14_695_981_039_346_656_037u64,
        turn_relay::hash(bytes.push(b)) == (turn_relay::hash(bytes) ^ (b as u64)).wrapping_mul(
            1_099_511_628_211u64,
        ),
        ({
            let n = turn_relay::hash(vstd::utf8::encode_utf8(turn)) % 1_073_741_824;
            turn_relay::draft_base(turn) == if n == 0 {
                1
            } else {
                n as int
            }
        }),
{
    assert(bytes.push(b).drop_last() =~= bytes);
}

/// A refusal tells that nothing changed, or that the message is gone; any other is one of the
/// text itself.
pub proof fn refusals_are_told_apart(e: Seq<char>)
    ensures
        turn_relay::unchanged(e) <==> text::contains(e, "not modified"@),
        turn_relay::gone(e) <==> text::contains(e, "not found"@) || text::contains(
            e,
            "can't be edited"@,
        ),
{
}

} // verus!
