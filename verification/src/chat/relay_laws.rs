//! What holds of a whole turn whose reply goes to a Telegram chat: the text that came
//! in, the texts that the messages of the chat show, and how the two agree.
use vstd::prelude::*;
use crate::chat::composer;
use crate::chat::composer::{ComposerView, TG_CHUNK};
use crate::chat::tg_html;
use crate::chat::turn_relay;
use crate::chat::turn_relay::{
    ActionView, After, JobView, LiveView, Outcome, RelayInputView, ReplyView, TextsView, TurnView,
    WriteView,
};
use crate::events::EventView;
use crate::json;
use crate::json::JsonView;
use crate::text;

verus! {

/// What a turn is told, and when.
pub type Told = (RelayInputView, u64);

/// A turn after all that it was told.
pub open spec fn after(v: TurnView, told: Seq<Told>) -> TurnView
    decreases told.len(),
{
    if told.len() == 0 {
        v
    } else {
        let last = told.last();
        turn_relay::step(after(v, told.drop_last()), last.0, last.1).0
    }
}

/// The text of the main thread in what a turn is told, where it listens.
pub open spec fn heard(v: TurnView, input: RelayInputView) -> Option<Seq<char>> {
    match (v.job, input) {
        (
            JobView::Idle,
            RelayInputView::Event(EventView::ContentDelta { text, parent_tool_use_id: None }),
        ) => Some(text),
        _ => None,
    }
}

/// The texts of the main thread that came in, in order.
pub open spec fn came(v: TurnView, told: Seq<Told>) -> Seq<Seq<char>>
    decreases told.len(),
{
    if told.len() == 0 {
        Seq::empty()
    } else {
        let front = came(v, told.drop_last());
        match heard(after(v, told.drop_last()), told.last().0) {
            Some(s) => front.push(s),
            None => front,
        }
    }
}

/// What the messages of the chat show once a call is answered: a text that was sent
/// stands in a new message, one that was edited in stands in the last, and a message
/// that is gone shows nothing.
pub open spec fn answered(pages: Seq<Seq<char>>, w: WriteView, reply: ReplyView) -> Seq<Seq<char>> {
    match reply {
        ReplyView::Delivered(_) => if w.edit is Some {
            pages.drop_last().push(w.text)
        } else {
            pages.push(w.text)
        },
        ReplyView::Refused(e) => if w.edit is Some && turn_relay::gone(e) {
            pages.drop_last()
        } else {
            pages
        },
        ReplyView::Limited(_) => pages,
    }
}

/// What the messages of the chat show, in order: the source of the text that each of
/// them got last.
pub open spec fn pages(v: TurnView, told: Seq<Told>) -> Seq<Seq<char>>
    decreases told.len(),
{
    if told.len() == 0 {
        Seq::empty()
    } else {
        let front = pages(v, told.drop_last());
        match (after(v, told.drop_last()).job, told.last().0) {
            (JobView::Write(w), RelayInputView::Reply(reply)) => if w.pausing {
                front
            } else {
                answered(front, w, reply)
            },
            _ => front,
        }
    }
}

/// Whether an answer tells what became of the call: a new message comes with its id, and
/// no answer says that a message shows the text already.
pub open spec fn telling(v: TurnView, input: RelayInputView) -> bool {
    match (v.job, input) {
        (JobView::Write(w), RelayInputView::Reply(ReplyView::Delivered(id))) => w.edit is Some
            || id is Some,
        (JobView::Write(_), RelayInputView::Reply(ReplyView::Refused(e))) => !turn_relay::unchanged(
            e,
        ),
        _ => true,
    }
}

/// Whether a text does not push all that a message shows into the next one: the first
/// message that it fills, while one is shown, is not blank.
pub open spec fn filling(v: TurnView, input: RelayInputView) -> bool {
    match heard(v, input) {
        Some(s) => v.live is Some && composer::grown(v.body, s).1.len() > 0 ==> text::trim(
            composer::grown(v.body, s).1[0],
        ).len() > 0,
        None => true,
    }
}

/// Whether all that a turn was told is in order.
pub open spec fn orderly(v: TurnView, told: Seq<Told>) -> bool
    decreases told.len(),
{
    if told.len() == 0 {
        true
    } else {
        let before = after(v, told.drop_last());
        orderly(v, told.drop_last()) && telling(before, told.last().0) && filling(
            before,
            told.last().0,
        )
    }
}

/// Whether a turn has just begun.
pub open spec fn begun(v: TurnView) -> bool {
    &&& v.body == ComposerView { text: Seq::empty(), index: 0 }
    &&& v.live is None
    &&& v.queue.len() == 0
    &&& v.outcome is None
    &&& !v.delivery_failed
    &&& v.job is Idle || v.job is Draft
}

/// The characters of a text that are no white space.
pub open spec fn inked(s: Seq<char>) -> Seq<char> {
    s.filter(|c: char| !text::white(c))
}

/// The characters of two texts.
proof fn inked_adds_up(a: Seq<char>, b: Seq<char>)
    ensures
        inked(a + b) == inked(a) + inked(b),
{
    Seq::filter_distributes_over_add(a, b, |c: char| !text::white(c));
}

/// White space alone leaves nothing.
proof fn inked_of_one(c: char)
    ensures
        inked(seq![c]) == if text::white(c) {
            Seq::empty()
        } else {
            seq![c]
        },
{
    reveal_with_fuel(Seq::filter, 2);
    assert(seq![c].drop_last() =~= Seq::empty());
    assert(Seq::<char>::empty().push(c) =~= seq![c]);
}

/// White space in front leaves the characters.
proof fn inked_in_front(s: Seq<char>)
    ensures
        inked(text::trim_start(s)) == inked(s),
    decreases s.len(),
{
    if s.len() > 0 && text::white(s[0]) {
        inked_in_front(s.skip(1));
        assert(s =~= seq![s[0]] + s.skip(1));
        inked_adds_up(seq![s[0]], s.skip(1));
        inked_of_one(s[0]);
        assert(inked(s) =~= inked(s.skip(1)));
    }
}

/// White space behind leaves the characters.
proof fn inked_behind(s: Seq<char>)
    ensures
        inked(text::trim_end(s)) == inked(s),
    decreases s.len(),
{
    if s.len() > 0 && text::white(s.last()) {
        inked_behind(s.drop_last());
        assert(s =~= s.drop_last() + seq![s.last()]);
        inked_adds_up(s.drop_last(), seq![s.last()]);
        inked_of_one(s.last());
        assert(inked(s) =~= inked(s.drop_last()));
    }
}

/// Trimming leaves the characters, and a text is blank where it has none.
proof fn inked_when_trimmed(s: Seq<char>)
    ensures
        inked(text::trim(s)) == inked(s),
        text::trim(s).len() > 0 <==> inked(s).len() > 0,
        text::trim(s).len() <= s.len(),
{
    inked_in_front(s);
    inked_behind(text::trim_start(s));
    text::trimmed_is_tight(s);
    let t = text::trim(s);
    reveal(Seq::filter);
    if t.len() > 0 {
        assert(inked(t).last() == t.last());
    }
    text::trim_start_is_suffix(s);
    shorter_behind(text::trim_start(s));
}

/// Trimming makes no text longer.
proof fn shorter_behind(s: Seq<char>)
    ensures
        text::trim_end(s).len() <= s.len(),
    decreases s.len(),
{
    if s.len() > 0 && text::white(s.last()) {
        shorter_behind(s.drop_last());
    }
}

/// The texts of a list that are not blank.
pub open spec fn filled_in(list: Seq<Seq<char>>) -> Seq<Seq<char>>
    decreases list.len(),
{
    if list.len() == 0 {
        Seq::empty()
    } else if text::trim(list.last()).len() > 0 {
        filled_in(list.drop_last()).push(list.last())
    } else {
        filled_in(list.drop_last())
    }
}

/// Blank texts add no characters.
proof fn blanks_add_nothing(list: Seq<Seq<char>>)
    ensures
        inked(composer::together(filled_in(list))) == inked(composer::together(list)),
        forall|i: int|
            0 <= i < filled_in(list).len() ==> list.contains(#[trigger] filled_in(list)[i]),
    decreases list.len(),
{
    if list.len() > 0 {
        let front = list.drop_last();
        let last = list.last();
        blanks_add_nothing(front);
        assert(list =~= front + seq![last]);
        composer::together_adds_up(front, seq![last]);
        composer::together_of_one(last);
        inked_adds_up(composer::together(front), last);
        inked_when_trimmed(last);
        let kept = filled_in(front);
        if text::trim(last).len() > 0 {
            assert(kept.push(last) =~= kept + seq![last]);
            composer::together_adds_up(kept, seq![last]);
            inked_adds_up(composer::together(kept), last);
        } else {
            assert(inked(last) =~= Seq::empty());
            assert(inked(composer::together(list)) =~= inked(composer::together(front)));
        }
        assert forall|i: int| 0 <= i < filled_in(list).len() implies list.contains(
            #[trigger] filled_in(list)[i],
        ) by {
            if i < kept.len() {
                assert(front.contains(kept[i]));
                let k = choose|k: int| 0 <= k < front.len() && front[k] == kept[i];
                assert(list[k] == kept[i]);
            } else {
                assert(list[list.len() - 1] == last);
            }
        }
    }
}

/// One more text in a list.
proof fn filled_in_goes_on(list: Seq<Seq<char>>, n: int)
    requires
        0 <= n < list.len(),
    ensures
        filled_in(list.take(n + 1)) == if text::trim(list[n]).len() > 0 {
            filled_in(list.take(n)).push(list[n])
        } else {
            filled_in(list.take(n))
        },
{
    assert(list.take(n + 1).drop_last() =~= list.take(n));
}

/// How many of the messages that were filled are written, where `v` is busy with the
/// next.
spec fn written_heads(v: TurnView, messages: Seq<Seq<char>>) -> int {
    messages.len() - v.queue.len() - if v.job matches JobView::Write(w) && w.after == After::Head {
        1int
    } else {
        0
    }
}

/// Whether the messages of the chat hold the texts that were filled, and the last of
/// them what is shown.
spec fn shows(live: Option<LiveView>, pages: Seq<Seq<char>>, done: Seq<Seq<char>>) -> bool {
    match live {
        Some(l) => pages.len() > 0 && pages.last() == l.shown && pages.drop_last() == done,
        None => pages == done,
    }
}

/// The texts that the messages are to hold in the end.
pub open spec fn whole(deltas: Seq<Seq<char>>) -> Seq<Seq<char>> {
    let (c, messages) = composer::composed(deltas);
    if text::trim(c.text).len() > 0 {
        filled_in(messages).push(text::trim(c.text))
    } else {
        filled_in(messages)
    }
}

/// What holds between a turn, the messages of the chat and what came in, as long as all
/// was delivered.
spec fn keeps(v: TurnView, pages: Seq<Seq<char>>, deltas: Seq<Seq<char>>) -> bool {
    let (c, messages) = composer::composed(deltas);
    let n = written_heads(v, messages);
    &&& v.body == c
    &&& 0 <= n <= messages.len()
    &&& v.queue == messages.skip(messages.len() - v.queue.len())
    &&& match v.job {
        JobView::Note { .. } | JobView::Over => pages == whole(deltas) && v.outcome is Some,
        JobView::Write(w) => {
            &&& shows(v.live, pages, filled_in(messages.take(n)))
            &&& w.edit is Some <==> v.live is Some
            &&& text::trim(w.text).len() > 0
            &&& match w.after {
                After::Head => n < messages.len() && w.text == messages[n] && v.outcome is None,
                After::Update => v.queue.len() == 0 && text::trim(c.text).len() > 0
                    && v.outcome is None,
                After::End => v.queue.len() == 0 && w.text == text::trim(c.text)
                    && v.outcome is Some,
            }
        },
        _ => {
            &&& v.queue.len() == 0
            &&& shows(v.live, pages, filled_in(messages))
            &&& v.live is Some ==> text::trim(c.text).len() > 0
            &&& v.outcome is None
        },
    }
}

/// Whether a turn gave up some text, or was handed back.
spec fn given_up(v: TurnView) -> bool {
    v.delivery_failed || (v.job is Over && (v.outcome == Some(Outcome::Aborted) || v.outcome
        == Some(Outcome::Lagged)))
}

/// Writing the full messages that wait keeps to the texts.
proof fn heads_keep(v: TurnView, now: u64, pages: Seq<Seq<char>>, deltas: Seq<Seq<char>>)
    requires
        ({
            let (c, messages) = composer::composed(deltas);
            let n = messages.len() - v.queue.len();
            &&& v.body == c
            &&& 0 <= n
            &&& v.queue == messages.skip(n)
            &&& v.outcome is None
            &&& shows(v.live, pages, filled_in(messages.take(n)))
            &&& v.live is Some && v.queue.len() == 0 ==> text::trim(c.text).len() > 0
            &&& v.live is Some && v.queue.len() > 0 ==> text::trim(v.queue[0]).len() > 0
        }),
    ensures
        keeps(turn_relay::next_head(v, now).0, pages, deltas),
        turn_relay::next_head(v, now).0.delivery_failed == v.delivery_failed,
        turn_relay::next_head(v, now).0.outcome == v.outcome,
    decreases v.queue.len(),
{
    let (c, messages) = composer::composed(deltas);
    let n = messages.len() - v.queue.len();
    if v.queue.len() == 0 {
        assert(messages.take(n) =~= messages);
    } else {
        let head = v.queue[0];
        let rest = TurnView { queue: v.queue.skip(1), ..v };
        assert(head == messages[n]);
        assert(v.queue.skip(1) =~= messages.skip(n + 1));
        filled_in_goes_on(messages, n);
        if !turn_relay::needed(rest, head) {
            let done = filled_in(messages.take(n));
            if v.live is Some {
                assert(pages =~= pages.drop_last().push(pages.last()));
            }
            heads_keep(TurnView { live: None, ..rest }, now, pages, deltas);
        }
    }
}

/// Ending keeps to the texts.
proof fn noting_keeps(v: TurnView, pages: Seq<Seq<char>>, deltas: Seq<Seq<char>>)
    requires
        v.body == composer::composed(deltas).0,
        v.queue.len() == 0,
        v.outcome is Some,
        pages == whole(deltas),
    ensures
        keeps(turn_relay::noting(v).0, pages, deltas),
        turn_relay::noting(v).0.delivery_failed == v.delivery_failed,
        turn_relay::noting(v).0.outcome == v.outcome,
{
    let messages = composer::composed(deltas).1;
    assert(messages.skip(messages.len() as int) =~= v.queue);
}

/// What a refusal for its rate says.
proof fn rates_say_nothing_else()
    ensures
        !turn_relay::unchanged("rate limited"@),
        !turn_relay::gone("rate limited"@),
{
    reveal_strlit("rate limited");
    reveal_strlit("not modified");
    reveal_strlit("not found");
    reveal_strlit("can't be edited");
    let s = "rate limited"@;
    assert(s.len() == 12 && s[0] == 'r' && s[1] == 'a' && s[2] == 't' && s[3] == 'e');
    assert("not modified"@.len() == 12 && "not modified"@[0] == 'n');
    assert("not found"@.len() == 9 && "not found"@[0] == 'n');
    assert("can't be edited"@.len() == 15);
    assert forall|i: int| !text::stands_at(s, "not modified"@, i) by {
        if text::stands_at(s, "not modified"@, i) {
            assert(s.subrange(i, i + 12)[0] == s[i]);
        }
    }
    assert forall|i: int| !text::stands_at(s, "not found"@, i) by {
        if text::stands_at(s, "not found"@, i) {
            assert(s.subrange(i, i + 9)[0] == s[i]);
        }
    }
}

/// A text that was settled keeps to the texts.
proof fn settling_keeps(
    old: TurnView,
    w: WriteView,
    v: TurnView,
    now: u64,
    before: Seq<Seq<char>>,
    pages: Seq<Seq<char>>,
    deltas: Seq<Seq<char>>,
)
    requires
        keeps(old, before, deltas),
        old.job == JobView::Write(w),
        v.body == old.body,
        v.queue == old.queue,
        v.outcome == old.outcome,
        !v.delivery_failed,
        v.live matches Some(l) && l.shown == w.text,
        pages == if w.edit is Some {
            before.drop_last().push(w.text)
        } else {
            before.push(w.text)
        },
    ensures
        keeps(turn_relay::settled(v, w, true, now).0, pages, deltas),
{
    let (c, messages) = composer::composed(deltas);
    let n = written_heads(old, messages);
    let done = filled_in(messages.take(n));
    assert(pages.drop_last() =~= done);
    let next = TurnView {
        fence: w.fence,
        blocked_until: None,
        delivery_failed: v.delivery_failed || !true,
        ..v
    };
    match w.after {
        After::Head => {
            filled_in_goes_on(messages, n);
            assert(pages =~= done.push(w.text));
            assert(next.queue =~= messages.skip(n + 1));
            heads_keep(TurnView { live: None, ..next }, now, pages, deltas);
        },
        After::Update => {
            assert(messages.take(n) =~= messages);
        },
        After::End => {
            assert(messages.take(n) =~= messages);
            assert(pages =~= whole(deltas));
            noting_keeps(next, pages, deltas);
        },
    }
}

/// The answer to a text keeps to the texts.
proof fn answer_keeps(
    v: TurnView,
    w: WriteView,
    reply: ReplyView,
    now: u64,
    before: Seq<Seq<char>>,
    deltas: Seq<Seq<char>>,
)
    requires
        keeps(v, before, deltas),
        !given_up(v),
        v.job == JobView::Write(w),
        telling(v, RelayInputView::Reply(reply)),
    ensures
        ({
            let next = turn_relay::on_written(turn_relay::free(v), w, reply, now).0;
            given_up(next) || keeps(next, answered(before, w, reply), deltas)
        }),
{
    let free = turn_relay::free(v);
    match reply {
        ReplyView::Delivered(id) => {
            let shown = match w.edit {
                Some(_) => TurnView {
                    live: Some(LiveView { message_id: v.live->0.message_id, shown: w.text }),
                    ..free
                },
                None => TurnView {
                    message_ids: v.message_ids.push(id->0),
                    live: Some(LiveView { message_id: id->0, shown: w.text }),
                    ..free
                },
            };
            settling_keeps(v, w, shown, now, before, answered(before, w, reply), deltas);
        },
        ReplyView::Limited(_) => {},
        ReplyView::Refused(e) => {
            failing_keeps(v, w, e, now, before, deltas);
        },
    }
}

/// A refusal keeps to the texts, or gives up.
proof fn failing_keeps(
    v: TurnView,
    w: WriteView,
    e: Seq<char>,
    now: u64,
    before: Seq<Seq<char>>,
    deltas: Seq<Seq<char>>,
)
    requires
        keeps(v, before, deltas),
        !given_up(v),
        v.job == JobView::Write(w),
        !turn_relay::unchanged(e),
    ensures
        ({
            let next = turn_relay::failing(turn_relay::free(v), w, e, now).0;
            given_up(next) || keeps(next, answered(before, w, ReplyView::Refused(e)), deltas)
        }),
{
    let (c, messages) = composer::composed(deltas);
    let free = turn_relay::free(v);
    if !w.plain && !turn_relay::gone(e) {
    } else if w.edit is Some && turn_relay::gone(e) {
        assert(shows(None, before.drop_last(), filled_in(messages.take(written_heads(v, messages)))));
    } else {
        let next = TurnView {
            fence: w.fence,
            blocked_until: None,
            delivery_failed: true,
            ..free
        };
        failed_stays(next, now);
        assert(turn_relay::settled(free, w, false, now).0.delivery_failed);
    }
}

/// A turn that failed to deliver some text does not forget it while it goes on.
proof fn failed_stays(v: TurnView, now: u64)
    requires
        v.delivery_failed,
    ensures
        turn_relay::next_head(v, now).0.delivery_failed,
        turn_relay::next_head(TurnView { live: None, ..v }, now).0.delivery_failed,
    decreases v.queue.len(),
{
    let gone = TurnView { live: None, ..v };
    if v.queue.len() > 0 {
        let rest = TurnView { queue: v.queue.skip(1), ..gone };
        failed_stays(rest, now);
    }
}

/// A turn that gave up some text, or was handed back, stays so.
proof fn given_up_stays(v: TurnView, input: RelayInputView, now: u64)
    requires
        given_up(v),
    ensures
        given_up(turn_relay::step(v, input, now).0),
{
    if v.delivery_failed {
        match (v.job, input) {
            (JobView::Idle, RelayInputView::Event(EventView::ContentDelta { text, .. })) => {
                let (body, heads) = composer::grown(v.body, text);
                failed_stays(TurnView { body, queue: heads, ..v }, now);
            },
            (JobView::Write(w), _) => {
                let plain = TurnView { fence: w.fence, blocked_until: None, ..turn_relay::free(v) };
                failed_stays(plain, now);
                if let RelayInputView::Reply(ReplyView::Delivered(Some(id))) = input {
                    failed_stays(
                        TurnView { message_ids: v.message_ids.push(id), live: None, ..plain },
                        now,
                    );
                }
                assert(v.delivery_failed || false);
            },
            _ => {},
        }
    }
}

/// Ending keeps to the texts.
proof fn ending_keeps(
    v: TurnView,
    outcome: Outcome,
    now: u64,
    pages: Seq<Seq<char>>,
    deltas: Seq<Seq<char>>,
)
    requires
        keeps(v, pages, deltas),
        v.job is Idle,
    ensures
        ({
            let next = turn_relay::ending(v, outcome, now).0;
            given_up(next) || keeps(next, pages, deltas)
        }),
{
    let (c, messages) = composer::composed(deltas);
    let ended = TurnView { outcome: Some(outcome), ..v };
    let rest = text::trim(v.body.text);
    text::trimmed_is_tight(v.body.text);
    assert(messages.take(messages.len() as int) =~= messages);
    assert(messages.skip(messages.len() as int) =~= v.queue);
    if outcome != Outcome::Aborted && outcome != Outcome::Lagged {
        if !turn_relay::needed(ended, rest) {
            if v.live is Some {
                assert(pages =~= pages.drop_last().push(pages.last()));
            }
            noting_keeps(ended, pages, deltas);
        }
    }
}

/// Text that comes in keeps to the texts.
proof fn hearing_keeps(v: TurnView, s: Seq<char>, now: u64, pages: Seq<Seq<char>>, deltas: Seq<Seq<char>>)
    requires
        keeps(v, pages, deltas),
        v.job is Idle,
        v.live is Some && composer::grown(v.body, s).1.len() > 0 ==> text::trim(
            composer::grown(v.body, s).1[0],
        ).len() > 0,
    ensures
        ({
            let (body, heads) = composer::grown(v.body, s);
            keeps(
                turn_relay::next_head(TurnView { body, queue: heads, ..v }, now).0,
                pages,
                deltas.push(s),
            )
        }),
{
    let (c, messages) = composer::composed(deltas);
    let (body, heads) = composer::grown(v.body, s);
    let all = deltas.push(s);
    assert(all.drop_last() =~= deltas);
    let more = messages + heads;
    assert(composer::composed(all) == (body, more));
    let n = messages.len() as int;
    assert(more.take(n) =~= messages);
    assert(more.skip(n) =~= heads);
    if v.live is Some && heads.len() == 0 {
        assert(c.text + s == body.text);
        inked_adds_up(c.text, s);
        inked_when_trimmed(c.text);
        inked_when_trimmed(body.text);
    }
    heads_keep(TurnView { body, queue: heads, ..v }, now, pages, all);
}

/// Every step keeps to the texts, or gives up.
proof fn step_keeps(v: TurnView, told: Told, pages: Seq<Seq<char>>, deltas: Seq<Seq<char>>)
    requires
        keeps(v, pages, deltas),
        !given_up(v),
        telling(v, told.0),
        filling(v, told.0),
    ensures
        ({
            let next = turn_relay::step(v, told.0, told.1).0;
            let shown = match (v.job, told.0) {
                (JobView::Write(w), RelayInputView::Reply(reply)) => if w.pausing {
                    pages
                } else {
                    answered(pages, w, reply)
                },
                _ => pages,
            };
            let came = match heard(v, told.0) {
                Some(s) => deltas.push(s),
                None => deltas,
            };
            given_up(next) || keeps(next, shown, came)
        }),
{
    let (c, messages) = composer::composed(deltas);
    let now = told.1;
    match (v.job, told.0) {
        (JobView::Idle, RelayInputView::Event(EventView::ContentDelta { text, parent_tool_use_id })) => {
            if parent_tool_use_id is None {
                hearing_keeps(v, text, now, pages, deltas);
            }
        },
        (JobView::Idle, RelayInputView::Event(e)) => {
            match e {
                EventView::TurnComplete { stop_reason, .. } => {
                    ending_keeps(v, turn_relay::outcome_of(stop_reason), now, pages, deltas);
                },
                EventView::Error { terminal, .. } => {
                    ending_keeps(v, Outcome::Failed, now, pages, deltas);
                },
                EventView::StatusChanged { status } => {
                    ending_keeps(v, Outcome::Failed, now, pages, deltas);
                },
                _ => {},
            }
        },
        (JobView::Idle, RelayInputView::Lagged) => {
            ending_keeps(v, Outcome::Lagged, now, pages, deltas);
        },
        (JobView::Idle, RelayInputView::Closed) => {
            ending_keeps(v, Outcome::Aborted, now, pages, deltas);
        },
        (JobView::Idle, RelayInputView::Deadline) => {
            ending_keeps(v, Outcome::Failed, now, pages, deltas);
        },
        (JobView::Idle, RelayInputView::Timer) => {
            assert(messages.take(messages.len() as int) =~= messages);
        },
        (JobView::Write(w), RelayInputView::Reply(reply)) => {
            if !w.pausing {
                answer_keeps(v, w, reply, now, pages, deltas);
            }
        },
        (JobView::Write(w), RelayInputView::Woken) => {
            rates_say_nothing_else();
            failing_keeps(v, w, "rate limited"@, now, pages, deltas);
        },
        _ => {},
    }
}

/// A run keeps to the texts, or gives up.
proof fn run_keeps(v: TurnView, told: Seq<Told>)
    requires
        begun(v),
        orderly(v, told),
    ensures
        given_up(after(v, told)) || keeps(after(v, told), pages(v, told), came(v, told)),
    decreases told.len(),
{
    if told.len() == 0 {
        let (c, messages) = composer::composed(came(v, told));
        assert(messages.skip(0) =~= v.queue);
        assert(filled_in(messages) =~= Seq::empty());
    } else {
        let front = told.drop_last();
        run_keeps(v, front);
        if given_up(after(v, front)) {
            given_up_stays(after(v, front), told.last().0, told.last().1);
        } else {
            step_keeps(after(v, front), told.last(), pages(v, front), came(v, front));
        }
    }
}

/// No text of a turn is lost. Where a turn ends, by itself, by a stop or by a failure, and
/// its report says that all was delivered, the messages of the chat hold together every
/// character of the main thread but white space, in its order; each of them fits in a
/// message, and none is blank. The message that is not full holds the rest of the text
/// without the status.
pub proof fn no_text_of_a_turn_is_lost(v: TurnView, told: Seq<Told>)
    requires
        begun(v),
        orderly(v, told),
        after(v, told).job is Over,
        after(v, told).outcome == Some(Outcome::Completed) || after(v, told).outcome == Some(
            Outcome::Cancelled,
        ) || after(v, told).outcome == Some(Outcome::Failed),
        !after(v, told).delivery_failed,
    ensures
        inked(composer::together(pages(v, told))) == inked(composer::together(came(v, told))),
        forall|i: int|
            0 <= i < pages(v, told).len() ==> 0 < (#[trigger] pages(v, told)[i]).len() <= TG_CHUNK,
        ({
            let rest = text::trim(composer::composed(came(v, told)).0.text);
            rest.len() > 0 ==> pages(v, told).len() > 0 && pages(v, told).last() == rest
        }),
{
    run_keeps(v, told);
    let deltas = came(v, told);
    let (c, messages) = composer::composed(deltas);
    let shown = pages(v, told);
    composer::messages_count_on(deltas);
    blanks_add_nothing(messages);
    let rest = text::trim(c.text);
    inked_when_trimmed(c.text);
    let heads = filled_in(messages);
    let all = composer::together(messages) + c.text;
    inked_adds_up(composer::together(messages), c.text);
    if rest.len() > 0 {
        assert(heads.push(rest) =~= heads + seq![rest]);
        composer::together_adds_up(heads, seq![rest]);
        composer::together_of_one(rest);
        inked_adds_up(composer::together(heads), rest);
    } else {
        assert(inked(c.text) =~= Seq::empty());
        assert(inked(all) =~= inked(composer::together(messages)));
    }
    assert(inked(composer::together(shown)) == inked(all));
    ink_is_visible(all);
    ink_is_visible(composer::together(deltas));
    assert forall|i: int| 0 <= i < shown.len() implies 0 < (#[trigger] shown[i]).len() <= TG_CHUNK by {
        if i < heads.len() {
            assert(messages.contains(heads[i]));
            filled_in_is_filled(messages, i);
            inked_when_trimmed(heads[i]);
        }
    }
}

/// What is no white space is no line break.
proof fn ink_is_visible(s: Seq<char>)
    ensures
        inked(composer::visible(s)) == inked(s),
    decreases s.len(),
{
    reveal(Seq::filter);
    if s.len() > 0 {
        let front = s.drop_last();
        let c = s.last();
        ink_is_visible(front);
        assert(s =~= front + seq![c]);
        inked_adds_up(front, seq![c]);
        inked_of_one(c);
        Seq::filter_distributes_over_add(front, seq![c], |c: char| c != '\n');
        if c != '\n' {
            assert(composer::visible(s) =~= composer::visible(front) + seq![c]);
            inked_adds_up(composer::visible(front), seq![c]);
        } else {
            assert(composer::visible(s) =~= composer::visible(front));
            assert(inked(s) =~= inked(front));
        }
    }
}

/// A text that is filled in is not blank.
proof fn filled_in_is_filled(list: Seq<Seq<char>>, i: int)
    requires
        0 <= i < filled_in(list).len(),
    ensures
        text::trim(filled_in(list)[i]).len() > 0,
    decreases list.len(),
{
    if list.len() > 0 && i < filled_in(list.drop_last()).len() {
        filled_in_is_filled(list.drop_last(), i);
    }
}

/// Whether an action calls a method for a chat, with a text in a format, for a message
/// that is there or for a new one.
pub open spec fn calls(
    action: ActionView,
    method: Seq<char>,
    chat_id: i64,
    message_id: Option<i64>,
    shown: Seq<char>,
    format: Option<Seq<char>>,
) -> bool {
    action matches ActionView::Call { method: m, body } && {
        &&& m == method
        &&& body.get("chat_id"@) == Some(JsonView::of_i64(chat_id))
        &&& body.get("message_id"@) == match message_id {
            Some(id) => Some(JsonView::of_i64(id)),
            None => None,
        }
        &&& body.get("text"@) == Some(JsonView::Str(shown))
        &&& body.get("parse_mode"@) == match format {
            Some(f) => Some(JsonView::Str(f)),
            None => None,
        }
    }
}

/// The names of the members of a call are told apart.
proof fn members_are_apart()
    ensures
        "chat_id"@ != "message_id"@,
        "chat_id"@ != "text"@,
        "chat_id"@ != "parse_mode"@,
        "chat_id"@ != "draft_id"@,
        "message_id"@ != "text"@,
        "message_id"@ != "parse_mode"@,
        "message_id"@ != "draft_id"@,
        "text"@ != "parse_mode"@,
        "text"@ != "draft_id"@,
        "parse_mode"@ != "draft_id"@,
{
    reveal_strlit("chat_id");
    reveal_strlit("message_id");
    reveal_strlit("text");
    reveal_strlit("parse_mode");
    reveal_strlit("draft_id");
    assert("chat_id"@.len() == 7 && "message_id"@.len() == 10 && "text"@.len() == 4);
    assert("parse_mode"@.len() == 10 && "draft_id"@.len() == 8);
    assert("parse_mode"@[0] == 'p' && "message_id"@[0] == 'm');
}

/// What an object with one more member holds under the names of a call.
proof fn member_added(o: JsonView, key: Seq<char>, value: JsonView)
    requires
        o is Object,
        o.get(key) is None,
    ensures
        o.with(key, value) is Object,
        o.with(key, value).get(key) == Some(value),
        forall|k: Seq<char>| k != key ==> #[trigger] o.with(key, value).get(k) == o.get(k),
{
    json::with_holds(o, key, value, key);
    assert forall|k: Seq<char>| k != key implies #[trigger] o.with(key, value).get(k) == o.get(
        k,
    ) by {
        json::with_holds(o, key, value, k);
    }
}

/// What the call of a text holds.
proof fn write_calls(v: TurnView, w: WriteView)
    ensures
        calls(
            turn_relay::write_call(v, w),
            if w.edit is Some {
                "editMessageText"@
            } else {
                "sendMessage"@
            },
            v.chat_id,
            w.edit,
            if w.plain {
                w.text
            } else {
                w.html
            },
            if w.plain {
                None
            } else {
                Some("HTML"@)
            },
        ),
{
    members_are_apart();
    let none = JsonView::empty_object();
    let chat = JsonView::of_i64(v.chat_id);
    member_added(none, "chat_id"@, chat);
    let base = none.with("chat_id"@, chat);
    let base = match w.edit {
        Some(id) => {
            member_added(base, "message_id"@, JsonView::of_i64(id));
            base.with("message_id"@, JsonView::of_i64(id))
        },
        None => base,
    };
    if w.plain {
        member_added(base, "text"@, JsonView::Str(w.text));
    } else {
        member_added(base, "text"@, JsonView::Str(w.html));
        member_added(
            base.with("text"@, JsonView::Str(w.html)),
            "parse_mode"@,
            JsonView::Str("HTML"@),
        );
    }
}

/// What the call of a remark holds.
proof fn note_calls(v: TurnView, note: Seq<char>)
    ensures
        calls(turn_relay::note_call(v, note), "sendMessage"@, v.chat_id, None, note, None),
{
    members_are_apart();
    let none = JsonView::empty_object();
    let chat = JsonView::of_i64(v.chat_id);
    member_added(none, "chat_id"@, chat);
    member_added(none.with("chat_id"@, chat), "text"@, JsonView::Str(note));
}

/// What the call of a draft holds.
proof fn draft_calls(v: TurnView, shown: Seq<char>)
    ensures
        calls(turn_relay::draft_call(v, shown), "sendMessageDraft"@, v.chat_id, None, shown, None),
        turn_relay::draft_call(v, shown)->body.get("draft_id"@) == Some(
            JsonView::of_i64(v.draft_base),
        ),
{
    members_are_apart();
    let none = JsonView::empty_object();
    let chat = JsonView::of_i64(v.chat_id);
    let id = JsonView::of_i64(v.draft_base);
    member_added(none, "chat_id"@, chat);
    let base = none.with("chat_id"@, chat);
    member_added(base, "draft_id"@, id);
    member_added(base.with("draft_id"@, id), "text"@, JsonView::Str(shown));
}

/// Whether the text that a turn has on its way is drawn from its source, inside the code
/// that the text before it left open.
pub open spec fn drawn(v: TurnView) -> bool {
    v.job matches JobView::Write(w) ==> w.html == tg_html::rendered(w.text, v.fence) && w.fence
        == tg_html::left_open(w.text, v.fence)
}

/// Writing the full messages makes the calls of its texts.
proof fn heads_are_called(v: TurnView, now: u64)
    requires
        v.outcome is None,
    ensures
        ({
            let (next, action) = turn_relay::next_head(v, now);
            &&& next.chat_id == v.chat_id
            &&& drawn(next)
            &&& next.fence == v.fence
            &&& next.outcome == v.outcome
            &&& match next.job {
                JobView::Write(w) => action == turn_relay::write_call(next, w) && !w.plain,
                JobView::Idle => action is Wait,
                _ => false,
            }
        }),
    decreases v.queue.len(),
{
    if v.queue.len() > 0 {
        let rest = TurnView { queue: v.queue.skip(1), ..v };
        if !turn_relay::needed(rest, v.queue[0]) {
            heads_are_called(TurnView { live: None, ..rest }, now);
        }
    }
}

/// Where the full messages of a queue stop: at the first that has to be written.
proof fn heads_stop(v: TurnView, now: u64)
    ensures
        ({
            let (next, action) = turn_relay::next_head(v, now);
            let busy = next.job is Write;
            let k = v.queue.len() - next.queue.len() - if busy {
                1int
            } else {
                0
            };
            &&& next.body == v.body
            &&& 0 <= k <= v.queue.len()
            &&& next.queue == v.queue.skip(v.queue.len() - next.queue.len())
            &&& forall|j: int|
                0 <= j < k ==> text::trim(#[trigger] v.queue[j]).len() == 0 || (j == 0
                    && v.live is Some && v.live->0.shown == v.queue[0])
            &&& !busy ==> k == v.queue.len() && action is Wait && next.job is Idle
            &&& busy ==> k < v.queue.len() && next.job->Write_0.text == v.queue[k]
                && next.job->Write_0.after == After::Head && action is Call
                && next.job->Write_0.edit == if k == 0 && v.live is Some {
                Some(v.live->0.message_id)
            } else {
                None
            }
        }),
    decreases v.queue.len(),
{
    if v.queue.len() == 0 {
        assert(v.queue.skip(0) =~= v.queue);
    } else {
        let rest = TurnView { queue: v.queue.skip(1), ..v };
        if !turn_relay::needed(rest, v.queue[0]) {
            let on = TurnView { live: None, ..rest };
            heads_stop(on, now);
            let next = turn_relay::next_head(v, now).0;
            let busy = next.job is Write;
            let k = v.queue.len() - next.queue.len() - if busy {
                1int
            } else {
                0
            };
            assert(on.queue.skip(on.queue.len() - next.queue.len()) =~= v.queue.skip(
                v.queue.len() - next.queue.len(),
            ));
            assert forall|j: int| 0 <= j < k implies text::trim(#[trigger] v.queue[j]).len() == 0
                || (j == 0 && v.live is Some && v.live->0.shown == v.queue[0]) by {
                if j > 0 {
                    assert(on.queue[j - 1] == v.queue[j]);
                }
            }
        } else {
            assert(v.queue.skip(1) =~= v.queue.skip(v.queue.len() - (v.queue.len() - 1)));
        }
    }
}

/// Before a turn waits again, each full message is written: text that fills messages is
/// followed by the call of the first that is not blank and not shown, into the message
/// that there is or into a new one, and the others wait behind it. Only where there is no
/// such message does the turn wait.
pub proof fn full_messages_are_written(v: TurnView, s: Seq<char>, now: u64)
    requires
        v.job is Idle,
    ensures
        ({
            let event = EventView::ContentDelta { text: s, parent_tool_use_id: None };
            let (next, action) = turn_relay::step(v, RelayInputView::Event(event), now);
            let (body, heads) = composer::grown(v.body, s);
            let busy = next.job is Write;
            let k = heads.len() - next.queue.len() - if busy {
                1int
            } else {
                0
            };
            &&& next.body == body
            &&& 0 <= k <= heads.len()
            &&& next.queue == heads.skip(heads.len() - next.queue.len())
            &&& forall|j: int|
                0 <= j < k ==> text::trim(#[trigger] heads[j]).len() == 0 || (j == 0
                    && v.live is Some && v.live->0.shown == heads[0])
            &&& !busy ==> k == heads.len() && action is Wait
            &&& busy ==> k < heads.len() && next.job->Write_0.text == heads[k] && action is Call
                && next.job->Write_0.edit == if k == 0 && v.live is Some {
                Some(v.live->0.message_id)
            } else {
                None
            }
        }),
{
    let (body, heads) = composer::grown(v.body, s);
    heads_stop(TurnView { body, queue: heads, ..v }, now);
}

/// Once a full message is delivered, the next that is not blank is sent as a message of
/// its own, before the turn waits.
pub proof fn full_messages_follow_one_another(v: TurnView, reply: Option<i64>, now: u64)
    requires
        v.job matches JobView::Write(w) && w.after == After::Head && !w.pausing,
    ensures
        ({
            let (next, action) = turn_relay::step(
                v,
                RelayInputView::Reply(ReplyView::Delivered(reply)),
                now,
            );
            let busy = next.job is Write;
            let k = v.queue.len() - next.queue.len() - if busy {
                1int
            } else {
                0
            };
            &&& 0 <= k <= v.queue.len()
            &&& next.queue == v.queue.skip(v.queue.len() - next.queue.len())
            &&& forall|j: int| 0 <= j < k ==> text::trim(#[trigger] v.queue[j]).len() == 0
            &&& !busy ==> k == v.queue.len() && action is Wait
            &&& busy ==> k < v.queue.len() && next.job->Write_0.text == v.queue[k]
                && next.job->Write_0.edit is None && action is Call
        }),
{
    let w = v.job->Write_0;
    let free = turn_relay::free(v);
    let settled = TurnView {
        fence: w.fence,
        blocked_until: None,
        delivery_failed: v.delivery_failed || !true,
        live: None,
        ..free
    };
    heads_stop(settled, now);
    if let Some(id) = reply {
        heads_stop(TurnView { message_ids: v.message_ids.push(id), ..settled }, now);
    }
}

/// Text of a sub-agent is not shown: it changes nothing.
pub proof fn text_of_others_is_not_shown(v: TurnView, s: Seq<char>, parent: Seq<char>, now: u64)
    requires
        v.job is Idle,
    ensures
        ({
            let event = EventView::ContentDelta { text: s, parent_tool_use_id: Some(parent) };
            let (next, action) = turn_relay::step(v, RelayInputView::Event(event), now);
            next == v && action is Wait
        }),
{
}

/// Every text that a turn writes is called out: a step after which a text is on its way
/// sleeps, does nothing, or calls for it. The call edits the message that there is, or
/// sends a new one; it holds the text drawn as HTML, or the text itself where the HTML was
/// turned down.
pub proof fn texts_are_called_out(v: TurnView, input: RelayInputView, now: u64)
    requires
        turn_relay::sound(v),
        drawn(v),
        !(v.job is Note || v.job is Over) && !(v.job matches JobView::Write(w) && w.after
            == After::End) ==> v.outcome is None,
    ensures
        ({
            let (next, action) = turn_relay::step(v, input, now);
            &&& drawn(next)
            &&& next.job is Write && action is Call ==> calls(
                action,
                if next.job->Write_0.edit is Some {
                    "editMessageText"@
                } else {
                    "sendMessage"@
                },
                v.chat_id,
                next.job->Write_0.edit,
                if next.job->Write_0.plain {
                    next.job->Write_0.text
                } else {
                    tg_html::rendered(next.job->Write_0.text, next.fence)
                },
                if next.job->Write_0.plain {
                    None
                } else {
                    Some("HTML"@)
                },
            )
        }),
{
    let (next, action) = turn_relay::step(v, input, now);
    match (v.job, input) {
        (JobView::Idle, RelayInputView::Event(EventView::ContentDelta { text, parent_tool_use_id })) => {
            let (body, heads) = composer::grown(v.body, text);
            heads_are_called(TurnView { body, queue: heads, ..v }, now);
        },
        (JobView::Write(w), _) => {
            let plain = TurnView { fence: w.fence, blocked_until: None, live: None, ..turn_relay::free(v) };
            let ok = TurnView { delivery_failed: v.delivery_failed || !true, ..plain };
            if w.after == After::Head {
                heads_are_called(ok, now);
                heads_are_called(TurnView { delivery_failed: v.delivery_failed || !false, ..plain }, now);
                if let RelayInputView::Reply(ReplyView::Delivered(Some(id))) = input {
                    heads_are_called(
                        TurnView { message_ids: v.message_ids.push(id), ..ok },
                        now,
                    );
                }
            }
        },
        _ => {},
    }
    if let JobView::Write(w) = next.job {
        write_calls(next, w);
        write_calls(v, w);
    }
}

/// A turn begins with a draft that shows that it thinks.
pub proof fn a_turn_begins_with_a_draft(chat_id: i64, draft_base: i64, texts: TextsView, now: u64)
    ensures
        ({
            let v = turn_relay::unbegun(chat_id, draft_base, texts);
            let (next, action) = turn_relay::drafting(v, v.status, now);
            &&& begun(next)
            &&& calls(action, "sendMessageDraft"@, chat_id, None, texts.thinking, None)
            &&& action->body.get("draft_id"@) == Some(JsonView::of_i64(draft_base))
        }),
{
    let v = turn_relay::unbegun(chat_id, draft_base, texts);
    draft_calls(v, v.status);
}

/// When the time comes, a turn without text shows its status as a draft; one with text
/// writes the text, with the status behind it while a tool runs, unless that is shown.
pub proof fn the_time_shows_the_text(v: TurnView, now: u64)
    requires
        v.job is Idle,
    ensures
        ({
            let (next, action) = turn_relay::step(v, RelayInputView::Timer, now);
            let shown = text::trim_end(v.body.text);
            let all = if v.status_tool is Some {
                shown + seq!['\n', '\n'] + v.status
            } else {
                shown
            };
            if text::trim(v.body.text).len() == 0 {
                &&& next.job == JobView::Draft { text: v.status }
                &&& calls(action, "sendMessageDraft"@, v.chat_id, None, v.status, None)
            } else if v.live is Some && v.live->0.shown == all {
                next == v && action is Wait
            } else {
                &&& next.job is Write
                &&& next.job->Write_0.text == all
                &&& next.job->Write_0.after == After::Update
                &&& calls(
                    action,
                    if v.live is Some {
                        "editMessageText"@
                    } else {
                        "sendMessage"@
                    },
                    v.chat_id,
                    match v.live {
                        Some(l) => Some(l.message_id),
                        None => None,
                    },
                    tg_html::rendered(all, v.fence),
                    Some("HTML"@),
                )
            }
        }),
{
    reveal_strlit("\n\n");
    assert("\n\n"@ =~= seq!['\n', '\n']);
    let shown = text::trim_end(v.body.text);
    let all = turn_relay::display(v);
    inked_when_trimmed(v.body.text);
    inked_behind(v.body.text);
    inked_when_trimmed(shown);
    draft_calls(v, v.status);
    if text::trim(v.body.text).len() > 0 {
        if v.status_tool is Some {
            inked_adds_up(shown, "\n\n"@);
            inked_adds_up(shown + "\n\n"@, v.status);
        }
        inked_when_trimmed(all);
        let w = turn_relay::sending(v, all, After::Update, now).0.job->Write_0;
        write_calls(v, w);
    }
}

/// A tool that runs is told of behind the text: its description, or its title, cut where
/// it is long; and no more once it is done.
pub proof fn running_tools_are_shown(
    v: TurnView,
    call: EventView,
    news: EventView,
    now: u64,
    later: u64,
)
    requires
        v.job is Idle,
        call is ToolCall,
        news is ToolCallUpdate,
        news->ToolCallUpdate_tool_call_id == call->ToolCall_tool_call_id,
        news->ToolCallUpdate_status == Some("completed"@) || news->ToolCallUpdate_status == Some(
            "failed"@,
        ),
        ({
            let d = call->ToolCall_description;
            d is Some && text::trim(d->0).len() > 0 || text::trim(call->ToolCall_title).len() > 0
        }),
    ensures
        ({
            let d = call->ToolCall_description;
            let label = if d is Some && text::trim(d->0).len() > 0 {
                text::trim(d->0)
            } else {
                text::trim(call->ToolCall_title)
            };
            let shown = if label.len() > 120 {
                label.take(120).push('…')
            } else {
                label
            };
            let busy = turn_relay::step(v, RelayInputView::Event(call), now).0;
            let done = turn_relay::step(busy, RelayInputView::Event(news), later).0;
            &&& busy == TurnView {
                status: seq!['🔧', ' '] + shown,
                status_tool: Some(call->ToolCall_tool_call_id),
                ..v
            }
            &&& done == TurnView { status: v.texts.thinking, status_tool: None, ..v }
        }),
{
    reveal_strlit("🔧 ");
    reveal_strlit("…");
    assert("🔧 "@ =~= seq!['🔧', ' ']);
    let d = call->ToolCall_description;
    let label = turn_relay::tool_label(d, call->ToolCall_title);
    if label.len() > 120 {
        assert(label.take(120) + "…"@ =~= label.take(120).push('…'));
    }
}

/// A turn whose text is all written tells how it ended: it was stopped, it failed, or it
/// has nothing to say. One that said something and is complete ends at once.
pub proof fn the_end_is_told(
    v: TurnView,
    session_id: Seq<char>,
    stop_reason: Seq<char>,
    agent_type: Seq<char>,
    duration_ms: Option<u64>,
    now: u64,
)
    requires
        v.job is Idle,
        text::trim(v.body.text).len() == 0,
    ensures
        ({
            let event = EventView::TurnComplete {
                session_id,
                stop_reason,
                agent_type,
                duration_ms,
            };
            let (next, action) = turn_relay::step(v, RelayInputView::Event(event), now);
            let outcome = if stop_reason == "end_turn"@ {
                Outcome::Completed
            } else if stop_reason == "cancelled"@ {
                Outcome::Cancelled
            } else {
                Outcome::Failed
            };
            let remark = if stop_reason == "cancelled"@ {
                v.texts.cancelled
            } else if stop_reason != "end_turn"@ {
                v.texts.failed
            } else {
                v.texts.empty
            };
            &&& next.outcome == Some(outcome)
            &&& next.message_ids == v.message_ids
            &&& if outcome == Outcome::Completed && v.message_ids.len() > 0 {
                action matches ActionView::Done(r) && r.outcome == outcome && r.message_ids
                    == v.message_ids && r.delivery_failed == v.delivery_failed
            } else {
                &&& calls(action, "sendMessage"@, v.chat_id, None, remark, None)
                &&& next.job is Note
            }
        }),
{
    text::trimmed_is_tight(v.body.text);
    note_calls(v, v.texts.cancelled);
    note_calls(v, v.texts.failed);
    note_calls(v, v.texts.empty);
    reveal_strlit("end_turn");
    reveal_strlit("cancelled");
    assert("end_turn"@.len() == 8 && "cancelled"@.len() == 9);
}

/// A turn that is busy with its remark ends once the remark is answered, and its report
/// says how the turn ended, which messages it wrote, the remark among them, and whether
/// some text was not delivered.
pub proof fn the_report_tells_all(v: TurnView, reply: ReplyView, now: u64)
    requires
        v.job matches JobView::Note { pausing, .. } && !pausing,
        v.outcome is Some,
        !(reply is Limited),
    ensures
        turn_relay::step(v, RelayInputView::Reply(reply), now).1 matches ActionView::Done(r) && {
            &&& Some(r.outcome) == v.outcome
            &&& r.message_ids == match reply {
                ReplyView::Delivered(Some(id)) => v.message_ids.push(id),
                _ => v.message_ids,
            }
            &&& r.delivery_failed == (v.delivery_failed || reply is Refused)
        },
{
}

/// A call that is turned down for its rate is made again, the same, after the pause that
/// was asked for, but no longer than half a minute; at the third time it is given up as
/// it was.
pub proof fn calls_are_repeated(v: TurnView, secs: u64, now: u64, later: u64)
    requires
        turn_relay::sound(v),
        v.job matches JobView::Write(w) && !w.pausing,
    ensures
        ({
            let w = v.job->Write_0;
            let (asleep, pause) = turn_relay::step(
                v,
                RelayInputView::Reply(ReplyView::Limited(secs)),
                now,
            );
            let (again, action) = turn_relay::step(asleep, RelayInputView::Woken, later);
            &&& pause == ActionView::Sleep(
                if secs < 30 {
                    secs
                } else {
                    30
                },
            )
            &&& w.tries < 2 ==> action == turn_relay::write_call(v, w) && again.job
                == JobView::Write(WriteView { tries: (w.tries + 1) as u64, ..w })
            &&& w.tries >= 2 && !w.plain ==> again.job == JobView::Write(
                WriteView { plain: true, tries: 0, ..w },
            ) && action is Call
            &&& w.tries >= 2 && w.plain ==> again.delivery_failed
        }),
{
    let w = v.job->Write_0;
    rates_say_nothing_else();
    if w.tries >= 2 && w.plain {
        let plain = TurnView {
            fence: w.fence,
            blocked_until: None,
            delivery_failed: true,
            ..turn_relay::free(v)
        };
        failed_stays(plain, later);
        failed_stays(TurnView { delivery_failed: v.delivery_failed || !false, ..plain }, later);
    }
}

/// A text whose HTML is turned down goes again as it is, into the same message.
pub proof fn refused_html_goes_as_text(v: TurnView, e: Seq<char>, now: u64)
    requires
        v.job matches JobView::Write(w) && !w.pausing && !w.plain,
        !turn_relay::unchanged(e),
        !turn_relay::gone(e),
    ensures
        ({
            let w = v.job->Write_0;
            let (next, action) = turn_relay::step(
                v,
                RelayInputView::Reply(ReplyView::Refused(e)),
                now,
            );
            &&& next.job matches JobView::Write(x) && x.text == w.text && x.edit == w.edit
                && x.after == w.after
            &&& calls(
                action,
                if w.edit is Some {
                    "editMessageText"@
                } else {
                    "sendMessage"@
                },
                v.chat_id,
                w.edit,
                w.text,
                None,
            )
        }),
{
    let w = v.job->Write_0;
    write_calls(turn_relay::free(v), WriteView { plain: true, tries: 0, pausing: false, ..w });
}

/// A message that is gone is followed by a new one with the same text, and no text is
/// given up.
pub proof fn lost_messages_are_sent_anew(v: TurnView, e: Seq<char>, now: u64)
    requires
        v.job matches JobView::Write(w) && !w.pausing && w.edit is Some,
        text::contains(e, "not found"@) || text::contains(e, "can't be edited"@),
        !text::contains(e, "not modified"@),
    ensures
        ({
            let w = v.job->Write_0;
            let (next, action) = turn_relay::step(
                v,
                RelayInputView::Reply(ReplyView::Refused(e)),
                now,
            );
            &&& next.live is None
            &&& next.delivery_failed == v.delivery_failed
            &&& next.job matches JobView::Write(x) && x.text == w.text && x.edit is None
                && x.after == w.after
            &&& calls(
                action,
                "sendMessage"@,
                v.chat_id,
                None,
                tg_html::rendered(w.text, v.fence),
                Some("HTML"@),
            )
        }),
{
    let w = v.job->Write_0;
    let gone = TurnView { live: None, ..turn_relay::free(v) };
    write_calls(gone, turn_relay::sending(gone, w.text, w.after, now).0.job->Write_0);
}

} // verus!
