//! The text of a turn, in messages of a bounded length.
use vstd::prelude::*;
use crate::text;

verus! {

/// The longest message in characters. Telegram takes 4096 UTF-16 units; the rest is
/// left for characters that take two.
pub const TG_CHUNK: usize = 3800;

/// The position of the last line break of a text.
pub open spec fn last_break(s: Seq<char>) -> Option<int>
    decreases s.len(),
{
    if s.len() == 0 {
        None
    } else if s.last() == '\n' {
        Some(s.len() - 1)
    } else {
        last_break(s.drop_last())
    }
}

/// A text without line breaks in front.
pub open spec fn without_breaks(s: Seq<char>) -> Seq<char>
    decreases s.len(),
{
    if s.len() > 0 && s[0] == '\n' {
        without_breaks(s.skip(1))
    } else {
        s
    }
}

/// Where a text is cut so that its head has at most `max` characters: at the last
/// line break, or where the length ends if there is none behind the first character.
pub open spec fn cut_at(s: Seq<char>, max: nat) -> int {
    let end = if s.len() <= max {
        s.len() as int
    } else {
        max as int
    };
    match last_break(s.take(end)) {
        Some(i) => if i > 0 {
            i
        } else {
            end
        },
        None => end,
    }
}

/// The head of a text.
pub open spec fn head(s: Seq<char>, max: nat) -> Seq<char> {
    s.take(cut_at(s, max))
}

/// What follows the head of a text.
pub open spec fn tail(s: Seq<char>, max: nat) -> Seq<char> {
    without_breaks(s.skip(cut_at(s, max)))
}

/// The last line break stands within the text, and none stands behind it.
proof fn last_break_is_inside(s: Seq<char>)
    ensures
        last_break(s) matches Some(i) ==> 0 <= i < s.len() && s[i] == '\n',
    decreases s.len(),
{
    if s.len() > 0 && s.last() != '\n' {
        last_break_is_inside(s.drop_last());
    }
}

/// Dropping line breaks in front drops nothing else.
proof fn breaks_only(s: Seq<char>)
    ensures
        without_breaks(s).len() <= s.len(),
        without_breaks(s) == s.skip(s.len() - without_breaks(s).len()),
        forall|i: int| 0 <= i < s.len() - without_breaks(s).len() ==> s[i] == '\n',
    decreases s.len(),
{
    if s.len() > 0 && s[0] == '\n' {
        let t = s.skip(1);
        breaks_only(t);
        let n = without_breaks(s).len();
        assert(t.skip(t.len() - n) =~= s.skip(s.len() - n));
        assert forall|i: int| 0 <= i < s.len() - n implies s[i] == '\n' by {
            if i > 0 {
                assert(t[i - 1] == s[i]);
            }
        }
    } else {
        assert(s.skip(0) =~= s);
    }
}

/// The head is not empty where there is a text and room for it, and the tail is
/// shorter than the text.
proof fn cut_moves_on(s: Seq<char>, max: nat)
    ensures
        0 <= cut_at(s, max) <= s.len(),
        cut_at(s, max) <= max,
        s.len() > 0 && max > 0 ==> cut_at(s, max) > 0,
        tail(s, max).len() <= s.len() - cut_at(s, max),
{
    let end = if s.len() <= max {
        s.len() as int
    } else {
        max as int
    };
    last_break_is_inside(s.take(end));
    breaks_only(s.skip(cut_at(s, max)));
}

/// Cutting loses nothing but line breaks between the two parts.
pub proof fn cut_loses_only_breaks(s: Seq<char>, max: nat)
    ensures
        ({
            let n = s.len() - head(s, max).len() - tail(s, max).len();
            &&& 0 <= n
            &&& head(s, max).len() <= max
            &&& s == head(s, max) + Seq::new(n as nat, |i: int| '\n') + tail(s, max)
        }),
{
    cut_moves_on(s, max);
    let at = cut_at(s, max);
    let rest = s.skip(at);
    breaks_only(rest);
    let n = s.len() - head(s, max).len() - tail(s, max).len();
    assert forall|i: int| 0 <= i < s.len() implies s[i] == (head(s, max) + Seq::new(
        n as nat,
        |i: int| '\n',
    ) + tail(s, max))[i] by {
        if i >= at && i < at + n {
            assert(rest[i - at] == s[i]);
        }
        if i >= at + n {
            assert(tail(s, max)[i - at - n] == rest[i - at]);
        }
    }
    assert(s =~= head(s, max) + Seq::new(n as nat, |i: int| '\n') + tail(s, max));
}

/// Cuts a text in two: a head of at most `max` characters, preferably up to a line
/// break, and what follows it.
pub fn split_head(s: &str, max: usize) -> (r: (String, String))
    ensures
        r.0@ == head(s@, max as nat),
        r.1@ == tail(s@, max as nat),
{
    let v = text::chars(s);
    let ghost all = s@;
    let end: usize = if v.len() <= max {
        v.len()
    } else {
        max
    };
    let ghost window = all.take(end as int);
    proof {
        last_break_is_inside(window);
        cut_moves_on(all, max as nat);
    }
    let mut i: usize = end;
    assert(window.take(i as int) =~= window);
    while i > 0 && v[i - 1] != '\n'
        invariant
            v@ == all,
            window == all.take(end as int),
            i <= end <= v@.len(),
            last_break(window) == last_break(window.take(i as int)),
        decreases i,
    {
        assert(window.take(i as int).last() == all[i - 1]);
        assert(window.take(i as int).drop_last() =~= window.take(i - 1));
        i = i - 1;
    }
    assert(i > 0 ==> window.take(i as int).last() == all[i - 1]);
    let at: usize = if i > 1 {
        i - 1
    } else {
        end
    };
    assert(at == cut_at(all, max as nat));
    let ghost rest = all.skip(at as int);
    let mut j: usize = at;
    assert(rest.skip(0) =~= rest);
    while j < v.len() && v[j] == '\n'
        invariant
            v@ == all,
            rest == all.skip(at as int),
            at <= j <= v@.len(),
            without_breaks(rest) == without_breaks(rest.skip(j - at)),
        decreases v@.len() - j,
    {
        assert(rest.skip(j - at)[0] == all[j as int]);
        assert(rest.skip(j - at).skip(1) =~= rest.skip(j + 1 - at));
        j = j + 1;
    }
    assert(j < v@.len() ==> rest.skip(j - at)[0] == all[j as int]);
    let first = text::slice(v.as_slice(), 0, at);
    let second = text::slice(v.as_slice(), j, v.len());
    assert(first@ =~= all.take(at as int));
    assert(second@ =~= rest.skip(j - at));
    (first, second)
}

/// The messages that a text fills, and what is left for the next.
pub open spec fn filled(s: Seq<char>) -> (Seq<Seq<char>>, Seq<char>)
    decreases s.len(),
    via filling_ends
{
    if s.len() > TG_CHUNK {
        let rest = filled(tail(s, TG_CHUNK as nat));
        (seq![head(s, TG_CHUNK as nat)] + rest.0, rest.1)
    } else {
        (Seq::empty(), s)
    }
}

#[via_fn]
proof fn filling_ends(s: Seq<char>) {
    cut_moves_on(s, TG_CHUNK as nat);
}

/// The text of a turn. A message carries it until it is full; then the next does.
#[derive(Debug)]
pub struct Composer {
    text: String,
    index: u32,
}

/// The content of a `Composer`: the text of the current message, and how many
/// messages came before it, counted up to the largest number.
#[verifier::ext_equal]
pub struct ComposerView {
    pub text: Seq<char>,
    pub index: nat,
}

impl View for Composer {
    type V = ComposerView;

    closed spec fn view(&self) -> ComposerView {
        ComposerView { text: self.text@, index: self.index as nat }
    }
}

/// A count that stops at the largest number.
pub open spec fn counted(n: nat, more: nat) -> nat {
    if n + more <= u32::MAX {
        n + more
    } else {
        u32::MAX as nat
    }
}

/// A composer with more text, and the messages that it fills.
pub open spec fn grown(c: ComposerView, delta: Seq<char>) -> (ComposerView, Seq<Seq<char>>) {
    let (heads, rest) = filled(c.text + delta);
    (ComposerView { text: rest, index: counted(c.index, heads.len()) }, heads)
}

impl Composer {
    /// The composer without text.
    pub fn new() -> (r: Composer)
        ensures
            r@ == (ComposerView { text: Seq::empty(), index: 0 }),
    {
        Composer { text: String::new(), index: 0 }
    }

    /// The number of the current message, from zero.
    pub fn index(&self) -> (r: u32)
        ensures
            r == self@.index,
    {
        self.index
    }

    /// The text of the current message.
    pub fn text(&self) -> (r: &str)
        ensures
            r@ == self@.text,
    {
        self.text.as_str()
    }

    /// Adds text, and gives the messages that it fills: the current one is to hold
    /// the first of them, and each other needs one of its own.
    pub fn push(&mut self, delta: &str) -> (r: Vec<String>)
        ensures
            (final(self)@, r.deep_view()) == grown(old(self)@, delta@),
    {
        let ghost before = self@;
        let ghost all = before.text + delta@;
        self.text.push_str(delta);
        let mut out: Vec<String> = Vec::new();
        assert(out.deep_view() =~= Seq::empty());
        assert(Seq::<Seq<char>>::empty() + filled(all).0 =~= filled(all).0);
        let mut full = text::chars(self.text.as_str()).len() > TG_CHUNK;
        while full
            invariant
                full == (self.text@.len() > TG_CHUNK),
                before.text + delta@ == all,
                out.deep_view() + filled(self.text@).0 == filled(all).0,
                filled(self.text@).1 == filled(all).1,
                self.index as nat == counted(before.index, out@.len()),
            decreases self.text@.len(),
        {
            proof {
                cut_moves_on(self.text@, TG_CHUNK as nat);
            }
            let ghost now = self.text@;
            let ghost had = out.deep_view();
            let (first, rest) = split_head(self.text.as_str(), TG_CHUNK);
            text::push(&mut out, first);
            self.text = rest;
            assert(out.deep_view() + filled(self.text@).0 =~= had + filled(now).0);
            if self.index < u32::MAX {
                self.index = self.index + 1;
            }
            full = text::chars(self.text.as_str()).len() > TG_CHUNK;
        }
        assert(out.deep_view() + filled(self.text@).0 =~= out.deep_view());
        assert(out.deep_view().len() == out@.len());
        out
    }
}

/// No message is longer than the limit, whatever the text.
pub proof fn messages_fit(s: Seq<char>)
    ensures
        filled(s).1.len() <= TG_CHUNK,
        forall|i: int| 0 <= i < filled(s).0.len() ==> (#[trigger] filled(s).0[i]).len() <= TG_CHUNK,
    decreases s.len(),
{
    if s.len() > TG_CHUNK {
        cut_moves_on(s, TG_CHUNK as nat);
        let rest = tail(s, TG_CHUNK as nat);
        messages_fit(rest);
        assert forall|i: int| 0 <= i < filled(s).0.len() implies (
        #[trigger] filled(s).0[i]).len() <= TG_CHUNK by {
            if i > 0 {
                assert(filled(s).0[i] == filled(rest).0[i - 1]);
            } else {
                assert(filled(s).0[0] == head(s, TG_CHUNK as nat));
            }
        }
    }
}

/// The characters of a text that are no line breaks.
pub open spec fn visible(s: Seq<char>) -> Seq<char> {
    s.filter(|c: char| c != '\n')
}

/// All messages after one another.
pub open spec fn together(parts: Seq<Seq<char>>) -> Seq<char>
    decreases parts.len(),
{
    if parts.len() == 0 {
        Seq::empty()
    } else {
        parts[0] + together(parts.skip(1))
    }
}

/// Line breaks alone leave nothing visible.
proof fn breaks_are_invisible(n: nat)
    ensures
        visible(Seq::new(n, |i: int| '\n')) =~= Seq::<char>::empty(),
    decreases n,
{
    reveal(Seq::filter);
    if n > 0 {
        let s = Seq::new(n, |i: int| '\n');
        assert(s.drop_last() =~= Seq::new((n - 1) as nat, |i: int| '\n'));
        breaks_are_invisible((n - 1) as nat);
    }
}

/// No text is lost: the filled messages and what is left hold every character of the
/// text but line breaks, in its order.
pub proof fn no_text_is_lost(s: Seq<char>)
    ensures
        visible(together(filled(s).0) + filled(s).1) == visible(s),
    decreases s.len(),
{
    if s.len() > TG_CHUNK {
        let max = TG_CHUNK as nat;
        cut_moves_on(s, max);
        cut_loses_only_breaks(s, max);
        let h = head(s, max);
        let t = tail(s, max);
        let n = (s.len() - h.len() - t.len()) as nat;
        let b = Seq::new(n, |i: int| '\n');
        no_text_is_lost(t);
        assert(filled(s).0.skip(1) =~= filled(t).0);
        let rest = together(filled(t).0) + filled(t).1;
        assert(together(filled(s).0) + filled(s).1 =~= h + rest);
        let p = |c: char| c != '\n';
        Seq::filter_distributes_over_add(h, rest, p);
        Seq::filter_distributes_over_add(h, b, p);
        Seq::filter_distributes_over_add(h + b, t, p);
        breaks_are_invisible(n);
        assert(visible(h) + visible(b) =~= visible(h));
    } else {
        assert(together(filled(s).0) + filled(s).1 =~= s);
    }
}

/// A composer that got the texts one after the other, and all messages that they
/// filled.
pub open spec fn composed(deltas: Seq<Seq<char>>) -> (ComposerView, Seq<Seq<char>>)
    decreases deltas.len(),
{
    if deltas.len() == 0 {
        (ComposerView { text: Seq::empty(), index: 0 }, Seq::empty())
    } else {
        let (c, messages) = composed(deltas.drop_last());
        let (d, more) = grown(c, deltas.last());
        (d, messages + more)
    }
}

/// The texts of two lists follow one another.
pub proof fn together_adds_up(a: Seq<Seq<char>>, b: Seq<Seq<char>>)
    ensures
        together(a + b) == together(a) + together(b),
    decreases a.len(),
{
    if a.len() == 0 {
        assert(a + b =~= b);
        assert(together(a) + together(b) =~= together(b));
    } else {
        assert((a + b).skip(1) =~= a.skip(1) + b);
        together_adds_up(a.skip(1), b);
        assert(together(a + b) =~= together(a) + together(b));
    }
}

/// One text alone.
pub proof fn together_of_one(s: Seq<char>)
    ensures
        together(seq![s]) == s,
{
    assert(seq![s].skip(1) =~= Seq::empty());
    assert(together(Seq::empty()) =~= Seq::empty());
    assert(together(seq![s]) =~= s);
}

/// However a text comes in, the messages count on: the number of the current message is
/// that of the messages that were filled before it, as long as it can be told; each of
/// them fits; and all of them with the current one hold every character that came in
/// but line breaks, in its order.
pub proof fn messages_count_on(deltas: Seq<Seq<char>>)
    ensures
        ({
            let (c, messages) = composed(deltas);
            &&& messages.len() <= u32::MAX ==> c.index == messages.len()
            &&& messages.len() > u32::MAX ==> c.index == u32::MAX
            &&& c.text.len() <= TG_CHUNK
            &&& forall|i: int| 0 <= i < messages.len() ==> (#[trigger] messages[i]).len() <= TG_CHUNK
            &&& visible(together(messages) + c.text) == visible(together(deltas))
        }),
    decreases deltas.len(),
{
    if deltas.len() == 0 {
        assert(together(deltas) =~= Seq::empty());
        assert(together(composed(deltas).1) + composed(deltas).0.text =~= Seq::empty());
    } else {
        let (b, before) = composed(deltas.drop_last());
        let delta = deltas.last();
        let all = b.text + delta;
        let (heads, rest) = filled(all);
        messages_count_on(deltas.drop_last());
        messages_fit(all);
        no_text_is_lost(all);
        let messages = before + heads;
        assert forall|i: int| 0 <= i < messages.len() implies (#[trigger] messages[i]).len()
            <= TG_CHUNK by {
            if i >= before.len() {
                assert(messages[i] == heads[i - before.len()]);
            }
        }
        let p = |c: char| c != '\n';
        let front = together(before);
        let came = together(deltas.drop_last());
        together_adds_up(before, heads);
        together_adds_up(deltas.drop_last(), seq![delta]);
        together_of_one(delta);
        assert(deltas =~= deltas.drop_last() + seq![delta]);
        assert(together(messages) + rest =~= front + (together(heads) + rest));
        Seq::filter_distributes_over_add(front, together(heads) + rest, p);
        Seq::filter_distributes_over_add(front, all, p);
        assert(front + all =~= (front + b.text) + delta);
        Seq::filter_distributes_over_add(front + b.text, delta, p);
        Seq::filter_distributes_over_add(came, delta, p);
    }
}

} // verus!
