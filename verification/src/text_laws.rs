//! What the operations on texts promise, in terms of the texts that go in and come out.
use vstd::prelude::*;
use crate::text;

verus! {

/// A text that is split and joined again by the same character is the text itself, and
/// no piece holds that character.
pub proof fn splitting_and_joining_is_nothing(s: Seq<char>, c: char)
    ensures
        text::split(s, c).len() >= 1,
        text::join(text::split(s, c), seq![c]) == s,
        forall|i: int, j: int|
            0 <= i < text::split(s, c).len() && 0 <= j < text::split(s, c)[i].len() ==> (
            #[trigger] text::split(s, c)[i][j]) != c,
    decreases s.len(),
{
    let parts = text::split(s, c);
    if s.len() == 0 {
        assert(parts =~= seq![Seq::empty()]);
        assert(text::join(parts, seq![c]) =~= s);
    } else {
        let front = text::split(s.drop_last(), c);
        splitting_and_joining_is_nothing(s.drop_last(), c);
        assert(s.drop_last().push(s.last()) =~= s);
        if s.last() == c {
            assert(parts.drop_last() =~= front);
            assert(text::join(parts, seq![c]) =~= s);
        } else {
            assert(parts.drop_last() =~= front.drop_last());
            assert(text::join(parts, seq![c]) =~= s);
            assert forall|i: int, j: int|
                0 <= i < parts.len() && 0 <= j < parts[i].len() implies (
            #[trigger] parts[i][j]) != c by {
                if i < front.len() - 1 {
                    assert(parts[i] == front[i]);
                    assert(front[i][j] != c);
                } else if j < front.last().len() {
                    assert(front[front.len() - 1][j] != c);
                }
            }
        }
    }
}

/// The pieces of two texts around a separator are those of the one and those of the other.
pub proof fn splitting_adds_up(a: Seq<char>, c: char, b: Seq<char>)
    ensures
        text::split(a.push(c) + b, c) == text::split(a, c) + text::split(b, c),
    decreases b.len(),
{
    let s = a.push(c) + b;
    if b.len() == 0 {
        assert(s =~= a.push(c));
        assert(s.drop_last() =~= a);
        assert(text::split(b, c) =~= seq![Seq::empty()]);
        assert(text::split(s, c) =~= text::split(a, c) + text::split(b, c));
    } else {
        assert(s.drop_last() =~= a.push(c) + b.drop_last());
        splitting_adds_up(a, c, b.drop_last());
        text::split_is_nonempty(b.drop_last(), c);
        assert(text::split(s, c) =~= text::split(a, c) + text::split(b, c));
    }
}

/// A text without the separator is one piece.
pub proof fn splitting_leaves_one(s: Seq<char>, c: char)
    requires
        forall|i: int| 0 <= i < s.len() ==> s[i] != c,
    ensures
        text::split(s, c) == seq![s],
    decreases s.len(),
{
    if s.len() > 0 {
        splitting_leaves_one(s.drop_last(), c);
        assert(s.drop_last().push(s.last()) =~= s);
        assert(text::split(s, c) =~= seq![s]);
    } else {
        assert(s =~= Seq::empty());
        assert(text::split(s, c) =~= seq![s]);
    }
}

/// Texts without the separator that are joined by it are split into themselves.
pub proof fn joining_and_splitting_is_nothing(parts: Seq<Seq<char>>, c: char)
    requires
        parts.len() > 0,
        forall|i: int, j: int|
            0 <= i < parts.len() && 0 <= j < parts[i].len() ==> (#[trigger] parts[i][j]) != c,
    ensures
        text::split(text::join(parts, seq![c]), c) == parts,
    decreases parts.len(),
{
    let last = parts.last();
    assert forall|j: int| 0 <= j < last.len() implies last[j] != c by {
        assert(parts[parts.len() - 1][j] != c);
    }
    splitting_leaves_one(last, c);
    if parts.len() == 1 {
        assert(parts =~= seq![last]);
    } else {
        let front = parts.drop_last();
        assert forall|i: int, j: int|
            0 <= i < front.len() && 0 <= j < front[i].len() implies (#[trigger] front[i][j]) != c by {
            assert(parts[i][j] != c);
        }
        joining_and_splitting_is_nothing(front, c);
        let a = text::join(front, seq![c]);
        splitting_adds_up(a, c, last);
        assert(a.push(c) + last =~= text::join(parts, seq![c]));
        assert(front + seq![last] =~= parts);
    }
}

/// Joining lists: nothing for no texts, a text alone as it is, and two lists with one
/// separator between them.
pub proof fn joining_adds_up(a: Seq<Seq<char>>, b: Seq<Seq<char>>, sep: Seq<char>)
    ensures
        a.len() == 0 ==> text::join(a, sep).len() == 0,
        a.len() == 1 ==> text::join(a, sep) == a[0],
        a.len() > 0 && b.len() > 0 ==> text::join(a + b, sep) == text::join(a, sep) + sep
            + text::join(b, sep),
    decreases b.len(),
{
    if a.len() > 0 && b.len() > 0 {
        let all = a + b;
        assert(all.last() == b.last());
        assert(all.drop_last() =~= a + b.drop_last());
        if b.len() == 1 {
            assert(a + b.drop_last() =~= a);
        } else {
            joining_adds_up(a, b.drop_last(), sep);
            assert(text::join(all, sep) =~= text::join(a, sep) + sep + text::join(b, sep));
        }
    }
}

/// Trimming takes white space away at both ends, all of it there, and nothing else.
pub proof fn trimming_takes_white_space_only(s: Seq<char>)
    ensures
        exists|a: Seq<char>, b: Seq<char>|
            {
                &&& s == #[trigger] (a + text::trim(s) + b)
                &&& forall|i: int| 0 <= i < a.len() ==> text::white(a[i])
                &&& forall|i: int| 0 <= i < b.len() ==> text::white(b[i])
            },
        text::trim(s).len() > 0 ==> !text::white(text::trim(s)[0]) && !text::white(
            text::trim(s).last(),
        ),
{
    let t = text::trim_start(s);
    front_is_white(s);
    back_is_white(t);
    text::trimmed_is_tight(s);
    let a = s.take(s.len() - t.len());
    let b = t.skip(text::trim(s).len() as int);
    assert(s =~= a + text::trim(s) + b);
}

/// What is trimmed in front is white space.
proof fn front_is_white(s: Seq<char>)
    ensures
        text::trim_start(s).len() <= s.len(),
        text::trim_start(s) == s.skip(s.len() - text::trim_start(s).len()),
        forall|i: int| 0 <= i < s.len() - text::trim_start(s).len() ==> text::white(s[i]),
    decreases s.len(),
{
    text::trim_start_is_suffix(s);
    if s.len() > 0 && text::white(s[0]) {
        let rest = s.skip(1);
        front_is_white(rest);
        assert forall|i: int| 0 <= i < s.len() - text::trim_start(s).len() implies text::white(
            s[i],
        ) by {
            if i > 0 {
                assert(rest[i - 1] == s[i]);
            }
        }
    }
}

/// What is trimmed behind is white space.
proof fn back_is_white(s: Seq<char>)
    ensures
        text::trim_end(s).len() <= s.len(),
        text::trim_end(s) == s.take(text::trim_end(s).len() as int),
        forall|i: int| text::trim_end(s).len() <= i < s.len() ==> text::white(s[i]),
    decreases s.len(),
{
    if s.len() > 0 && text::white(s.last()) {
        back_is_white(s.drop_last());
        let n = text::trim_end(s).len() as int;
        assert(s.drop_last().take(n) =~= s.take(n));
        assert forall|i: int| n <= i < s.len() implies text::white(s[i]) by {
            if i < s.len() - 1 {
                assert(s.drop_last()[i] == s[i]);
            }
        }
    } else {
        assert(s.take(s.len() as int) =~= s);
    }
}

/// Small letters: as many characters as before, capitals of ASCII become the small letter
/// at their place in the alphabet, and all else stays.
pub proof fn lowering_changes_capitals_only(s: Seq<char>, i: int)
    requires
        0 <= i < s.len(),
    ensures
        text::lower(s).len() == s.len(),
        'A' <= s[i] <= 'Z' ==> text::lower(s)[i] as int == s[i] as int - 'A' as int + 'a' as int,
        !('A' <= s[i] <= 'Z') ==> text::lower(s)[i] == s[i],
        text::lower(text::lower(s)) == text::lower(s),
{
    assert(text::lower(text::lower(s)) =~= text::lower(s));
}

/// A text is contained where it stands between two others, and only there.
pub proof fn containing_is_standing_inside(s: Seq<char>, p: Seq<char>)
    ensures
        text::contains(s, p) <==> exists|a: Seq<char>, b: Seq<char>| s == #[trigger] (a + p + b),
{
    if text::contains(s, p) {
        let i = choose|i: int| text::stands_at(s, p, i);
        assert(s =~= s.take(i) + p + s.skip(i + p.len()));
    }
    if exists|a: Seq<char>, b: Seq<char>| s == #[trigger] (a + p + b) {
        let (a, b) = choose|a: Seq<char>, b: Seq<char>| s == #[trigger] (a + p + b);
        let i = a.len() as int;
        assert(s.subrange(i, i + p.len()) =~= p);
        assert(text::stands_at(s, p, i));
    }
}

/// A prefix and what stands behind it make up the text; so do a front and its suffix.
pub proof fn ends_come_off(s: Seq<char>, p: Seq<char>)
    ensures
        text::without_prefix(p + s, p) == Some(s),
        text::without_suffix(s + p, p) == Some(s),
        text::without_prefix(s, p) is Some ==> s == p + text::without_prefix(s, p)->0,
        text::without_suffix(s, p) is Some ==> s == text::without_suffix(s, p)->0 + p,
{
    assert((p + s).take(p.len() as int) =~= p);
    assert((p + s).skip(p.len() as int) =~= s);
    assert((s + p).skip(s.len() as int) =~= p);
    assert((s + p).take(s.len() as int) =~= s);
    if text::without_prefix(s, p) is Some {
        assert(s =~= p + text::without_prefix(s, p)->0);
    }
    if text::without_suffix(s, p) is Some {
        assert(s =~= text::without_suffix(s, p)->0 + p);
    }
}

/// A text that is cut at a mark is what stands before the mark, the mark, and what stands
/// behind it; the mark does not occur earlier. One without the mark is not cut.
pub proof fn cutting_takes_the_mark_out(s: Seq<char>, p: Seq<char>)
    ensures
        text::cut(s, p) is Some <==> text::contains(s, p),
        text::cut(s, p) matches Some((a, b)) ==> s == a + p + b && (p.len() > 0 ==> forall|i: int|
            0 <= i < a.len() ==> !(#[trigger] text::stands_at(s, p, i))),
{
    text::find_is_first(s, p, 0);
    if text::contains(s, p) {
        let i = choose|i: int| text::stands_at(s, p, i);
        assert(text::stands_at(s, p, i));
    }
    if let Some((a, b)) = text::cut(s, p) {
        let i = text::find(s, p, 0)->0;
        assert(text::stands_at(s, p, i));
        assert(s =~= a + p + b);
    }
}

/// The numeral of a number spells it, and begins with no zero unless it is zero.
pub proof fn numerals_spell_their_number(n: nat)
    ensures
        text::value(text::dec(n)) == n,
        text::all_digits(text::dec(n)),
        text::dec(n).len() > 0,
        n > 0 ==> text::dec(n)[0] != '0',
    decreases n,
{
    if n < 10 {
        let s = text::dec(n);
        assert(s.drop_last() =~= Seq::empty());
        assert(text::value(s.drop_last()) == 0);
    } else {
        numerals_spell_their_number(n / 10);
        let s = text::dec(n);
        assert(s.drop_last() =~= text::dec(n / 10));
        assert forall|i: int| 0 <= i < s.len() implies '0' <= #[trigger] s[i] <= '9' by {
            if i < s.len() - 1 {
                assert(text::dec(n / 10)[i] == s[i]);
            }
        }
        assert(s[0] == text::dec(n / 10)[0]);
    }
}

/// A numeral is read as the number that it spells, with or without a plus sign.
pub proof fn numerals_are_read_back(n: u64)
    ensures
        text::number(text::dec(n as nat)) == Some(n),
        text::number(seq!['+'] + text::dec(n as nat)) == Some(n),
{
    let s = text::dec(n as nat);
    numerals_spell_their_number(n as nat);
    assert('0' <= s[0] <= '9');
    assert((seq!['+'] + s).skip(1) =~= s);
}

/// The words of two texts with white space between are those of the one and those of the
/// other.
pub proof fn words_add_up(a: Seq<char>, c: char, b: Seq<char>)
    requires
        text::white(c),
    ensures
        text::words(a.push(c) + b) == text::words(a) + text::words(b),
    decreases b.len(),
{
    let s = a.push(c) + b;
    if b.len() == 0 {
        assert(s =~= a.push(c));
        assert(s.drop_last() =~= a);
        assert(text::words(s) =~= text::words(a) + text::words(b));
    } else {
        let front = b.drop_last();
        words_add_up(a, c, front);
        assert(s.drop_last() =~= a.push(c) + front);
        assert(s.last() == b.last());
        if !text::white(b.last()) {
            if b.len() > 1 {
                assert(s[s.len() - 2] == b[b.len() - 2]);
            } else {
                assert(s[s.len() - 2] == c);
            }
            if b.len() > 1 && !text::white(b[b.len() - 2]) {
                words_of_a_word(front);
            }
        }
        assert(text::words(s) =~= text::words(a) + text::words(b));
    }
}

/// A text that ends in a word holds one.
proof fn words_of_a_word(s: Seq<char>)
    requires
        s.len() > 0,
        !text::white(s.last()),
    ensures
        text::words(s).len() > 0,
    decreases s.len(),
{
    if s.len() > 1 && !text::white(s[s.len() - 2]) {
        words_of_a_word(s.drop_last());
    }
}

/// A text without white space is one word.
pub proof fn words_are_words(s: Seq<char>)
    requires
        s.len() > 0,
        forall|i: int| 0 <= i < s.len() ==> !text::white(#[trigger] s[i]),
    ensures
        text::words(s) == seq![s],
    decreases s.len(),
{
    let front = s.drop_last();
    assert(!text::white(s[s.len() - 1]));
    if s.len() == 1 {
        assert(text::words(front) =~= Seq::empty());
        assert(seq![s.last()] =~= s);
        assert(text::words(s) =~= seq![s]);
    } else {
        assert(!text::white(s[s.len() - 2]));
        assert forall|i: int| 0 <= i < front.len() implies !text::white(#[trigger] front[i]) by {
            assert(front[i] == s[i]);
        }
        words_are_words(front);
        assert(front.push(s.last()) =~= s);
        assert(text::words(s) =~= seq![s]);
    }
}

/// A line ends at its line break, and a carriage return in front of the break is no part of
/// it; the last line needs no break, and keeps a carriage return.
pub proof fn lines_end_at_their_breaks(a: Seq<char>, b: Seq<char>)
    requires
        forall|i: int| 0 <= i < a.len() ==> a[i] != '\n',
    ensures
        text::lines(Seq::empty()).len() == 0,
        a.len() > 0 ==> text::lines(a) == seq![a],
        text::lines(a.push('\n') + b) == seq![
            if a.len() > 0 && a.last() == '\r' {
                a.drop_last()
            } else {
                a
            },
        ] + text::lines(b),
{
    let none = Seq::<char>::empty();
    splitting_leaves_one(none, '\n');
    splitting_leaves_one(a, '\n');
    splitting_adds_up(a, '\n', b);
    text::split_is_nonempty(b, '\n');
    let f = |p: Seq<char>| text::without_cr(p);
    let pieces = text::split(b, '\n');
    let all = text::split(a.push('\n') + b, '\n');
    assert(all =~= seq![a] + pieces);
    assert(all.last() == pieces.last());
    assert(all.drop_last() =~= seq![a] + pieces.drop_last());
    assert(all.drop_last().map_values(f) =~= seq![text::without_cr(a)]
        + pieces.drop_last().map_values(f));
    assert(seq![a].drop_last() =~= Seq::<Seq<char>>::empty());
    assert(seq![a].drop_last().map_values(f) =~= Seq::<Seq<char>>::empty());
    assert(seq![none].drop_last().map_values(f) =~= Seq::<Seq<char>>::empty());
    assert(text::lines(a.push('\n') + b) =~= seq![text::without_cr(a)] + text::lines(b));
    if a.len() > 0 {
        assert(text::lines(a) =~= seq![a]);
    }
}

/// The twenty-five characters that are white space.
pub proof fn these_characters_are_white(c: char)
    ensures
        text::white(c) <==> {
            let n = c as u32;
            9 <= n <= 13 || n == 32 || n == 133 || n == 160 || n == 5760 || 8192 <= n <= 8202 || n
                == 8232 || n == 8233 || n == 8239 || n == 8287 || n == 12288
        },
{
}

} // verus!
