//! What the HTML of a reply shows of its Markdown: code as it is, tables as they stand,
//! quotes, headings, items and plain lines, each block on its own.
use vstd::prelude::*;
use crate::chat::tg_html;
use crate::text;
use crate::text_laws;

verus! {

/// What HTML without tags says.
pub open spec fn unescaped(s: Seq<char>) -> Seq<char>
    decreases s.len(),
{
    if s.len() == 0 {
        Seq::empty()
    } else if s.len() >= 5 && s.take(5) == seq!['&', 'a', 'm', 'p', ';'] {
        seq!['&'] + unescaped(s.skip(5))
    } else if s.len() >= 4 && s.take(4) == seq!['&', 'l', 't', ';'] {
        seq!['<'] + unescaped(s.skip(4))
    } else if s.len() >= 4 && s.take(4) == seq!['&', 'g', 't', ';'] {
        seq!['>'] + unescaped(s.skip(4))
    } else {
        seq![s[0]] + unescaped(s.skip(1))
    }
}

/// Escaping goes on from the front as from behind.
proof fn escaped_from_front(s: Seq<char>)
    requires
        s.len() > 0,
    ensures
        tg_html::escaped(s) == tg_html::escaped_char(s[0]) + tg_html::escaped(s.skip(1)),
    decreases s.len(),
{
    if s.len() == 1 {
        assert(s.drop_last() =~= Seq::empty());
        assert(s.skip(1) =~= Seq::empty());
        assert(tg_html::escaped(s) =~= tg_html::escaped_char(s[0]) + tg_html::escaped(s.skip(1)));
    } else {
        escaped_from_front(s.drop_last());
        assert(s.drop_last().skip(1) =~= s.skip(1).drop_last());
        assert(tg_html::escaped(s) =~= tg_html::escaped_char(s[0]) + tg_html::escaped(s.skip(1)));
    }
}

/// Escaped text says what the text says, and could be taken for no tag.
pub proof fn escaped_text_says_the_same(s: Seq<char>)
    ensures
        unescaped(tg_html::escaped(s)) == s,
        forall|i: int|
            0 <= i < tg_html::escaped(s).len() ==> tg_html::escaped(s)[i] != '<'
                && tg_html::escaped(s)[i] != '>',
    decreases s.len(),
{
    let e = tg_html::escaped(s);
    assert forall|i: int| 0 <= i < e.len() implies e[i] != '<' && e[i] != '>' by {
        tg_html::escaped_text_has_no_tags(s, i);
    }
    if s.len() == 0 {
        assert(unescaped(e) =~= s);
    } else {
        escaped_from_front(s);
        let rest = tg_html::escaped(s.skip(1));
        escaped_text_says_the_same(s.skip(1));
        reveal_strlit("&amp;");
        reveal_strlit("&lt;");
        reveal_strlit("&gt;");
        let c = s[0];
        assert(seq![c] + s.skip(1) =~= s);
        if c == '&' {
            assert(e.take(5) =~= seq!['&', 'a', 'm', 'p', ';']);
            assert(e.skip(5) =~= rest);
        } else if c == '<' {
            assert(e.take(4) =~= seq!['&', 'l', 't', ';']);
            assert(e.len() >= 5 ==> e.take(5)[1] == 'l');
            assert(e.skip(4) =~= rest);
        } else if c == '>' {
            assert(e.take(4) =~= seq!['&', 'g', 't', ';']);
            assert(e.len() >= 5 ==> e.take(5)[1] == 'g');
            assert(e.take(4)[1] == 'g');
            assert(e.skip(4) =~= rest);
        } else {
            assert(e[0] == c);
            assert(e.len() >= 5 ==> e.take(5)[0] == c);
            assert(e.len() >= 4 ==> e.take(4)[0] == c);
            assert(e.skip(1) =~= rest);
        }
    }
}

/// The name of a language that holds only what may stand in one stays as it is.
pub proof fn languages_stay(s: Seq<char>)
    requires
        forall|i: int|
            0 <= i < s.len() ==> ('a' <= #[trigger] s[i] <= 'z' || 'A' <= s[i] <= 'Z' || '0' <= s[i]
                <= '9' || s[i] == '-' || s[i] == '_' || s[i] == '+'),
    ensures
        tg_html::language(s) == s,
    decreases s.len(),
{
    if s.len() > 0 {
        assert forall|i: int| 0 <= i < s.drop_last().len() implies ('a' <= #[trigger]
        s.drop_last()[i] <= 'z' || 'A' <= s.drop_last()[i] <= 'Z' || '0' <= s.drop_last()[i]
            <= '9' || s.drop_last()[i] == '-' || s.drop_last()[i] == '_' || s.drop_last()[i]
            == '+') by {
            assert(s.drop_last()[i] == s[i]);
        }
        languages_stay(s.drop_last());
        assert(s.last() == s[s.len() - 1]);
        assert(s.drop_last().push(s.last()) =~= s);
    } else {
        assert(tg_html::language(s) =~= s);
    }
}

/// Whether a line fences code.
pub open spec fn is_fence(line: Seq<char>) -> bool {
    text::begins(text::trim_start(line), seq!['`', '`', '`'])
}

/// Whether a line is a row of a table.
pub open spec fn is_row(line: Seq<char>) -> bool {
    text::begins(text::trim_start(line), seq!['|'])
}

/// Whether a line is quoted.
pub open spec fn is_quote(line: Seq<char>) -> bool {
    text::begins(text::trim_start(line), seq!['>'])
}

/// The marks of blocks.
proof fn marks()
    ensures
        "```"@ == seq!['`', '`', '`'],
        "|"@ == seq!['|'],
        ">"@ == seq!['>'],
        "\n"@ == seq!['\n'],
        " "@ == seq![' '],
{
    reveal_strlit("```");
    reveal_strlit("|");
    reveal_strlit(">");
    reveal_strlit("\n");
    reveal_strlit(" ");
    assert("```"@ =~= seq!['`', '`', '`']);
    assert("|"@ =~= seq!['|']);
    assert(">"@ =~= seq!['>']);
    assert("\n"@ =~= seq!['\n']);
    assert(" "@ =~= seq![' ']);
}

/// A line bears one mark at most.
proof fn marks_exclude_each_other(line: Seq<char>)
    ensures
        is_fence(line) ==> !is_row(line) && !is_quote(line),
        is_row(line) ==> !is_quote(line),
{
    let t = text::trim_start(line);
    if is_fence(line) {
        assert(t.take(3)[0] == t[0]);
        assert(t.len() >= 1 ==> t.take(1)[0] == t[0]);
    }
    if is_row(line) {
        assert(t.take(1)[0] == t[0]);
    }
}

/// The lines of a text: they hold no line break.
pub open spec fn are_lines(lines: Seq<Seq<char>>) -> bool {
    &&& lines.len() > 0
    &&& forall|i: int, j: int|
        0 <= i < lines.len() && 0 <= j < lines[i].len() ==> (#[trigger] lines[i][j]) != '\n'
}

/// The text that lines make up.
pub open spec fn text_of(lines: Seq<Seq<char>>) -> Seq<char> {
    text::join(lines, seq!['\n'])
}

/// Lines that are put together are taken apart again.
proof fn lines_of_text(lines: Seq<Seq<char>>)
    requires
        are_lines(lines),
    ensures
        text::split(text_of(lines), '\n') == lines,
{
    text_laws::joining_and_splitting_is_nothing(lines, '\n');
}

/// No fence is found among lines that are none.
proof fn no_fence(lines: Seq<Seq<char>>, from: int, n: int)
    requires
        0 <= from <= n <= lines.len(),
        forall|i: int| from <= i < n ==> !is_fence(#[trigger] lines[i]),
        n < lines.len() ==> is_fence(lines[n]),
    ensures
        tg_html::fence_at(lines, from) == n,
    decreases n - from,
{
    marks();
    if from < n {
        assert(!is_fence(lines[from]));
        no_fence(lines, from + 1, n);
    }
}

/// How code in a language is shown.
pub open spec fn shown_code(lang: Seq<char>, body: Seq<char>) -> Seq<char> {
    let name = tg_html::language(lang);
    if name.len() == 0 {
        "<pre>"@ + tg_html::escaped(body) + "</pre>"@
    } else {
        "<pre><code class=\"language-"@ + name + "\">"@ + tg_html::escaped(body) + "</code></pre>"@
    }
}

/// One block alone.
proof fn one_block(block: Seq<char>)
    ensures
        text::join(seq![block], "\n"@) == block,
{
}

/// Code is kept verbatim: between a line that opens a block of code and one that closes
/// it, the block shows exactly the lines, escaped and with their line breaks, whatever they
/// hold, and the code is closed behind it. Where no line closes it, the block shows the
/// same, and the code goes on in the next chunk.
pub proof fn code_is_kept_verbatim(
    first: Seq<char>,
    lang: Seq<char>,
    code: Seq<Seq<char>>,
    last: Seq<char>,
)
    requires
        are_lines(seq![first] + code + seq![last]),
        text::trim_start(first) == seq!['`', '`', '`'] + lang,
        forall|i: int| 0 <= i < code.len() ==> !is_fence(#[trigger] code[i]),
        is_fence(last),
    ensures
        ({
            let whole = text_of(seq![first] + code + seq![last]);
            let half = text_of(seq![first] + code);
            let shown = shown_code(text::trim(lang), text_of(code));
            &&& tg_html::rendered(whole, None) == shown
            &&& tg_html::left_open(whole, None) is None
            &&& tg_html::rendered(half, None) == shown
            &&& tg_html::left_open(half, None) == Some(text::trim(lang))
            &&& unescaped(tg_html::escaped(text_of(code))) == text_of(code)
        }),
{
    marks();
    escaped_text_says_the_same(text_of(code));
    let lines = seq![first] + code + seq![last];
    let n = code.len() as int;
    lines_of_text(lines);
    assert forall|i: int| 1 <= i < 1 + n implies !is_fence(#[trigger] lines[i]) by {
        assert(lines[i] == code[i - 1]);
    }
    assert(lines[1 + n] == last);
    no_fence(lines, 1, 1 + n);
    assert(lines.subrange(1, 1 + n) =~= code);
    text_laws::ends_come_off(lang, "```"@);
    assert(lines[0] == first);
    let block = tg_html::code_block(text::trim(lang), text_of(code));
    assert(tg_html::blocks(lines, 2 + n) == (Seq::<Seq<char>>::empty(), None::<Seq<char>>));
    assert(tg_html::blocks(lines, 0).0 =~= seq![block]);
    one_block(block);
    let part = seq![first] + code;
    assert forall|i: int, j: int|
        0 <= i < part.len() && 0 <= j < part[i].len() implies (#[trigger] part[i][j]) != '\n' by {
        assert(lines[i][j] != '\n');
    }
    lines_of_text(part);
    assert forall|i: int| 1 <= i < 1 + n implies !is_fence(#[trigger] part[i]) by {
        assert(part[i] == code[i - 1]);
    }
    no_fence(part, 1, 1 + n);
    assert(part.subrange(1, 1 + n) =~= code);
    assert(part[0] == first);
    assert(tg_html::blocks(part, 0).0 =~= seq![block]);
}

/// Code goes on verbatim: a chunk that begins inside code shows its lines up to the one
/// that closes the code exactly, escaped and with their line breaks, in the same language.
pub proof fn code_goes_on_verbatim(lang: Seq<char>, code: Seq<Seq<char>>, last: Seq<char>)
    requires
        are_lines(code),
        forall|j: int| 0 <= j < last.len() ==> last[j] != '\n',
        forall|i: int| 0 <= i < code.len() ==> !is_fence(#[trigger] code[i]),
        is_fence(last),
    ensures
        ({
            let whole = text_of(code.push(last));
            let half = text_of(code);
            let shown = shown_code(lang, half);
            &&& tg_html::rendered(whole, Some(lang)) == shown
            &&& tg_html::left_open(whole, Some(lang)) is None
            &&& tg_html::rendered(half, Some(lang)) == shown
            &&& tg_html::left_open(half, Some(lang)) == Some(lang)
        }),
{
    marks();
    let lines = code.push(last);
    let n = code.len() as int;
    assert forall|i: int, j: int|
        0 <= i < lines.len() && 0 <= j < lines[i].len() implies (#[trigger] lines[i][j]) != '\n' by {
        if i < n {
            assert(code[i][j] != '\n');
        }
    }
    lines_of_text(lines);
    lines_of_text(code);
    assert forall|i: int| 0 <= i < n implies !is_fence(#[trigger] lines[i]) by {
        assert(lines[i] == code[i]);
    }
    no_fence(lines, 0, n);
    no_fence(code, 0, n);
    assert(lines.subrange(0, n) =~= code);
    assert(code.subrange(0, n) =~= code);
    let block = tg_html::code_block(lang, text_of(code));
    assert(tg_html::blocks(lines, 1 + n) == (Seq::<Seq<char>>::empty(), None::<Seq<char>>));
    assert(tg_html::chunk(lines, Some(lang)).0 =~= seq![block]);
    assert(tg_html::chunk(code, Some(lang)).0 =~= seq![block]);
    one_block(block);
}

/// A row of marked lines ends where the marks do.
proof fn marks_end(lines: Seq<Seq<char>>, from: int, n: int, mark: Seq<char>)
    requires
        0 <= from <= n <= lines.len(),
        forall|i: int|
            from <= i < n ==> text::begins(text::trim_start(#[trigger] lines[i]), mark),
        n < lines.len() ==> !text::begins(text::trim_start(lines[n]), mark),
    ensures
        tg_html::run_end(lines, from, mark) == n,
    decreases n - from,
{
    if from < n {
        assert(text::begins(text::trim_start(lines[from]), mark));
        marks_end(lines, from + 1, n, mark);
    }
}

/// A table stands as it is: its rows, without white space behind them, escaped and with
/// their line breaks.
pub proof fn tables_stand_as_they_are(lines: Seq<Seq<char>>)
    requires
        are_lines(lines),
        forall|i: int| 0 <= i < lines.len() ==> is_row(#[trigger] lines[i]),
    ensures
        tg_html::rendered(text_of(lines), None) == "<pre>"@ + tg_html::escaped(
            text_of(lines.map_values(|l: Seq<char>| text::trim_end(l))),
        ) + "</pre>"@,
        tg_html::left_open(text_of(lines), None) is None,
{
    marks();
    lines_of_text(lines);
    let n = lines.len() as int;
    marks_end(lines, 0, n, "|"@);
    marks_exclude_each_other(lines[0]);
    assert(is_row(lines[0]));
    assert(lines.subrange(0, n) =~= lines);
    assert(tg_html::rows(lines) =~= lines.map_values(|l: Seq<char>| text::trim_end(l)));
    let block = "<pre>"@ + tg_html::escaped(text::join(tg_html::rows(lines), "\n"@)) + "</pre>"@;
    assert(tg_html::blocks(lines, n) == (Seq::<Seq<char>>::empty(), None::<Seq<char>>));
    assert(tg_html::blocks(lines, 0).0 =~= seq![block]);
    one_block(block);
}

/// Quoted lines stand in one quote, each without its mark and one space behind it.
pub proof fn quotes_stand_together(lines: Seq<Seq<char>>, inner: Seq<Seq<char>>)
    requires
        are_lines(lines),
        inner.len() == lines.len(),
        forall|i: int|
            0 <= i < lines.len() ==> text::trim_start(#[trigger] lines[i]) == seq!['>', ' ']
                + inner[i] || (text::trim_start(lines[i]) == seq!['>'] + inner[i] && !text::begins(
                inner[i],
                seq![' '],
            )),
    ensures
        tg_html::rendered(text_of(lines), None) == "<blockquote>"@ + text_of(
            inner.map_values(|s: Seq<char>| tg_html::inline_html(s)),
        ) + "</blockquote>"@,
        tg_html::left_open(text_of(lines), None) is None,
{
    marks();
    lines_of_text(lines);
    let n = lines.len() as int;
    assert forall|i: int| 0 <= i < n implies text::begins(
        text::trim_start(#[trigger] lines[i]),
        ">"@,
    ) && tg_html::unquoted(lines[i]) == inner[i] by {
        let t = text::trim_start(lines[i]);
        assert(t.take(1) =~= seq!['>']);
        if t == seq!['>', ' '] + inner[i] {
            assert(t.skip(1) =~= seq![' '] + inner[i]);
            text_laws::ends_come_off(inner[i], " "@);
        } else {
            assert(t.skip(1) =~= inner[i]);
        }
    }
    marks_end(lines, 0, n, ">"@);
    marks_exclude_each_other(lines[0]);
    assert(is_quote(lines[0]));
    assert(lines.subrange(0, n) =~= lines);
    let shown = inner.map_values(|s: Seq<char>| tg_html::inline_html(s));
    assert(tg_html::quotes(lines) =~= shown);
    let block = "<blockquote>"@ + text::join(tg_html::quotes(lines), "\n"@) + "</blockquote>"@;
    assert(tg_html::blocks(lines, n) == (Seq::<Seq<char>>::empty(), None::<Seq<char>>));
    assert(tg_html::blocks(lines, 0).0 =~= seq![block]);
    one_block(block);
}

/// A line of its own: a heading is bold, without marks behind it; a rule is a line of ten
/// dashes; an item keeps its indent and gets a bullet; any other line stands as it is.
pub proof fn lines_stand_alone(line: Seq<char>)
    requires
        forall|j: int| 0 <= j < line.len() ==> line[j] != '\n',
        !is_fence(line),
        !is_row(line),
        !is_quote(line),
    ensures
        ({
            let t = text::trim_start(line);
            let title = tg_html::first_group(tg_html::HEADING@, t);
            let item = tg_html::first_group(tg_html::BULLET@, t);
            let shown = tg_html::rendered(line, None);
            &&& tg_html::left_open(line, None) is None
            &&& title is Some ==> exists|bare: Seq<char>|
                {
                    &&& #[trigger] bare.is_prefix_of(title->0)
                    &&& forall|i: int| bare.len() <= i < title->0.len() ==> title->0[i] == '#'
                    &&& (bare.len() > 0 ==> bare.last() != '#')
                    &&& shown == seq!['<', 'b', '>'] + tg_html::inline_html(text::trim(bare))
                        + seq!['<', '/', 'b', '>']
                }
            &&& title is None && tg_html::matching(tg_html::RULE@, t) ==> shown == Seq::new(
                10,
                |i: int| '─',
            )
            &&& title is None && !tg_html::matching(tg_html::RULE@, t) && item is Some ==> exists|
                indent: Seq<char>,
            | line == #[trigger] (indent + t) && shown == indent + seq!['•', ' ']
                + tg_html::inline_html(item->0)
            &&& title is None && !tg_html::matching(tg_html::RULE@, t) && item is None ==> shown
                == tg_html::inline_html(line)
        }),
{
    marks();
    let lines = seq![line];
    text_laws::splitting_leaves_one(line, '\n');
    let t = text::trim_start(line);
    assert(lines[0] == line);
    let block = tg_html::line_block(line);
    assert(tg_html::blocks(lines, 1) == (Seq::<Seq<char>>::empty(), None::<Seq<char>>));
    assert(tg_html::blocks(lines, 0).0 =~= seq![block]);
    one_block(block);
    text::trim_start_is_suffix(line);
    let indent = line.take(line.len() - t.len());
    assert(line =~= indent + t);
    reveal_strlit("• ");
    reveal_strlit("<b>");
    reveal_strlit("</b>");
    reveal_strlit("──────────");
    assert("• "@ =~= seq!['•', ' ']);
    assert("<b>"@ =~= seq!['<', 'b', '>']);
    assert("</b>"@ =~= seq!['<', '/', 'b', '>']);
    assert(tg_html::RULE_LINE@ =~= Seq::new(10, |i: int| '─'));
    if let Some(title) = tg_html::first_group(tg_html::HEADING@, t) {
        marks_come_off(title);
        let bare = tg_html::without_marks(title);
        let behind = Seq::new((title.len() - bare.len()) as nat, |i: int| '#');
        assert(bare.is_prefix_of(title));
        assert forall|i: int| bare.len() <= i < title.len() implies title[i] == '#' by {
            assert((bare + behind)[i] == behind[i - bare.len()]);
        }
    }
}

/// The marks behind a heading come off.
proof fn marks_come_off(s: Seq<char>)
    ensures
        ({
            let bare = tg_html::without_marks(s);
            &&& bare.len() <= s.len()
            &&& s == bare + Seq::new((s.len() - bare.len()) as nat, |i: int| '#')
            &&& bare.len() > 0 ==> bare.last() != '#'
        }),
    decreases s.len(),
{
    let bare = tg_html::without_marks(s);
    if s.len() > 0 && s.last() == '#' {
        marks_come_off(s.drop_last());
        let n = (s.drop_last().len() - bare.len()) as nat;
        assert(s =~= s.drop_last().push('#'));
        assert(s =~= bare + Seq::new(n + 1, |i: int| '#'));
    } else {
        assert(s =~= bare + Seq::new(0, |i: int| '#'));
    }
}

/// A text without ticks holds no code.
proof fn no_ticks_no_code(s: Seq<char>, from: int)
    requires
        0 <= from,
        forall|i: int| from <= i < s.len() ==> s[i] != '`',
    ensures
        text::find(s, seq!['`'], from) is None,
{
    text::find_is_first(s, seq!['`'], from);
    if let Some(i) = text::find(s, seq!['`'], from) {
        assert(s.subrange(i, i + 1)[0] == s[i]);
    }
}

/// The first tick behind a text without ticks is found.
proof fn tick_is_found(s: Seq<char>, from: int, at: int)
    requires
        0 <= from <= at < s.len(),
        forall|i: int| from <= i < at ==> s[i] != '`',
        s[at] == '`',
    ensures
        text::find(s, seq!['`'], from) == Some(at),
{
    text::find_is_first(s, seq!['`'], from);
    assert(s.subrange(at, at + 1) =~= seq!['`']);
    assert(text::stands_at(s, seq!['`'], at));
    if let Some(i) = text::find(s, seq!['`'], from) {
        assert(s.subrange(i, i + 1)[0] == s[i]);
    }
}

/// Code within a line stands between code tags as it is, and what stands before and behind
/// it is shown as if it stood alone.
pub proof fn code_within_a_line_is_kept(a: Seq<char>, code: Seq<char>, b: Seq<char>)
    requires
        code.len() > 0,
        forall|i: int| 0 <= i < a.len() ==> a[i] != '`',
        forall|i: int| 0 <= i < code.len() ==> code[i] != '`',
    ensures
        tg_html::inline_html(a + seq!['`'] + code + seq!['`'] + b) == tg_html::inline_html(a)
            + "<code>"@ + tg_html::escaped(code) + "</code>"@ + tg_html::inline_html(b),
        tg_html::inline_html(a) == tg_html::plain_html(a),
        unescaped(tg_html::escaped(code)) == code,
{
    let s = a + seq!['`'] + code + seq!['`'] + b;
    let i = a.len() as int;
    let j = i + 1 + code.len();
    assert forall|k: int| 0 <= k < i implies s[k] != '`' by {
        assert(s[k] == a[k]);
    }
    assert forall|k: int| i + 1 <= k < j implies s[k] != '`' by {
        assert(s[k] == code[k - i - 1]);
    }
    tick_is_found(s, 0, i);
    tick_is_found(s, i + 1, j);
    assert(s.take(i) =~= a);
    assert(s.subrange(i + 1, j) =~= code);
    assert(s.skip(j + 1) =~= b);
    no_ticks_no_code(a, 0);
    escaped_text_says_the_same(code);
}

/// Half a mark of code stays as it is: a text with one tick holds no code.
pub proof fn half_a_tick_stays(a: Seq<char>, b: Seq<char>)
    requires
        forall|i: int| 0 <= i < a.len() ==> a[i] != '`',
        forall|i: int| 0 <= i < b.len() ==> b[i] != '`',
    ensures
        tg_html::inline_html(a + seq!['`'] + b) == tg_html::plain_html(a + seq!['`'] + b),
{
    let s = a + seq!['`'] + b;
    let i = a.len() as int;
    tick_is_found(s, 0, i);
    assert forall|k: int| i + 1 <= k < s.len() implies s[k] != '`' by {
        assert(s[k] == b[k - i - 1]);
    }
    no_ticks_no_code(s, i + 1);
}

/// Text without code is escaped before anything else; then links, bold, struck and slanted
/// text get their tags, in this order, each over what the one before gave.
pub proof fn formats_follow_one_another(s: Seq<char>)
    ensures
        ({
            let escaped = tg_html::escaped(s);
            let linked = tg_html::replacing(tg_html::LINK@, escaped, tg_html::LINK_HTML@);
            let starred = tg_html::replacing(tg_html::BOLD_STAR@, linked->0, tg_html::BOLD_HTML@);
            let under = tg_html::replacing(tg_html::BOLD_UNDER@, starred->0, tg_html::BOLD_HTML@);
            let struck = tg_html::replacing(tg_html::STRIKE@, under->0, tg_html::STRIKE_HTML@);
            let slanted = tg_html::replacing(tg_html::ITALIC@, struck->0, tg_html::ITALIC_HTML@);
            linked is Some && starred is Some && under is Some && struck is Some && slanted is Some
                ==> tg_html::plain_html(s) == slanted->0
        }),
{
}

/// Fences behind a front part.
proof fn fence_behind(a: Seq<Seq<char>>, b: Seq<Seq<char>>, j: int)
    requires
        0 <= j <= b.len(),
    ensures
        tg_html::fence_at(a + b, a.len() + j) == a.len() + tg_html::fence_at(b, j),
    decreases b.len() - j,
{
    if j < b.len() {
        assert((a + b)[a.len() + j] == b[j]);
        if !text::begins(text::trim_start(b[j]), "```"@) {
            fence_behind(a, b, j + 1);
        }
    }
}

/// Marked lines behind a front part.
proof fn run_behind(a: Seq<Seq<char>>, b: Seq<Seq<char>>, j: int, mark: Seq<char>)
    requires
        0 <= j <= b.len(),
    ensures
        tg_html::run_end(a + b, a.len() + j, mark) == a.len() + tg_html::run_end(b, j, mark),
    decreases b.len() - j,
{
    if j < b.len() {
        assert((a + b)[a.len() + j] == b[j]);
        if text::begins(text::trim_start(b[j]), mark) {
            run_behind(a, b, j + 1, mark);
        }
    }
}

/// Blocks behind a front part.
proof fn blocks_behind(a: Seq<Seq<char>>, b: Seq<Seq<char>>, j: int)
    requires
        0 <= j <= b.len(),
    ensures
        tg_html::blocks(a + b, a.len() + j) == tg_html::blocks(b, j),
    decreases b.len() - j,
{
    if j < b.len() {
        let all = a + b;
        let n = a.len() as int;
        assert(all[n + j] == b[j]);
        tg_html::fence_is_later(b, j + 1);
        tg_html::run_is_later(b, j, "|"@);
        tg_html::run_is_later(b, j, ">"@);
        fence_behind(a, b, j + 1);
        run_behind(a, b, j, "|"@);
        run_behind(a, b, j, ">"@);
        let f = tg_html::fence_at(b, j + 1);
        let r = tg_html::run_end(b, j, "|"@);
        let q = tg_html::run_end(b, j, ">"@);
        assert(all.subrange(n + j + 1, n + f) =~= b.subrange(j + 1, f));
        assert(all.subrange(n + j, n + r) =~= b.subrange(j, r));
        assert(all.subrange(n + j, n + q) =~= b.subrange(j, q));
        let start = text::trim_start(b[j]);
        match text::without_prefix(start, "```"@) {
            Some(_) => {
                blocks_behind(a, b, tg_html::after_fence(b, j + 1));
            },
            None => {
                if text::begins(start, "|"@) {
                    blocks_behind(a, b, r);
                } else if text::begins(start, ">"@) {
                    blocks_behind(a, b, q);
                } else {
                    blocks_behind(a, b, j + 1);
                }
            },
        }
    }
}

/// Fences in a front part.
proof fn fence_in_front(a: Seq<Seq<char>>, b: Seq<Seq<char>>, i: int)
    requires
        0 <= i <= a.len(),
        tg_html::fence_at(a, i) < a.len(),
    ensures
        tg_html::fence_at(a + b, i) == tg_html::fence_at(a, i),
    decreases a.len() - i,
{
    if i < a.len() {
        assert((a + b)[i] == a[i]);
        if !text::begins(text::trim_start(a[i]), "```"@) {
            fence_in_front(a, b, i + 1);
        }
    }
}

/// Whether the marked lines of a text go on in the next.
pub open spec fn runs_on(a: Seq<Seq<char>>, b: Seq<Seq<char>>, mark: Seq<char>) -> bool {
    a.len() > 0 && b.len() > 0 && text::begins(text::trim_start(a.last()), mark) && text::begins(
        text::trim_start(b[0]),
        mark,
    )
}

/// Marked lines in a front part.
proof fn run_in_front(a: Seq<Seq<char>>, b: Seq<Seq<char>>, i: int, mark: Seq<char>)
    requires
        0 <= i < a.len(),
        !runs_on(a, b, mark),
    ensures
        tg_html::run_end(a + b, i, mark) == tg_html::run_end(a, i, mark),
    decreases a.len() - i,
{
    assert((a + b)[i] == a[i]);
    if text::begins(text::trim_start(a[i]), mark) {
        if i + 1 < a.len() {
            run_in_front(a, b, i + 1, mark);
        } else {
            assert(a.last() == a[i]);
            if b.len() > 0 {
                assert((a + b)[i + 1] == b[0]);
            }
            assert(tg_html::run_end(a + b, i + 1, mark) == i + 1);
            assert(tg_html::run_end(a, i + 1, mark) == i + 1);
        }
    }
}

/// The blocks of a front part that leaves nothing open, and those behind it.
proof fn blocks_in_front(a: Seq<Seq<char>>, b: Seq<Seq<char>>, i: int)
    requires
        0 <= i <= a.len(),
        tg_html::blocks(a, i).1 is None,
        !runs_on(a, b, "|"@),
        !runs_on(a, b, ">"@),
    ensures
        tg_html::blocks(a + b, i).0 == tg_html::blocks(a, i).0 + tg_html::blocks(b, 0).0,
        tg_html::blocks(a + b, i).1 == tg_html::blocks(b, 0).1,
    decreases a.len() - i,
{
    let all = a + b;
    blocks_behind(a, b, 0);
    if i == a.len() {
        assert(tg_html::blocks(a, i).0 + tg_html::blocks(b, 0).0 =~= tg_html::blocks(b, 0).0);
    } else {
        assert(all[i] == a[i]);
        tg_html::fence_is_later(a, i + 1);
        tg_html::run_is_later(a, i, "|"@);
        tg_html::run_is_later(a, i, ">"@);
        run_in_front(a, b, i, "|"@);
        run_in_front(a, b, i, ">"@);
        let f = tg_html::fence_at(a, i + 1);
        let r = tg_html::run_end(a, i, "|"@);
        let q = tg_html::run_end(a, i, ">"@);
        assert(all.subrange(i + 1, f) =~= a.subrange(i + 1, f));
        assert(all.subrange(i, r) =~= a.subrange(i, r));
        assert(all.subrange(i, q) =~= a.subrange(i, q));
        let start = text::trim_start(a[i]);
        match text::without_prefix(start, "```"@) {
            Some(_) => {
                fence_in_front(a, b, i + 1);
                blocks_in_front(a, b, tg_html::after_fence(a, i + 1));
            },
            None => {
                if text::begins(start, "|"@) {
                    blocks_in_front(a, b, r);
                } else if text::begins(start, ">"@) {
                    blocks_in_front(a, b, q);
                } else {
                    blocks_in_front(a, b, i + 1);
                }
            },
        }
        assert(tg_html::blocks(all, i).0 =~= tg_html::blocks(a, i).0 + tg_html::blocks(b, 0).0);
    }
}

/// Blocks stand apart: a text that leaves no code open and the text behind it are shown
/// as each would be alone, one after the other, unless a table or a quote goes on from the
/// one into the other.
pub proof fn blocks_stand_apart(a: Seq<char>, b: Seq<char>, open: Option<Seq<char>>)
    requires
        tg_html::left_open(a, open) is None,
        !runs_on(text::split(a, '\n'), text::split(b, '\n'), seq!['|']),
        !runs_on(text::split(a, '\n'), text::split(b, '\n'), seq!['>']),
    ensures
        ({
            let both = a + seq!['\n'] + b;
            &&& tg_html::rendered(both, open) == tg_html::rendered(a, open) + seq!['\n']
                + tg_html::rendered(b, None)
            &&& tg_html::left_open(both, open) == tg_html::left_open(b, None)
        }),
{
    marks();
    let la = text::split(a, '\n');
    let lb = text::split(b, '\n');
    text::split_is_nonempty(a, '\n');
    text::split_is_nonempty(b, '\n');
    text_laws::splitting_adds_up(a, '\n', b);
    assert(a.push('\n') + b =~= a + seq!['\n'] + b);
    let all = la + lb;
    match open {
        Some(lang) => {
            tg_html::fence_is_later(la, 0);
            let f = tg_html::fence_at(la, 0);
            assert(f < la.len());
            fence_in_front(la, lb, 0);
            assert(all.subrange(0, f) =~= la.subrange(0, f));
            blocks_in_front(la, lb, f + 1);
            assert(tg_html::chunk(all, open).0 =~= tg_html::chunk(la, open).0 + tg_html::chunk(
                lb,
                None,
            ).0);
        },
        None => {
            blocks_in_front(la, lb, 0);
        },
    }
    text_laws::joining_adds_up(
        tg_html::chunk(la, open).0,
        tg_html::chunk(lb, None).0,
        seq!['\n'],
    );
}

/// What is read as a heading, a rule, an item, a link, or bold, struck or slanted text, and
/// what it becomes.
pub proof fn marks_are_read_by_these_patterns()
    ensures
        tg_html::HEADING@ == r"^#{1,6}\s+(.*)$"@,
        tg_html::RULE@ == r"^(-{3,}|\*{3,}|_{3,})\s*$"@,
        tg_html::BULLET@ == r"^[-*+]\s+(.*)$"@,
        tg_html::LINK@ == r"\[([^\]\n]+)\]\((https?://[^\s)]+)\)"@,
        tg_html::LINK_HTML@ == "<a href=\"$2\">$1</a>"@,
        tg_html::BOLD_STAR@ == r"\*\*([^*\n]+?)\*\*"@,
        tg_html::BOLD_UNDER@ == r"__([^_\n]+?)__"@,
        tg_html::BOLD_HTML@ == "<b>$1</b>"@,
        tg_html::STRIKE@ == r"~~([^~\n]+?)~~"@,
        tg_html::STRIKE_HTML@ == "<s>$1</s>"@,
        tg_html::ITALIC@ == r"(^|[\s(（:：])\*([^*\s](?:[^*\n]*[^*\s])?)\*"@,
        tg_html::ITALIC_HTML@ == "$1<i>$2</i>"@,
{
}

} // verus!
