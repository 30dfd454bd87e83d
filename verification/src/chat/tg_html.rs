//! Replies in Markdown as HTML that Telegram shows.
//!
//! Telegram knows a handful of tags only, and every other text has to be escaped.
//! Formats are given to marks that come in pairs; half a mark stays as it is, and
//! a code block that is not closed is closed, so that half a reply is valid too.
use vstd::prelude::*;
use crate::text;

verus! {

pub const HEADING: &'static str = r"^#{1,6}\s+(.*)$";

pub const RULE: &'static str = r"^(-{3,}|\*{3,}|_{3,})\s*$";

pub const BULLET: &'static str = r"^[-*+]\s+(.*)$";

pub const LINK: &'static str = r"\[([^\]\n]+)\]\((https?://[^\s)]+)\)";

pub const LINK_HTML: &'static str = "<a href=\"$2\">$1</a>";

pub const BOLD_STAR: &'static str = r"\*\*([^*\n]+?)\*\*";

pub const BOLD_UNDER: &'static str = r"__([^_\n]+?)__";

pub const BOLD_HTML: &'static str = "<b>$1</b>";

pub const STRIKE: &'static str = r"~~([^~\n]+?)~~";

pub const STRIKE_HTML: &'static str = "<s>$1</s>";

pub const ITALIC: &'static str = r"(^|[\s(（:：])\*([^*\s](?:[^*\n]*[^*\s])?)\*";

pub const ITALIC_HTML: &'static str = "$1<i>$2</i>";

/// A line of a rule.
pub const RULE_LINE: &'static str = "──────────";

/// What the first group of a pattern stands for in a text; nothing where the
/// pattern is no pattern, does not match or has no such group.
pub uninterp spec fn first_group(pattern: Seq<char>, s: Seq<char>) -> Option<Seq<char>>;

/// Whether a pattern matches somewhere in a text; not where it is no pattern.
pub uninterp spec fn matching(pattern: Seq<char>, s: Seq<char>) -> bool;

/// A text in which every match of a pattern is replaced; nothing where the pattern
/// is no pattern.
pub uninterp spec fn replacing(pattern: Seq<char>, s: Seq<char>, with: Seq<char>) -> Option<
    Seq<char>,
>;

/// `regex::Regex::captures`: what the first group of the leftmost match holds. The
/// result, which the pattern and the text decide, is named `first_group`.
#[verifier::external_body]
fn capture(pattern: &str, s: &str) -> (r: Option<String>)
    ensures
        r.deep_view() == first_group(pattern@, s@),
{
    let re = regex::Regex::new(pattern).ok()?;
    let caps = re.captures(s)?;
    caps.get(1).map(|m| m.as_str().to_string())
}

/// `regex::Regex::is_match`: whether a pattern matches somewhere in a text. The
/// answer, which the pattern and the text decide, is named `matching`.
#[verifier::external_body]
fn is_match(pattern: &str, s: &str) -> (r: bool)
    ensures
        r == matching(pattern@, s@),
{
    regex::Regex::new(pattern).is_ok_and(|re| re.is_match(s))
}

/// `regex::Regex::replace_all`: a text in which every match of a pattern is
/// replaced. The result, which the arguments decide, is named `replacing`. A text in
/// which the pattern does not match is returned unchanged.
#[verifier::external_body]
fn replace_all(pattern: &str, s: &str, with: &str) -> (r: Option<String>)
    ensures
        r.deep_view() == replacing(pattern@, s@, with@),
        !matching(pattern@, s@) && r is Some ==> r->0@ == s@,
{
    let re = regex::Regex::new(pattern).ok()?;
    Some(re.replace_all(s, with).into_owned())
}

/// How a character is written in HTML.
pub open spec fn escaped_char(c: char) -> Seq<char> {
    if c == '&' {
        "&amp;"@
    } else if c == '<' {
        "&lt;"@
    } else if c == '>' {
        "&gt;"@
    } else {
        seq![c]
    }
}

/// How a text is written in HTML.
pub open spec fn escaped(s: Seq<char>) -> Seq<char>
    decreases s.len(),
{
    if s.len() == 0 {
        Seq::empty()
    } else {
        escaped(s.drop_last()) + escaped_char(s.last())
    }
}

/// Writes a text for HTML.
pub fn escape(s: &str) -> (r: String)
    ensures
        r@ == escaped(s@),
{
    let v = text::chars(s);
    let ghost all = s@;
    let mut out = String::new();
    for i in 0..v.len()
        invariant
            v@ == all,
            out@ == escaped(all.take(i as int)),
    {
        assert(all.take(i + 1).drop_last() =~= all.take(i as int));
        assert(all.take(i + 1).last() == all[i as int]);
        let c = v[i];
        if c == '&' {
            out.push_str("&amp;");
        } else if c == '<' {
            out.push_str("&lt;");
        } else if c == '>' {
            out.push_str("&gt;");
        } else {
            let ghost before = out@;
            out.push(c);
            assert(out@ =~= before + seq![c]);
        }
    }
    assert(all.take(all.len() as int) =~= all);
    out
}

/// A text with every match of a pattern replaced; the text itself where the pattern
/// is no pattern.
pub open spec fn replaced(pattern: Seq<char>, s: Seq<char>, with: Seq<char>) -> Seq<char> {
    match replacing(pattern, s, with) {
        Some(t) => t,
        None => s,
    }
}

/// A text with every match of a pattern replaced.
fn substitute(pattern: &str, s: String, with: &str) -> (r: String)
    ensures
        r@ == replaced(pattern@, s@, with@),
        !matching(pattern@, s@) ==> r@ == s@,
{
    match replace_all(pattern, s.as_str(), with) {
        Some(t) => t,
        None => s,
    }
}

/// A text without code as HTML: escaped, with links, bold, struck and slanted text.
pub open spec fn plain_html(s: Seq<char>) -> Seq<char> {
    let s = replaced(LINK@, escaped(s), LINK_HTML@);
    let s = replaced(BOLD_STAR@, s, BOLD_HTML@);
    let s = replaced(BOLD_UNDER@, s, BOLD_HTML@);
    let s = replaced(STRIKE@, s, STRIKE_HTML@);
    replaced(ITALIC@, s, ITALIC_HTML@)
}

/// Whether a text holds no link and no marks in pairs.
pub open spec fn unmarked(s: Seq<char>) -> bool {
    &&& !matching(LINK@, escaped(s))
    &&& !matching(BOLD_STAR@, escaped(s))
    &&& !matching(BOLD_UNDER@, escaped(s))
    &&& !matching(STRIKE@, escaped(s))
    &&& !matching(ITALIC@, escaped(s))
}

/// A text without code as HTML. What holds no link and no marks in pairs is only
/// escaped: half a mark stays as it is.
pub fn inline_plain(s: &str) -> (r: String)
    ensures
        r@ == plain_html(s@),
        unmarked(s@) ==> r@ == escaped(s@),
{
    let s = substitute(LINK, escape(s), LINK_HTML);
    let s = substitute(BOLD_STAR, s, BOLD_HTML);
    let s = substitute(BOLD_UNDER, s, BOLD_HTML);
    let s = substitute(STRIKE, s, STRIKE_HTML);
    substitute(ITALIC, s, ITALIC_HTML)
}

/// Where the first code of a text stands: its two ticks. There is none where the
/// first tick has no partner or the two enclose nothing.
pub open spec fn code_at(s: Seq<char>) -> Option<(int, int)> {
    match text::find(s, seq!['`'], 0) {
        Some(a) => match text::find(s, seq!['`'], a + 1) {
            Some(b) => if b > a + 1 {
                Some((a, b))
            } else {
                None
            },
            None => None,
        },
        None => None,
    }
}

/// A text as HTML: its code in code tags, and what stands around it.
pub open spec fn inline_html(s: Seq<char>) -> Seq<char>
    decreases s.len(),
{
    match code_at(s) {
        Some((a, b)) => if 0 <= a < b < s.len() {
            plain_html(s.take(a)) + "<code>"@ + escaped(s.subrange(a + 1, b)) + "</code>"@
                + inline_html(s.skip(b + 1))
        } else {
            plain_html(s)
        },
        None => plain_html(s),
    }
}

/// Finding goes on in the rest of a text as in the text itself.
proof fn find_in_rest(s: Seq<char>, p: Seq<char>, n: int, from: int)
    requires
        0 <= n <= s.len(),
        0 <= from,
        p.len() == 1,
    ensures
        text::find(s.skip(n), p, from) == match text::find(s, p, n + from) {
            Some(i) => Some(i - n),
            None => None,
        },
    decreases s.len() - n - from + 1,
{
    let t = s.skip(n);
    if from <= t.len() {
        if from + 1 <= t.len() {
            assert(t.subrange(from, from + 1) =~= s.subrange(n + from, n + from + 1));
        }
        if !text::stands_at(t, p, from) && from < t.len() {
            find_in_rest(s, p, n, from + 1);
        }
    }
}

/// Where the first code from a position on stands.
fn find_code(v: &[char], from: usize) -> (r: Option<(usize, usize)>)
    requires
        from <= v@.len(),
    ensures
        match r {
            Some((a, b)) => from <= a && a + 1 < b < v@.len() && code_at(v@.skip(from as int))
                == Some((a - from, b - from)),
            None => code_at(v@.skip(from as int)) is None,
        },
{
    let tick = text::chars("`");
    proof {
        reveal_strlit("`");
        assert("`"@ =~= seq!['`']);
        find_in_rest(v@, tick@, from as int, 0);
    }
    match text::find_from(v, tick.as_slice(), from) {
        Some(a) => {
            assert(a < v.len());
            proof {
                text::find_is_first(v@, tick@, from as int);
                find_in_rest(v@, tick@, from as int, a + 1 - from);
                text::find_is_first(v@, tick@, a + 1);
            }
            match text::find_from(v, tick.as_slice(), a + 1) {
                Some(b) => if b > a + 1 {
                    Some((a, b))
                } else {
                    None
                },
                None => None,
            }
        },
        None => None,
    }
}

/// A text as HTML.
pub fn inline(s: &str) -> (r: String)
    ensures
        r@ == inline_html(s@),
{
    let v = text::chars(s);
    let ghost all = s@;
    let ghost total = inline_html(all);
    assert(all.skip(0) =~= all);
    let mut out = String::new();
    let mut from: usize = 0;
    assert(out@ + total =~= total);
    let mut next: Option<(usize, usize)> = find_code(v.as_slice(), 0);
    while next.is_some()
        invariant
            v@ == all,
            from <= v@.len(),
            match next {
                Some((a, b)) => from <= a && a + 1 < b < v@.len() && code_at(
                    all.skip(from as int),
                ) == Some((a - from, b - from)),
                None => code_at(all.skip(from as int)) is None,
            },
            out@ + inline_html(all.skip(from as int)) == total,
        decreases v@.len() - from,
    {
        let (start, end) = next.unwrap();
        let before = text::slice(v.as_slice(), from, start);
        let code = text::slice(v.as_slice(), start + 1, end);
        let ghost rest = all.skip(from as int);
        let ghost head = out@;
        out.push_str(inline_plain(before.as_str()).as_str());
        out.push_str("<code>");
        out.push_str(escape(code.as_str()).as_str());
        out.push_str("</code>");
        proof {
            assert(rest.take(start - from) =~= all.subrange(from as int, start as int));
            assert(rest.subrange(start - from + 1, end - from) =~= all.subrange(
                start + 1,
                end as int,
            ));
            assert(rest.skip(end - from + 1) =~= all.skip(end + 1));
            assert(out@ + inline_html(all.skip(end + 1)) =~= head + inline_html(rest));
        }
        assert(end < v.len());
        from = end + 1;
        next = find_code(v.as_slice(), from);
    }
    let rest = text::slice(v.as_slice(), from, v.len());
    assert(all.skip(from as int) =~= all.subrange(from as int, all.len() as int));
    out.push_str(inline_plain(rest.as_str()).as_str());
    out
}

/// Whether a character may stand in the name of a language.
pub open spec fn language_char(c: char) -> bool {
    'a' <= c <= 'z' || 'A' <= c <= 'Z' || '0' <= c <= '9' || c == '-' || c == '_' || c == '+'
}

/// The name of a language without what may not stand in it.
pub open spec fn language(s: Seq<char>) -> Seq<char>
    decreases s.len(),
{
    if s.len() == 0 {
        Seq::empty()
    } else if language_char(s.last()) {
        language(s.drop_last()).push(s.last())
    } else {
        language(s.drop_last())
    }
}

/// A block of code.
pub open spec fn code_block(lang: Seq<char>, body: Seq<char>) -> Seq<char> {
    if language(lang).len() == 0 {
        "<pre>"@ + escaped(body) + "</pre>"@
    } else {
        "<pre><code class=\"language-"@ + language(lang) + "\">"@ + escaped(body)
            + "</code></pre>"@
    }
}

/// The name of a language without what may not stand in it.
fn clean_language(s: &str) -> (r: String)
    ensures
        r@ == language(s@),
{
    let v = text::chars(s);
    let ghost all = s@;
    let mut out = String::new();
    for i in 0..v.len()
        invariant
            v@ == all,
            out@ == language(all.take(i as int)),
    {
        assert(all.take(i + 1).drop_last() =~= all.take(i as int));
        let c = v[i];
        if ('a' <= c && c <= 'z') || ('A' <= c && c <= 'Z') || ('0' <= c && c <= '9') || c == '-'
            || c == '_' || c == '+' {
            out.push(c);
        }
    }
    assert(all.take(all.len() as int) =~= all);
    out
}

/// A block of code.
pub fn pre_block(lang: &str, body: &str) -> (r: String)
    ensures
        r@ == code_block(lang@, body@),
{
    let lang = clean_language(lang);
    if lang.as_str().is_empty() {
        text::cat3("<pre>", escape(body).as_str(), "</pre>")
    } else {
        text::cat5(
            "<pre><code class=\"language-",
            lang.as_str(),
            "\">",
            escape(body).as_str(),
            "</code></pre>",
        )
    }
}

/// A text without the marks of a heading at its end.
pub open spec fn without_marks(s: Seq<char>) -> Seq<char>
    decreases s.len(),
{
    if s.len() > 0 && s.last() == '#' {
        without_marks(s.drop_last())
    } else {
        s
    }
}

/// A heading.
pub open spec fn heading(title: Seq<char>) -> Seq<char> {
    "<b>"@ + inline_html(text::trim(without_marks(title))) + "</b>"@
}

/// A heading with the title that was found.
pub fn heading_html(title: &str) -> (r: String)
    ensures
        r@ == heading(title@),
{
    let v = text::chars(title);
    let ghost all = title@;
    let mut n: usize = v.len();
    assert(all.take(n as int) =~= all);
    while n > 0 && v[n - 1] == '#'
        invariant
            v@ == all,
            n <= v@.len(),
            without_marks(all.take(n as int)) == without_marks(all),
        decreases n,
    {
        assert(all.take(n as int).drop_last() =~= all.take(n - 1));
        n = n - 1;
    }
    assert(n > 0 ==> all.take(n as int).last() == all[n - 1]);
    let bare = text::slice(v.as_slice(), 0, n);
    assert(bare@ =~= all.take(n as int));
    text::cat3("<b>", inline(text::trimmed(bare.as_str()).as_str()).as_str(), "</b>")
}

/// A line that is no part of a larger block, from what its patterns found: a
/// heading, a rule, an item of a list, or plain text.
pub open spec fn line_of(
    line: Seq<char>,
    title: Option<Seq<char>>,
    ruled: bool,
    item: Option<Seq<char>>,
) -> Seq<char> {
    let indent = line.take(line.len() - text::trim_start(line).len());
    if title is Some {
        heading(title->0)
    } else if ruled {
        RULE_LINE@
    } else if item is Some {
        indent + "• "@ + inline_html(item->0)
    } else {
        inline_html(line)
    }
}

/// A line that is no part of a larger block, from what its patterns found.
pub fn line_html(line: &str, title: Option<String>, ruled: bool, item: Option<String>) -> (r: String)
    ensures
        r@ == line_of(line@, title.deep_view(), ruled, item.deep_view()),
{
    match title {
        Some(t) => heading_html(t.as_str()),
        None => if ruled {
            RULE_LINE.to_owned()
        } else {
            match item {
                Some(t) => {
                    let v = text::chars(line);
                    let n = text::chars(text::trimmed_start(line).as_str()).len();
                    proof {
                        text::trim_start_is_suffix(line@);
                    }
                    let indent = text::slice(v.as_slice(), 0, v.len() - n);
                    assert(indent@ =~= line@.take(line@.len() - n));
                    text::cat3(indent.as_str(), "• ", inline(t.as_str()).as_str())
                },
                None => inline(line),
            }
        },
    }
}

/// A line that is no part of a larger block.
pub open spec fn line_block(line: Seq<char>) -> Seq<char> {
    let trimmed = text::trim_start(line);
    line_of(
        line,
        first_group(HEADING@, trimmed),
        matching(RULE@, trimmed),
        first_group(BULLET@, trimmed),
    )
}

/// A line that is no part of a larger block.
pub fn block_line(line: &str) -> (r: String)
    ensures
        r@ == line_block(line@),
{
    let trimmed = text::trimmed_start(line);
    line_html(
        line,
        capture(HEADING, trimmed.as_str()),
        is_match(RULE, trimmed.as_str()),
        capture(BULLET, trimmed.as_str()),
    )
}

/// The first line from `i` on that fences code; the end where there is none.
pub open spec fn fence_at(lines: Seq<Seq<char>>, i: int) -> int
    decreases lines.len() - i,
{
    if i < 0 || i >= lines.len() || text::begins(text::trim_start(lines[i]), "```"@) {
        i
    } else {
        fence_at(lines, i + 1)
    }
}

/// The first line from `i` on that does not begin with `mark`.
pub open spec fn run_end(lines: Seq<Seq<char>>, i: int, mark: Seq<char>) -> int
    decreases lines.len() - i,
{
    if i < 0 || i >= lines.len() || !text::begins(text::trim_start(lines[i]), mark) {
        i
    } else {
        run_end(lines, i + 1, mark)
    }
}

/// A fence is found behind where it is looked for.
pub(crate) proof fn fence_is_later(lines: Seq<Seq<char>>, i: int)
    requires
        0 <= i <= lines.len(),
    ensures
        i <= fence_at(lines, i) <= lines.len(),
    decreases lines.len() - i,
{
    if i < lines.len() && !text::begins(text::trim_start(lines[i]), "```"@) {
        fence_is_later(lines, i + 1);
    }
}

/// A run ends behind where it begins.
pub(crate) proof fn run_is_later(lines: Seq<Seq<char>>, i: int, mark: Seq<char>)
    requires
        0 <= i <= lines.len(),
    ensures
        i <= run_end(lines, i, mark) <= lines.len(),
        i < lines.len() && text::begins(text::trim_start(lines[i]), mark) ==> i < run_end(
            lines,
            i,
            mark,
        ),
    decreases lines.len() - i,
{
    if i < lines.len() && text::begins(text::trim_start(lines[i]), mark) {
        run_is_later(lines, i + 1, mark);
    }
}

/// The line after the fence of a block of code that begins at `i`.
pub open spec fn after_fence(lines: Seq<Seq<char>>, i: int) -> int {
    if fence_at(lines, i) < lines.len() {
        fence_at(lines, i) + 1
    } else {
        fence_at(lines, i)
    }
}

/// The code from line `i` to its fence.
pub open spec fn fenced(lines: Seq<Seq<char>>, i: int) -> Seq<char> {
    text::join(lines.subrange(i, fence_at(lines, i)), "\n"@)
}

/// A row of a table.
pub open spec fn rows(lines: Seq<Seq<char>>) -> Seq<Seq<char>> {
    lines.map_values(|l: Seq<char>| text::trim_end(l))
}

/// A quoted line without its mark.
pub open spec fn unquoted(line: Seq<char>) -> Seq<char> {
    let rest = text::trim_start(line).skip(1);
    match text::without_prefix(rest, " "@) {
        Some(t) => t,
        None => rest,
    }
}

/// Quoted lines as HTML.
pub open spec fn quotes(lines: Seq<Seq<char>>) -> Seq<Seq<char>> {
    lines.map_values(|l: Seq<char>| inline_html(unquoted(l)))
}

/// The blocks from line `i` on, and the language of a block of code that is still
/// open at the end.
pub open spec fn blocks(lines: Seq<Seq<char>>, i: int) -> (Seq<Seq<char>>, Option<Seq<char>>)
    decreases lines.len() - i,
    via blocks_go_on
{
    if i < 0 || i >= lines.len() {
        (Seq::empty(), None)
    } else {
        let start = text::trim_start(lines[i]);
        match text::without_prefix(start, "```"@) {
            Some(lang) => {
                let block = code_block(text::trim(lang), fenced(lines, i + 1));
                let rest = blocks(lines, after_fence(lines, i + 1));
                if fence_at(lines, i + 1) < lines.len() {
                    (seq![block] + rest.0, rest.1)
                } else {
                    (seq![block], Some(text::trim(lang)))
                }
            },
            None => if text::begins(start, "|"@) {
                let end = run_end(lines, i, "|"@);
                let rest = blocks(lines, end);
                let table = text::join(rows(lines.subrange(i, end)), "\n"@);
                (seq!["<pre>"@ + escaped(table) + "</pre>"@] + rest.0, rest.1)
            } else if text::begins(start, ">"@) {
                let end = run_end(lines, i, ">"@);
                let rest = blocks(lines, end);
                let quoted = text::join(quotes(lines.subrange(i, end)), "\n"@);
                (seq!["<blockquote>"@ + quoted + "</blockquote>"@] + rest.0, rest.1)
            } else {
                let rest = blocks(lines, i + 1);
                (seq![line_block(lines[i])] + rest.0, rest.1)
            },
        }
    }
}

#[via_fn]
proof fn blocks_go_on(lines: Seq<Seq<char>>, i: int) {
    if 0 <= i && i < lines.len() {
        fence_is_later(lines, i + 1);
        run_is_later(lines, i, "|"@);
        run_is_later(lines, i, ">"@);
    }
}

/// The blocks of a chunk, which may begin inside code of a language, and the
/// language of a block of code that is still open at its end.
pub open spec fn chunk(lines: Seq<Seq<char>>, open: Option<Seq<char>>) -> (
    Seq<Seq<char>>,
    Option<Seq<char>>,
) {
    match open {
        Some(lang) => {
            let block = code_block(lang, fenced(lines, 0));
            let rest = blocks(lines, after_fence(lines, 0));
            if fence_at(lines, 0) < lines.len() {
                (seq![block] + rest.0, rest.1)
            } else {
                (seq![block], Some(lang))
            }
        },
        None => blocks(lines, 0),
    }
}

/// A chunk of a reply as HTML.
pub open spec fn rendered(md: Seq<char>, open: Option<Seq<char>>) -> Seq<char> {
    text::join(chunk(text::split(md, '\n'), open).0, "\n"@)
}

/// The language of the code that is still open at the end of a chunk.
pub open spec fn left_open(md: Seq<char>, open: Option<Seq<char>>) -> Option<Seq<char>> {
    chunk(text::split(md, '\n'), open).1
}

/// The code from line `start` to its fence, the line after it, and whether there is
/// a fence.
pub fn collect_fence(lines: &Vec<String>, start: usize) -> (r: (String, usize, bool))
    requires
        start <= lines@.len(),
    ensures
        r.0@ == fenced(lines.deep_view(), start as int),
        r.1 == after_fence(lines.deep_view(), start as int),
        r.2 == (fence_at(lines.deep_view(), start as int) < lines@.len()),
        start <= r.1 <= lines@.len(),
{
    let ghost all = lines.deep_view();
    let mut body: Vec<String> = Vec::new();
    let mut j = start;
    assert(all.subrange(start as int, start as int) =~= Seq::empty());
    assert(body.deep_view() =~= Seq::empty());
    while j < lines.len() && !text::starts_with(
        text::trimmed_start(lines[j].as_str()).as_str(),
        "```",
    )
        invariant
            all == lines.deep_view(),
            start <= j <= lines@.len(),
            fence_at(all, start as int) == fence_at(all, j as int),
            body.deep_view() == all.subrange(start as int, j as int),
        decreases lines@.len() - j,
    {
        assert(all[j as int] == lines@[j as int]@);
        text::push(&mut body, lines[j].clone());
        assert(body.deep_view() =~= all.subrange(start as int, j + 1));
        j = j + 1;
    }
    assert(j < lines@.len() ==> all[j as int] == lines@[j as int]@);
    let code = text::joined(body.as_slice(), "\n");
    if j < lines.len() {
        (code, j + 1, true)
    } else {
        (code, j, false)
    }
}

/// The rows of a table from line `i` on, and the line after them.
fn collect_rows(lines: &Vec<String>, i: usize) -> (r: (Vec<String>, usize))
    requires
        i <= lines@.len(),
    ensures
        r.1 == run_end(lines.deep_view(), i as int, "|"@),
        i <= r.1 <= lines@.len(),
        r.0.deep_view() == rows(lines.deep_view().subrange(i as int, r.1 as int)),
{
    let ghost all = lines.deep_view();
    let mut out: Vec<String> = Vec::new();
    let mut j = i;
    assert(out.deep_view() =~= rows(all.subrange(i as int, i as int)));
    while j < lines.len() && text::starts_with(
        text::trimmed_start(lines[j].as_str()).as_str(),
        "|",
    )
        invariant
            all == lines.deep_view(),
            i <= j <= lines@.len(),
            run_end(all, i as int, "|"@) == run_end(all, j as int, "|"@),
            out.deep_view() == rows(all.subrange(i as int, j as int)),
        decreases lines@.len() - j,
    {
        assert(all[j as int] == lines@[j as int]@);
        text::push(&mut out, text::trimmed_end(lines[j].as_str()));
        assert(all.subrange(i as int, j + 1) =~= all.subrange(i as int, j as int).push(
            all[j as int],
        ));
        assert(out.deep_view() =~= rows(all.subrange(i as int, j + 1)));
        j = j + 1;
    }
    assert(j < lines@.len() ==> all[j as int] == lines@[j as int]@);
    (out, j)
}

/// A quoted line without its mark.
fn unquote(line: &str) -> (r: String)
    requires
        text::trim_start(line@).len() > 0,
    ensures
        r@ == unquoted(line@),
{
    let v = text::chars(text::trimmed_start(line).as_str());
    let rest = text::slice(v.as_slice(), 1, v.len());
    assert(rest@ =~= text::trim_start(line@).skip(1));
    match text::strip_prefix(rest.as_str(), " ") {
        Some(t) => t,
        None => rest,
    }
}

/// The quoted lines from line `i` on as HTML, and the line after them.
fn collect_quotes(lines: &Vec<String>, i: usize) -> (r: (Vec<String>, usize))
    requires
        i <= lines@.len(),
    ensures
        r.1 == run_end(lines.deep_view(), i as int, ">"@),
        i <= r.1 <= lines@.len(),
        r.0.deep_view() == quotes(lines.deep_view().subrange(i as int, r.1 as int)),
{
    let ghost all = lines.deep_view();
    let mut out: Vec<String> = Vec::new();
    let mut j = i;
    proof {
        reveal_strlit(">");
    }
    assert(out.deep_view() =~= quotes(all.subrange(i as int, i as int)));
    while j < lines.len() && text::starts_with(
        text::trimmed_start(lines[j].as_str()).as_str(),
        ">",
    )
        invariant
            all == lines.deep_view(),
            ">"@.len() == 1,
            i <= j <= lines@.len(),
            run_end(all, i as int, ">"@) == run_end(all, j as int, ">"@),
            out.deep_view() == quotes(all.subrange(i as int, j as int)),
        decreases lines@.len() - j,
    {
        assert(all[j as int] == lines@[j as int]@);
        text::push(&mut out, inline(unquote(lines[j].as_str()).as_str()));
        assert(all.subrange(i as int, j + 1) =~= all.subrange(i as int, j as int).push(
            all[j as int],
        ));
        assert(out.deep_view() =~= quotes(all.subrange(i as int, j + 1)));
        j = j + 1;
    }
    assert(j < lines@.len() ==> all[j as int] == lines@[j as int]@);
    (out, j)
}

/// A chunk of a reply as HTML. `open_fence` holds the language of the code that was
/// still open at the end of the chunk before; it then holds the language of the code
/// that is open at the end of this one. Every chunk closes its own code, and its tags
/// are properly nested where its marks are.
pub fn render_chunk(md: &str, open_fence: &mut Option<String>) -> (r: String)
    ensures
        r@ == rendered(md@, old(open_fence).deep_view()),
        final(open_fence).deep_view() == left_open(md@, old(open_fence).deep_view()),
        chunk_marks_nest(md@, old(open_fence).deep_view()) ==> nested(r@),
{
    proof {
        chunks_are_nested(md@, open_fence.deep_view());
    }
    let lines = text::split_on(md, '\n');
    let ghost all = lines.deep_view();
    let ghost total = chunk(all, open_fence.deep_view());
    let mut out: Vec<String> = Vec::new();
    let mut i: usize = 0;
    let mut fence: Option<String> = None;
    assert(out.deep_view() =~= Seq::empty());
    if let Some(lang) = open_fence.take() {
        let (block, next, closed) = collect_fence(&lines, 0);
        text::push(&mut out, pre_block(lang.as_str(), block.as_str()));
        assert(out.deep_view() =~= seq![code_block(lang@, fenced(all, 0))]);
        if !closed {
            fence = Some(lang);
        }
        i = next;
    }
    assert(out.deep_view() + blocks(all, i as int).0 =~= total.0);
    while i < lines.len()
        invariant
            all == lines.deep_view(),
            i <= lines@.len(),
            i < lines@.len() ==> fence is None,
            out.deep_view() + blocks(all, i as int).0 == total.0,
            total.1 == match fence {
                Some(lang) => Some(lang@),
                None => blocks(all, i as int).1,
            },
        decreases lines@.len() - i,
    {
        let ghost before = out.deep_view();
        let ghost was = i as int;
        assert(all[i as int] == lines@[i as int]@);
        proof {
            fence_is_later(all, was + 1);
            run_is_later(all, was, "|"@);
            run_is_later(all, was, ">"@);
        }
        let trimmed = text::trimmed_start(lines[i].as_str());
        match text::strip_prefix(trimmed.as_str(), "```") {
            Some(lang) => {
                let lang = text::trimmed(lang.as_str());
                let (block, next, closed) = collect_fence(&lines, i + 1);
                text::push(&mut out, pre_block(lang.as_str(), block.as_str()));
                if !closed {
                    fence = Some(lang);
                }
                i = next;
            },
            None => if text::starts_with(trimmed.as_str(), "|") {
                let (rows, next) = collect_rows(&lines, i);
                let table = text::joined(rows.as_slice(), "\n");
                text::push(
                    &mut out,
                    text::cat3("<pre>", escape(table.as_str()).as_str(), "</pre>"),
                );
                i = next;
            } else if text::starts_with(trimmed.as_str(), ">") {
                let (quoted, next) = collect_quotes(&lines, i);
                let quoted = text::joined(quoted.as_slice(), "\n");
                text::push(
                    &mut out,
                    text::cat3("<blockquote>", quoted.as_str(), "</blockquote>"),
                );
                i = next;
            } else {
                text::push(&mut out, block_line(lines[i].as_str()));
                i = i + 1;
            },
        }
        assert(out.deep_view() =~= before + seq![out.deep_view().last()]);
        assert(out.deep_view() + blocks(all, i as int).0 =~= before + blocks(all, was).0);
    }
    assert(out.deep_view() + blocks(all, i as int).0 =~= out.deep_view());
    *open_fence = fence;
    text::joined(out.as_slice(), "\n")
}

/// Escaped text holds nothing that could be taken for a tag.
pub proof fn escaped_text_has_no_tags(s: Seq<char>, i: int)
    requires
        0 <= i < escaped(s).len(),
    ensures
        escaped(s)[i] != '<',
        escaped(s)[i] != '>',
    decreases s.len(),
{
    let head = escaped(s.drop_last());
    if i < head.len() {
        escaped_text_has_no_tags(s.drop_last(), i);
    } else {
        reveal_strlit("&amp;");
        reveal_strlit("&lt;");
        reveal_strlit("&gt;");
        assert(escaped(s)[i] == escaped_char(s.last())[i - head.len()]);
    }
}

/// The name of a language holds nothing that could end the attribute it stands in.
pub proof fn languages_are_plain(s: Seq<char>, i: int)
    requires
        0 <= i < language(s).len(),
    ensures
        language_char(language(s)[i]),
    decreases s.len(),
{
    if s.len() > 0 && i < language(s.drop_last()).len() {
        languages_are_plain(s.drop_last(), i);
    }
}

/// A chunk that begins inside code and holds no fence is code from end to end, and
/// leaves the code open; one with a fence goes on behind it as a chunk of its own.
pub proof fn code_goes_on_across_chunks(md: Seq<char>, lang: Seq<char>)
    ensures
        ({
            let lines = text::split(md, '\n');
            if fence_at(lines, 0) >= lines.len() {
                &&& rendered(md, Some(lang)) == code_block(lang, text::join(lines, "\n"@))
                &&& left_open(md, Some(lang)) == Some(lang)
            } else {
                left_open(md, Some(lang)) == blocks(lines, after_fence(lines, 0)).1
            }
        }),
{
    let lines = text::split(md, '\n');
    fence_is_later(lines, 0);
    if fence_at(lines, 0) >= lines.len() {
        assert(lines.subrange(0, lines.len() as int) =~= lines);
        let block = code_block(lang, text::join(lines, "\n"@));
        reveal_with_fuel(text::join, 2);
        assert(seq![block].drop_last() =~= Seq::empty());
        assert(text::join(seq![block], "\n"@) =~= block);
    }
}

/// How HTML is read: the tags that are open, and what was read of a tag that has not
/// ended.
#[verifier::ext_equal]
pub struct Reading {
    pub open: Seq<Seq<char>>,
    pub tag: Option<Seq<char>>,
}

/// Where no tag is open.
pub open spec fn outside() -> Reading {
    Reading { open: Seq::empty(), tag: None }
}

/// The name of a tag, without its attributes.
pub open spec fn tag_name(tag: Seq<char>) -> Seq<char> {
    match text::find(tag, seq![' '], 0) {
        Some(i) => tag.take(i),
        None => tag,
    }
}

/// The reading after one more character; nothing where the HTML is wrong: an angle
/// bracket in the wrong place, or a tag that closes another one than the last that is
/// open.
pub open spec fn read_char(r: Reading, c: char) -> Option<Reading> {
    match r.tag {
        None => if c == '<' {
            Some(Reading { tag: Some(Seq::empty()), ..r })
        } else if c == '>' {
            None
        } else {
            Some(r)
        },
        Some(t) => if c == '<' {
            None
        } else if c != '>' {
            Some(Reading { tag: Some(t.push(c)), ..r })
        } else if t.len() > 0 && t[0] == '/' {
            if r.open.len() > 0 && r.open.last() == t.skip(1) {
                Some(Reading { open: r.open.drop_last(), tag: None })
            } else {
                None
            }
        } else {
            Some(Reading { open: r.open.push(tag_name(t)), tag: None })
        },
    }
}

/// The reading after a text.
pub open spec fn read_on(r: Option<Reading>, s: Seq<char>) -> Option<Reading>
    decreases s.len(),
{
    if s.len() == 0 {
        r
    } else {
        match read_on(r, s.drop_last()) {
            Some(q) => read_char(q, s.last()),
            None => None,
        }
    }
}

/// Whether the tags of a text are properly nested: each is closed, and always the last
/// that is open first.
pub open spec fn nested(s: Seq<char>) -> bool {
    read_on(Some(outside()), s) == Some(outside())
}

/// Reading goes on.
proof fn reading_adds_up(r: Option<Reading>, a: Seq<char>, b: Seq<char>)
    ensures
        read_on(r, a + b) == read_on(read_on(r, a), b),
    decreases b.len(),
{
    if b.len() == 0 {
        assert(a + b =~= a);
    } else {
        assert((a + b).drop_last() =~= a + b.drop_last());
        assert((a + b).last() == b.last());
        reading_adds_up(r, a, b.drop_last());
    }
}

/// What can be read where fewer tags are open can be read where more are.
proof fn reading_within(base: Seq<Seq<char>>, r: Reading, s: Seq<char>)
    requires
        read_on(Some(r), s) is Some,
    ensures
        read_on(Some(Reading { open: base + r.open, ..r }), s) == Some(
            Reading { open: base + read_on(Some(r), s)->0.open, ..read_on(Some(r), s)->0 },
        ),
    decreases s.len(),
{
    if s.len() > 0 {
        reading_within(base, r, s.drop_last());
        let q = read_on(Some(r), s.drop_last())->0;
        assert((base + q.open).push(tag_name(q.tag->0)) =~= base + q.open.push(
            tag_name(q.tag->0),
        ));
        if q.open.len() > 0 {
            assert((base + q.open).drop_last() =~= base + q.open.drop_last());
            assert((base + q.open).last() == q.open.last());
        }
    }
}

/// Nested texts after one another are nested.
proof fn nested_adds_up(a: Seq<char>, b: Seq<char>)
    requires
        nested(a),
        nested(b),
    ensures
        nested(a + b),
{
    reading_adds_up(Some(outside()), a, b);
}

/// A text without angle brackets is nested.
proof fn bare_is_nested(s: Seq<char>)
    requires
        forall|i: int| 0 <= i < s.len() ==> s[i] != '<' && s[i] != '>',
    ensures
        nested(s),
    decreases s.len(),
{
    if s.len() > 0 {
        assert forall|i: int| 0 <= i < s.drop_last().len() implies s.drop_last()[i] != '<'
            && s.drop_last()[i] != '>' by {
            assert(s.drop_last()[i] == s[i]);
        }
        bare_is_nested(s.drop_last());
        assert(s.last() == s[s.len() - 1]);
    }
}

/// What stands in a tag is read as such.
proof fn reading_a_tag(open: Seq<Seq<char>>, t: Seq<char>)
    requires
        forall|i: int| 0 <= i < t.len() ==> t[i] != '<' && t[i] != '>',
    ensures
        read_on(Some(Reading { open, tag: None }), seq!['<'] + t) == Some(
            Reading { open, tag: Some(t) },
        ),
    decreases t.len(),
{
    let s = seq!['<'] + t;
    if t.len() == 0 {
        assert(s.drop_last() =~= Seq::empty());
        assert(s.last() == '<');
        assert(t =~= Seq::empty());
        assert(read_on(Some(Reading { open, tag: None }), s.drop_last()) == Some(
            Reading { open, tag: None },
        ));
    } else {
        assert(s.drop_last() =~= seq!['<'] + t.drop_last());
        assert(s.last() == t[t.len() - 1]);
        reading_a_tag(open, t.drop_last());
        assert(t.drop_last().push(t.last()) =~= t);
    }
}

/// A tag.
pub open spec fn tag(t: Seq<char>) -> Seq<char> {
    seq!['<'] + t + seq!['>']
}

/// A text in a tag, whose attributes may follow its name, is nested where the text is.
proof fn wrapped_is_nested(t: Seq<char>, name: Seq<char>, s: Seq<char>)
    requires
        forall|i: int| 0 <= i < t.len() ==> t[i] != '<' && t[i] != '>',
        forall|i: int| 0 <= i < name.len() ==> name[i] != '<' && name[i] != '>',
        t.len() > 0,
        t[0] != '/',
        tag_name(t) == name,
        nested(s),
    ensures
        nested(tag(t) + s + tag(seq!['/'] + name)),
{
    let none = Seq::<Seq<char>>::empty();
    let within = Reading { open: seq![name], tag: None };
    let close = seq!['/'] + name;
    reading_a_tag(none, t);
    assert((seq!['<'] + t + seq!['>']).drop_last() =~= seq!['<'] + t);
    assert(none.push(name) =~= seq![name]);
    assert(read_on(Some(outside()), tag(t)) == Some(within));
    reading_within(seq![name], outside(), s);
    assert(seq![name] + none =~= seq![name]);
    assert(read_on(Some(within), s) == Some(within));
    reading_a_tag(seq![name], close);
    assert((seq!['<'] + close + seq!['>']).drop_last() =~= seq!['<'] + close);
    assert(close.skip(1) =~= name);
    assert(seq![name].drop_last() =~= none);
    assert(read_on(Some(within), tag(close)) == Some(outside()));
    reading_adds_up(Some(outside()), tag(t), s);
    reading_adds_up(Some(outside()), tag(t) + s, tag(close));
}

/// The name of a tag without attributes is all of it.
proof fn plain_tag_name(t: Seq<char>)
    requires
        forall|i: int| 0 <= i < t.len() ==> t[i] != ' ',
    ensures
        tag_name(t) == t,
{
    text::find_is_first(t, seq![' '], 0);
    if let Some(i) = text::find(t, seq![' '], 0) {
        assert(t.subrange(i, i + 1)[0] == t[i]);
    }
}

/// The tags of code, of preformatted text, of a quote and of bold text enclose nested
/// text.
proof fn tags_enclose(s: Seq<char>)
    requires
        nested(s),
    ensures
        nested("<code>"@ + s + "</code>"@),
        nested("<pre>"@ + s + "</pre>"@),
        nested("<blockquote>"@ + s + "</blockquote>"@),
        nested("<b>"@ + s + "</b>"@),
{
    reveal_strlit("code");
    reveal_strlit("pre");
    reveal_strlit("blockquote");
    reveal_strlit("b");
    reveal_strlit("<code>");
    reveal_strlit("</code>");
    reveal_strlit("<pre>");
    reveal_strlit("</pre>");
    reveal_strlit("<blockquote>");
    reveal_strlit("</blockquote>");
    reveal_strlit("<b>");
    reveal_strlit("</b>");
    assert("<code>"@ =~= tag("code"@) && "</code>"@ =~= tag(seq!['/'] + "code"@));
    assert("<pre>"@ =~= tag("pre"@) && "</pre>"@ =~= tag(seq!['/'] + "pre"@));
    assert("<blockquote>"@ =~= tag("blockquote"@) && "</blockquote>"@ =~= tag(
        seq!['/'] + "blockquote"@,
    ));
    assert("<b>"@ =~= tag("b"@) && "</b>"@ =~= tag(seq!['/'] + "b"@));
    plain_tag_name("code"@);
    plain_tag_name("pre"@);
    plain_tag_name("blockquote"@);
    plain_tag_name("b"@);
    wrapped_is_nested("code"@, "code"@, s);
    wrapped_is_nested("pre"@, "pre"@, s);
    wrapped_is_nested("blockquote"@, "blockquote"@, s);
    wrapped_is_nested("b"@, "b"@, s);
}

/// Escaped text is nested.
proof fn escaped_is_nested(s: Seq<char>)
    ensures
        nested(escaped(s)),
{
    assert forall|i: int| 0 <= i < escaped(s).len() implies escaped(s)[i] != '<' && escaped(s)[i]
        != '>' by {
        escaped_text_has_no_tags(s, i);
    }
    bare_is_nested(escaped(s));
}

/// A block of code is nested.
proof fn code_block_is_nested(lang: Seq<char>, body: Seq<char>)
    ensures
        nested(code_block(lang, body)),
{
    let inner = escaped(body);
    escaped_is_nested(body);
    if language(lang).len() == 0 {
        tags_enclose(inner);
    } else {
        let l = language(lang);
        reveal_strlit("code");
        reveal_strlit("code class=\"language-");
        reveal_strlit("\"");
        reveal_strlit("<pre>");
        reveal_strlit("</pre>");
        reveal_strlit("</code>");
        reveal_strlit("<pre><code class=\"language-");
        reveal_strlit("\">");
        reveal_strlit("</code></pre>");
        let t = "code class=\"language-"@ + l + "\""@;
        let n = "code class=\"language-"@.len() as int;
        assert forall|i: int| 0 <= i < t.len() implies t[i] != '<' && t[i] != '>' by {
            if n <= i < n + l.len() {
                languages_are_plain(lang, i - n);
                assert(t[i] == l[i - n]);
            }
        }
        assert(tag_name(t) == "code"@) by {
            text::find_is_first(t, seq![' '], 0);
            assert(t[4] == ' ');
            assert(t.subrange(4, 5) =~= seq![' ']);
            assert(text::stands_at(t, seq![' '], 4));
            let i = text::find(t, seq![' '], 0)->0;
            assert(t.subrange(i, i + 1)[0] == t[i]);
            assert(i == 4);
            assert(t.take(4) =~= "code"@);
        }
        wrapped_is_nested(t, "code"@, inner);
        let code = tag(t) + inner + tag(seq!['/'] + "code"@);
        tags_enclose(code);
        assert("<pre>"@ + code + "</pre>"@ =~= code_block(lang, body));
    }
}

/// Whether the marks outside code in a text make nested HTML. Marks that cross do not:
/// `**a ~~b** c~~`.
pub open spec fn marks_nest(s: Seq<char>) -> bool
    decreases s.len(),
{
    match code_at(s) {
        Some((a, b)) => if 0 <= a < b < s.len() {
            nested(plain_html(s.take(a))) && marks_nest(s.skip(b + 1))
        } else {
            nested(plain_html(s))
        },
        None => nested(plain_html(s)),
    }
}

/// A text whose marks nest is nested.
proof fn inline_is_nested(s: Seq<char>)
    requires
        marks_nest(s),
    ensures
        nested(inline_html(s)),
    decreases s.len(),
{
    if let Some((a, b)) = code_at(s) {
        if 0 <= a < b < s.len() {
            let front = plain_html(s.take(a));
            let code = escaped(s.subrange(a + 1, b));
            let rest = inline_html(s.skip(b + 1));
            inline_is_nested(s.skip(b + 1));
            escaped_is_nested(s.subrange(a + 1, b));
            tags_enclose(code);
            let wrapped = "<code>"@ + code + "</code>"@;
            nested_adds_up(front, wrapped);
            nested_adds_up(front + wrapped, rest);
            assert(front + wrapped + rest =~= inline_html(s));
        }
    }
}

/// Whether the marks of a line that is no part of a larger block nest.
pub open spec fn line_marks_nest(line: Seq<char>) -> bool {
    let trimmed = text::trim_start(line);
    match first_group(HEADING@, trimmed) {
        Some(title) => marks_nest(text::trim(without_marks(title))),
        None => if matching(RULE@, trimmed) {
            true
        } else {
            match first_group(BULLET@, trimmed) {
                Some(item) => marks_nest(item),
                None => marks_nest(line),
            }
        },
    }
}

/// What stands before the first character of a line is white space.
proof fn indent_is_white(line: Seq<char>)
    ensures
        forall|i: int|
            0 <= i < line.len() - text::trim_start(line).len() ==> text::white(#[trigger] line[i]),
    decreases line.len(),
{
    if line.len() > 0 && text::white(line[0]) {
        let rest = line.skip(1);
        indent_is_white(rest);
        assert forall|i: int| 0 <= i < line.len() - text::trim_start(line).len() implies text::white(
            #[trigger] line[i],
        ) by {
            if i > 0 {
                assert(rest[i - 1] == line[i]);
            }
        }
    }
}

/// A line whose marks nest is nested.
proof fn line_is_nested(line: Seq<char>)
    requires
        line_marks_nest(line),
    ensures
        nested(line_block(line)),
{
    let trimmed = text::trim_start(line);
    match first_group(HEADING@, trimmed) {
        Some(title) => {
            let inner = text::trim(without_marks(title));
            inline_is_nested(inner);
            tags_enclose(inline_html(inner));
        },
        None => if matching(RULE@, trimmed) {
            reveal_strlit("──────────");
            bare_is_nested(RULE_LINE@);
        } else {
            match first_group(BULLET@, trimmed) {
                Some(item) => {
                    let indent = line.take(line.len() - trimmed.len());
                    text::trim_start_is_suffix(line);
                    indent_is_white(line);
                    reveal_strlit("• ");
                    let front = indent + "• "@;
                    assert forall|i: int| 0 <= i < front.len() implies front[i] != '<' && front[i]
                        != '>' by {
                        if i < indent.len() {
                            assert(text::white(line[i]));
                            assert(front[i] == line[i]);
                        }
                    }
                    bare_is_nested(front);
                    inline_is_nested(item);
                    nested_adds_up(front, inline_html(item));
                },
                None => inline_is_nested(line),
            }
        },
    }
}

/// Nested texts that are joined by line breaks are nested.
proof fn joined_is_nested(parts: Seq<Seq<char>>)
    requires
        forall|i: int| 0 <= i < parts.len() ==> nested(#[trigger] parts[i]),
    ensures
        nested(text::join(parts, "\n"@)),
    decreases parts.len(),
{
    reveal_strlit("\n");
    bare_is_nested("\n"@);
    if parts.len() == 0 {
        bare_is_nested(text::join(parts, "\n"@));
    } else if parts.len() > 1 {
        let front = parts.drop_last();
        assert forall|i: int| 0 <= i < front.len() implies nested(#[trigger] front[i]) by {
            assert(front[i] == parts[i]);
        }
        joined_is_nested(front);
        assert(nested(parts[parts.len() - 1]));
        nested_adds_up(text::join(front, "\n"@), "\n"@);
        nested_adds_up(text::join(front, "\n"@) + "\n"@, parts.last());
    }
}

/// Whether the marks of the blocks from line `i` on nest.
pub open spec fn block_marks_nest(lines: Seq<Seq<char>>, i: int) -> bool
    decreases lines.len() - i,
    via block_marks_go_on
{
    if i < 0 || i >= lines.len() {
        true
    } else {
        let start = text::trim_start(lines[i]);
        match text::without_prefix(start, "```"@) {
            Some(lang) => block_marks_nest(lines, after_fence(lines, i + 1)),
            None => if text::begins(start, "|"@) {
                block_marks_nest(lines, run_end(lines, i, "|"@))
            } else if text::begins(start, ">"@) {
                let end = run_end(lines, i, ">"@);
                &&& forall|k: int| i <= k < end ==> marks_nest(unquoted(#[trigger] lines[k]))
                &&& block_marks_nest(lines, end)
            } else {
                line_marks_nest(lines[i]) && block_marks_nest(lines, i + 1)
            },
        }
    }
}

#[via_fn]
proof fn block_marks_go_on(lines: Seq<Seq<char>>, i: int) {
    if 0 <= i && i < lines.len() {
        fence_is_later(lines, i + 1);
        run_is_later(lines, i, "|"@);
        run_is_later(lines, i, ">"@);
    }
}

/// Whether the marks of a chunk, which may begin inside code, nest.
pub open spec fn chunk_marks_nest(md: Seq<char>, open: Option<Seq<char>>) -> bool {
    let lines = text::split(md, '\n');
    match open {
        Some(_) => block_marks_nest(lines, after_fence(lines, 0)),
        None => block_marks_nest(lines, 0),
    }
}

/// Nested texts with one more in front.
proof fn nested_list(first: Seq<char>, rest: Seq<Seq<char>>)
    requires
        nested(first),
        forall|k: int| 0 <= k < rest.len() ==> nested(#[trigger] rest[k]),
    ensures
        forall|k: int| 0 <= k < (seq![first] + rest).len() ==> nested(#[trigger] (seq![first] + rest)[k]),
{
    assert forall|k: int| 0 <= k < (seq![first] + rest).len() implies nested(
        #[trigger] (seq![first] + rest)[k],
    ) by {
        if k > 0 {
            assert((seq![first] + rest)[k] == rest[k - 1]);
        }
    }
}

/// Blocks whose marks nest are nested.
proof fn blocks_are_nested(lines: Seq<Seq<char>>, i: int)
    requires
        block_marks_nest(lines, i),
    ensures
        forall|k: int| 0 <= k < blocks(lines, i).0.len() ==> nested(#[trigger] blocks(lines, i).0[k]),
    decreases lines.len() - i,
{
    if 0 <= i < lines.len() {
        fence_is_later(lines, i + 1);
        run_is_later(lines, i, "|"@);
        run_is_later(lines, i, ">"@);
        let start = text::trim_start(lines[i]);
        match text::without_prefix(start, "```"@) {
            Some(lang) => {
                blocks_are_nested(lines, after_fence(lines, i + 1));
                code_block_is_nested(text::trim(lang), fenced(lines, i + 1));
                nested_list(
                    code_block(text::trim(lang), fenced(lines, i + 1)),
                    blocks(lines, after_fence(lines, i + 1)).0,
                );
            },
            None => if text::begins(start, "|"@) {
                let end = run_end(lines, i, "|"@);
                let table = text::join(rows(lines.subrange(i, end)), "\n"@);
                blocks_are_nested(lines, end);
                escaped_is_nested(table);
                tags_enclose(escaped(table));
                nested_list("<pre>"@ + escaped(table) + "</pre>"@, blocks(lines, end).0);
            } else if text::begins(start, ">"@) {
                let end = run_end(lines, i, ">"@);
                let list = quotes(lines.subrange(i, end));
                blocks_are_nested(lines, end);
                assert forall|k: int| 0 <= k < list.len() implies nested(#[trigger] list[k]) by {
                    assert(list[k] == inline_html(unquoted(lines[i + k])));
                    inline_is_nested(unquoted(lines[i + k]));
                }
                joined_is_nested(list);
                let quoted = text::join(list, "\n"@);
                tags_enclose(quoted);
                nested_list("<blockquote>"@ + quoted + "</blockquote>"@, blocks(lines, end).0);
            } else {
                blocks_are_nested(lines, i + 1);
                line_is_nested(lines[i]);
                nested_list(line_block(lines[i]), blocks(lines, i + 1).0);
            },
        }
    }
}

/// Every chunk is valid HTML, half a reply too: its tags are properly nested, and none
/// is left open, whatever code it begins or ends in, where the marks of its text nest.
pub proof fn chunks_are_nested(md: Seq<char>, open: Option<Seq<char>>)
    ensures
        chunk_marks_nest(md, open) ==> nested(rendered(md, open)),
{
    if chunk_marks_nest(md, open) {
        let lines = text::split(md, '\n');
        match open {
            Some(lang) => {
                fence_is_later(lines, 0);
                blocks_are_nested(lines, after_fence(lines, 0));
                code_block_is_nested(lang, fenced(lines, 0));
                nested_list(
                    code_block(lang, fenced(lines, 0)),
                    blocks(lines, after_fence(lines, 0)).0,
                );
            },
            None => blocks_are_nested(lines, 0),
        }
        joined_is_nested(chunk(lines, open).0);
    }
}

} // verus!
