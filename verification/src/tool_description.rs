//! One line on what a tool call does, in place of its command.
//!
//! What the model wrote itself counts first. A command is described where it is
//! understood; where it is not, it is shown without what only leads up to it.
use vstd::prelude::*;
use crate::json::{Json, JsonView};
use crate::text;

verus! {

/// The longest description in characters.
pub const MAX_LEN: usize = 72;

/// A description that fits: trimmed, and cut where it is too long.
pub open spec fn clipped(s: Seq<char>) -> Seq<char> {
    let t = text::trim(s);
    if t.len() <= MAX_LEN {
        t
    } else {
        t.take(MAX_LEN - 1) + "…"@
    }
}

/// A description that fits.
pub fn clip(s: &str) -> (r: String)
    ensures
        r@ == clipped(s@),
{
    let t = text::trimmed(s);
    let v = text::chars(t.as_str());
    if v.len() <= MAX_LEN {
        return t;
    }
    let cut = text::slice(v.as_slice(), 0, MAX_LEN - 1);
    assert(cut@ =~= t@.take(MAX_LEN - 1));
    text::cat2(cut.as_str(), "…")
}

/// A text that is not blank, as a description.
pub open spec fn clipped_if_filled(s: Option<Seq<char>>) -> Option<Seq<char>> {
    match s {
        Some(t) => if text::trim(t).len() > 0 {
            Some(clipped(t))
        } else {
            None
        },
        None => None,
    }
}

/// A text that is not blank, as a description.
fn clip_if_filled(s: Option<&str>) -> (r: Option<String>)
    ensures
        r.deep_view() == clipped_if_filled(s.deep_view()),
{
    match s {
        Some(t) => if text::trimmed(t).as_str().is_empty() {
            None
        } else {
            Some(clip(t))
        },
        None => None,
    }
}

/// A member of the input that is a text.
pub open spec fn input_text(input: Option<JsonView>, key: Seq<char>) -> Option<Seq<char>> {
    match input {
        Some(v) => v.str_at(key),
        None => None,
    }
}

/// A member of the input that is a text.
fn input_member<'a>(input: Option<&'a Json>, key: &str) -> (r: Option<&'a str>)
    ensures
        r.deep_view() == input_text(input.deep_view(), key@),
{
    match input {
        Some(v) => v.str_at(key),
        None => None,
    }
}

/// What the model wrote about the call.
pub open spec fn written_by_model(input: Option<JsonView>) -> Option<Seq<char>> {
    match clipped_if_filled(input_text(input, "description"@)) {
        Some(d) => Some(d),
        None => clipped_if_filled(input_text(input, "summary"@)),
    }
}

/// What the model wrote about the call.
pub fn model_written(raw_input: Option<&Json>) -> (r: Option<String>)
    ensures
        r.deep_view() == written_by_model(raw_input.deep_view()),
{
    match clip_if_filled(input_member(raw_input, "description")) {
        Some(d) => Some(d),
        None => clip_if_filled(input_member(raw_input, "summary")),
    }
}

/// The title of a command. A title without a command is what the tool works on.
pub open spec fn title_of_command(input: Option<JsonView>) -> Option<Seq<char>> {
    if input_text(input, "command"@) is None {
        None
    } else {
        clipped_if_filled(input_text(input, "title"@))
    }
}

/// The title of a command.
pub fn command_title(raw_input: Option<&Json>) -> (r: Option<String>)
    ensures
        r.deep_view() == title_of_command(raw_input.deep_view()),
{
    if input_member(raw_input, "command").is_none() {
        return None;
    }
    clip_if_filled(input_member(raw_input, "title"))
}

/// What is done to a process, with its session where one is named.
pub open spec fn on_session(verb: Seq<char>, session: Option<Seq<char>>, fallback: Seq<char>) -> Seq<
    char,
> {
    match session {
        Some(id) => verb + " "@ + id,
        None => fallback,
    }
}

/// What is done to a process, with its session where one is named.
fn on(verb: &str, session: &Option<String>, fallback: &str) -> (r: String)
    ensures
        r@ == on_session(verb@, session.deep_view(), fallback@),
{
    match session {
        Some(id) => text::cat3(verb, " ", id.as_str()),
        None => fallback.to_owned(),
    }
}

/// A text without the white space around it; nothing where nothing is left.
pub open spec fn filled(s: Option<Seq<char>>) -> Option<Seq<char>> {
    match s {
        Some(t) => if text::trim(t).len() > 0 {
            Some(text::trim(t))
        } else {
            None
        },
        None => None,
    }
}

/// The words for an action on a background process, where it is known.
pub open spec fn process_phrase(action: Seq<char>, session: Option<Seq<char>>) -> Option<Seq<char>> {
    if action == "list"@ {
        Some("List background processes"@)
    } else if action == "poll"@ {
        Some(on_session("Check"@, session, "Check a background process"@))
    } else if action == "log"@ {
        Some(on_session("Read output of"@, session, "Read process output"@))
    } else if action == "write"@ || action == "submit"@ || action == "paste"@ || action
        == "send-keys"@ {
        Some(on_session("Send input to"@, session, "Send input to a process"@))
    } else if action == "kill"@ {
        Some(on_session("Stop"@, session, "Stop a background process"@))
    } else if action == "clear"@ {
        Some(on_session("Clear output of"@, session, "Clear process output"@))
    } else if action == "remove"@ {
        Some(on_session("Remove"@, session, "Remove a background process"@))
    } else {
        None
    }
}

/// The description of a call of the `process` tool.
pub open spec fn process_call(title: Seq<char>, input: Option<JsonView>) -> Option<Seq<char>> {
    if text::trim(text::split(title, ':')[0]) != "process"@ {
        None
    } else {
        match input_text(input, "action"@) {
            Some(action) => match process_phrase(
                text::trim(action),
                filled(input_text(input, "sessionId"@)),
            ) {
                Some(phrase) => Some(clipped(phrase)),
                None => None,
            },
            None => None,
        }
    }
}

/// The words for an action on a background process.
fn phrase_for(action: &str, session: &Option<String>) -> (r: Option<String>)
    ensures
        r.deep_view() == process_phrase(action@, session.deep_view()),
{
    if text::same(action, "list") {
        Some("List background processes".to_owned())
    } else if text::same(action, "poll") {
        Some(on("Check", session, "Check a background process"))
    } else if text::same(action, "log") {
        Some(on("Read output of", session, "Read process output"))
    } else if text::same(action, "write") || text::same(action, "submit") || text::same(
        action,
        "paste",
    ) || text::same(action, "send-keys") {
        Some(on("Send input to", session, "Send input to a process"))
    } else if text::same(action, "kill") {
        Some(on("Stop", session, "Stop a background process"))
    } else if text::same(action, "clear") {
        Some(on("Clear output of", session, "Clear process output"))
    } else if text::same(action, "remove") {
        Some(on("Remove", session, "Remove a background process"))
    } else {
        None
    }
}

/// The description of a call of the `process` tool, whose title is its name, alone or
/// in front of a colon. An unknown action is not guessed at.
pub fn describe_openclaw_process(title: &str, raw_input: Option<&Json>) -> (r: Option<String>)
    ensures
        r.deep_view() == process_call(title@, raw_input.deep_view()),
{
    let pieces = text::split_on(title, ':');
    proof {
        text::split_is_nonempty(title@, ':');
        assert(pieces.deep_view().len() == pieces@.len());
        assert(pieces.deep_view()[0] == pieces@[0]@);
    }
    if !text::same(text::trimmed(pieces[0].as_str()).as_str(), "process") {
        return None;
    }
    let action = match input_member(raw_input, "action") {
        Some(a) => text::trimmed(a),
        None => {
            return None;
        },
    };
    let session: Option<String> = match input_member(raw_input, "sessionId") {
        Some(s) => {
            let t = text::trimmed(s);
            if t.as_str().is_empty() {
                None
            } else {
                Some(t)
            }
        },
        None => None,
    };
    match phrase_for(action.as_str(), &session) {
        Some(phrase) => Some(clip(phrase.as_str())),
        None => None,
    }
}

/// The working directory that the input names.
pub open spec fn cwd(input: Option<JsonView>) -> Option<Seq<char>> {
    match input_text(input, "cwd"@) {
        Some(d) => Some(d),
        None => match input_text(input, "workdir"@) {
            Some(d) => Some(d),
            None => input_text(input, "working_dir"@),
        },
    }
}

/// The working directory that the input names.
pub fn cwd_of(raw_input: Option<&Json>) -> (r: Option<String>)
    ensures
        r.deep_view() == cwd(raw_input.deep_view()),
{
    if let Some(d) = input_member(raw_input, "cwd") {
        return Some(d.to_owned());
    }
    if let Some(d) = input_member(raw_input, "workdir") {
        return Some(d.to_owned());
    }
    text::owned(input_member(raw_input, "working_dir"))
}

/// The command of a call: that of its input, or else its title.
pub open spec fn command(input: Option<JsonView>, title: Seq<char>) -> Seq<char> {
    match input_text(input, "command"@) {
        Some(c) => c,
        None => title,
    }
}

/// The command of a call.
pub fn command_text(raw_input: Option<&Json>, title: &str) -> (r: String)
    ensures
        r@ == command(raw_input.deep_view(), title@),
{
    match input_member(raw_input, "command") {
        Some(c) => c.to_owned(),
        None => title.to_owned(),
    }
}

/// A part of a command, where it is not blank.
pub open spec fn part(cur: Seq<char>) -> Seq<Seq<char>> {
    if text::trim(cur).len() > 0 {
        seq![text::trim(cur)]
    } else {
        Seq::empty()
    }
}

/// The parts of the rest of a command, of which `cur` was read last, inside a quote
/// or not.
pub open spec fn parts_from(s: Seq<char>, quote: Option<char>, cur: Seq<char>) -> Seq<Seq<char>>
    decreases s.len(),
{
    if s.len() == 0 {
        part(cur)
    } else {
        match quote {
            Some(q) => parts_from(
                s.skip(1),
                if s[0] == q {
                    None
                } else {
                    quote
                },
                cur.push(s[0]),
            ),
            None => if s[0] == '\'' || s[0] == '"' {
                parts_from(s.skip(1), Some(s[0]), cur.push(s[0]))
            } else if s[0] == ';' {
                part(cur) + parts_from(s.skip(1), None, Seq::empty())
            } else if s[0] == '&' && s.len() > 1 && s[1] == '&' {
                part(cur) + parts_from(s.skip(2), None, Seq::empty())
            } else {
                parts_from(s.skip(1), None, cur.push(s[0]))
            },
        }
    }
}

/// The parts of a command: it is split at `&&` and `;` outside quotes, and blank parts
/// are left out.
pub open spec fn parts(s: Seq<char>) -> Seq<Seq<char>> {
    parts_from(s, None, Seq::empty())
}

/// Adds a part of a command, where it is not blank.
fn add_part(out: &mut Vec<String>, cur: &str)
    ensures
        final(out).deep_view() == old(out).deep_view() + part(cur@),
{
    let ghost before = out.deep_view();
    let t = text::trimmed(cur);
    if !t.as_str().is_empty() {
        text::push(out, t);
        assert(out.deep_view() =~= before + seq![text::trim(cur@)]);
    } else {
        assert(before + Seq::<Seq<char>>::empty() =~= before);
    }
}

/// The parts of a command.
pub fn split_top_level(command: &str) -> (r: Vec<String>)
    ensures
        r.deep_view() == parts(command@),
{
    let v = text::chars(command);
    let ghost all = command@;
    let mut out: Vec<String> = Vec::new();
    let mut cur = String::new();
    let mut quote: Option<char> = None;
    let mut i: usize = 0;
    proof {
        assert(all.skip(0) =~= all);
        assert(out.deep_view() =~= Seq::empty());
        assert(cur@ =~= Seq::empty());
        assert(Seq::<Seq<char>>::empty() + parts(all) =~= parts(all));
    }
    while i < v.len()
        invariant
            v@ == all,
            i <= v@.len(),
            out.deep_view() + parts_from(all.skip(i as int), quote, cur@) == parts(all),
        decreases v@.len() - i,
    {
        let c = v[i];
        let ghost rest = all.skip(i as int);
        let ghost before = out.deep_view();
        let ghost had = cur@;
        assert(rest[0] == c);
        assert(rest.skip(1) =~= all.skip(i + 1));
        match quote {
            Some(q) => {
                cur.push(c);
                if c == q {
                    quote = None;
                }
                i = i + 1;
            },
            None => if c == '\'' || c == '"' {
                quote = Some(c);
                cur.push(c);
                i = i + 1;
            } else if c == ';' {
                add_part(&mut out, cur.as_str());
                cur = String::new();
                assert(cur@ =~= Seq::empty());
                assert(out.deep_view() + parts_from(rest.skip(1), None, Seq::empty()) =~= before
                    + parts_from(rest, None, had));
                i = i + 1;
            } else if c == '&' && i + 1 < v.len() && v[i + 1] == '&' {
                assert(rest[1] == '&');
                assert(rest.skip(2) =~= all.skip(i + 2));
                add_part(&mut out, cur.as_str());
                cur = String::new();
                assert(cur@ =~= Seq::empty());
                assert(out.deep_view() + parts_from(rest.skip(2), None, Seq::empty()) =~= before
                    + parts_from(rest, None, had));
                i = i + 2;
            } else {
                assert(rest.len() > 1 ==> rest[1] == v@[i + 1]);
                cur.push(c);
                i = i + 1;
            },
        }
    }
    assert(all.skip(i as int).len() == 0);
    add_part(&mut out, cur.as_str());
    out
}

/// Whether a text can be the name of a variable.
pub open spec fn variable_name(s: Seq<char>) -> bool {
    &&& s.len() > 0
    &&& !('0' <= s[0] <= '9')
    &&& forall|i: int|
        0 <= i < s.len() ==> 'a' <= #[trigger] s[i] <= 'z' || 'A' <= s[i] <= 'Z' || '0' <= s[i] <= '9'
            || s[i] == '_'
}

/// Whether a text can be the name of a variable.
fn is_variable_name(s: &str) -> (r: bool)
    ensures
        r == variable_name(s@),
{
    let v = text::chars(s);
    if v.len() == 0 || ('0' <= v[0] && v[0] <= '9') {
        return false;
    }
    for i in 0..v.len()
        invariant
            v@ == s@,
            forall|j: int|
                0 <= j < i ==> 'a' <= #[trigger] v@[j] <= 'z' || 'A' <= v@[j] <= 'Z' || '0' <= v@[j]
                    <= '9' || v@[j] == '_',
    {
        let c = v[i];
        if !(('a' <= c && c <= 'z') || ('A' <= c && c <= 'Z') || ('0' <= c && c <= '9') || c
            == '_') {
            assert(s@[i as int] == c);
            return false;
        }
    }
    true
}

/// Whether a character is a quotation mark.
pub open spec fn mark(c: char) -> bool {
    c == '"' || c == '\''
}

/// A text without quotation marks in front.
pub open spec fn without_marks_in_front(s: Seq<char>) -> Seq<char>
    decreases s.len(),
{
    if s.len() > 0 && mark(s[0]) {
        without_marks_in_front(s.skip(1))
    } else {
        s
    }
}

/// A text without quotation marks at its end.
pub open spec fn without_marks_behind(s: Seq<char>) -> Seq<char>
    decreases s.len(),
{
    if s.len() > 0 && mark(s.last()) {
        without_marks_behind(s.drop_last())
    } else {
        s
    }
}

/// A path without separators at its end.
pub open spec fn without_slashes(s: Seq<char>) -> Seq<char>
    decreases s.len(),
{
    if s.len() > 0 && s.last() == '/' {
        without_slashes(s.drop_last())
    } else {
        s
    }
}

/// A text without the quotation marks around it.
fn unmarked(s: &str) -> (r: String)
    ensures
        r@ == without_marks_behind(without_marks_in_front(s@)),
{
    let v = text::chars(s);
    let ghost all = s@;
    let mut a: usize = 0;
    assert(all.skip(0) =~= all);
    while a < v.len() && (v[a] == '"' || v[a] == '\'')
        invariant
            v@ == all,
            a <= v@.len(),
            without_marks_in_front(all) == without_marks_in_front(all.skip(a as int)),
        decreases v@.len() - a,
    {
        assert(all.skip(a as int)[0] == all[a as int]);
        assert(all.skip(a as int).skip(1) =~= all.skip(a + 1));
        a = a + 1;
    }
    assert(a < v@.len() ==> all.skip(a as int)[0] == all[a as int]);
    let ghost front = all.skip(a as int);
    let mut b: usize = v.len();
    assert(front =~= all.subrange(a as int, b as int));
    while b > a && (v[b - 1] == '"' || v[b - 1] == '\'')
        invariant
            v@ == all,
            a <= b <= v@.len(),
            without_marks_behind(front) == without_marks_behind(all.subrange(a as int, b as int)),
        decreases b,
    {
        assert(all.subrange(a as int, b as int).last() == all[b - 1]);
        assert(all.subrange(a as int, b as int).drop_last() =~= all.subrange(a as int, b - 1));
        b = b - 1;
    }
    assert(b > a ==> all.subrange(a as int, b as int).last() == all[b - 1]);
    text::slice(v.as_slice(), a, b)
}

/// A path without separators at its end.
fn unslashed(s: &str) -> (r: String)
    ensures
        r@ == without_slashes(s@),
{
    let v = text::chars(s);
    let ghost all = s@;
    let mut b: usize = v.len();
    assert(all.take(b as int) =~= all);
    while b > 0 && v[b - 1] == '/'
        invariant
            v@ == all,
            b <= v@.len(),
            without_slashes(all) == without_slashes(all.take(b as int)),
        decreases b,
    {
        assert(all.take(b as int).last() == all[b - 1]);
        assert(all.take(b as int).drop_last() =~= all.take(b - 1));
        b = b - 1;
    }
    assert(b > 0 ==> all.take(b as int).last() == all[b - 1]);
    let r = text::slice(v.as_slice(), 0, b);
    assert(r@ =~= all.take(b as int));
    r
}

/// Whether a part of a command sets a variable.
pub open spec fn assigns(seg: Seq<char>) -> bool {
    let assignment = match text::without_prefix(seg, "export "@) {
        Some(rest) => rest,
        None => seg,
    };
    match text::cut(assignment, "="@) {
        Some((name, _)) => variable_name(name),
        None => false,
    }
}

/// Whether a part of a command goes to a working directory: that of the call, or one
/// of a session.
pub open spec fn goes_home(seg: Seq<char>, cwd: Option<Seq<char>>) -> bool {
    match text::without_prefix(seg, "cd "@) {
        Some(rest) => {
            let target = without_slashes(
                without_marks_behind(without_marks_in_front(text::trim(rest))),
            );
            target.len() > 0 && (cwd matches Some(d) && target == without_slashes(d)
                || text::contains(target, "/.myclaw/sessions/"@))
        },
        None => false,
    }
}

/// Whether a part of a command only leads up to what is done.
pub open spec fn noise(seg: Seq<char>, cwd: Option<Seq<char>>) -> bool {
    assigns(text::trim(seg)) || goes_home(text::trim(seg), cwd)
}

/// Whether a part of a command only leads up to what is done.
pub fn is_noise_prefix(segment: &str, cwd: Option<&str>) -> (r: bool)
    ensures
        r == noise(segment@, cwd.deep_view()),
{
    let seg = text::trimmed(segment);
    let assignment = match text::strip_prefix(seg.as_str(), "export ") {
        Some(rest) => rest,
        None => seg.clone(),
    };
    if let Some((name, _)) = text::split_once(assignment.as_str(), "=") {
        if is_variable_name(name.as_str()) {
            return true;
        }
    }
    let rest = match text::strip_prefix(seg.as_str(), "cd ") {
        Some(r) => r,
        None => {
            return false;
        },
    };
    let target = unslashed(unmarked(text::trimmed(rest.as_str()).as_str()).as_str());
    if target.as_str().is_empty() {
        return false;
    }
    if let Some(d) = cwd {
        if text::same(target.as_str(), unslashed(d).as_str()) {
            return true;
        }
    }
    text::has(target.as_str(), "/.myclaw/sessions/")
}

/// The parts of a command from the first that does something.
pub open spec fn without_noise(parts: Seq<Seq<char>>, cwd: Option<Seq<char>>) -> Seq<Seq<char>>
    decreases parts.len(),
{
    if parts.len() > 0 && noise(parts[0], cwd) {
        without_noise(parts.skip(1), cwd)
    } else {
        parts
    }
}

/// A command without what only leads up to it; the command itself where nothing is
/// left.
pub open spec fn cleaned(command: Seq<char>, cwd: Option<Seq<char>>) -> Seq<char> {
    let kept = without_noise(parts(command), cwd);
    if kept.len() == 0 {
        text::trim(command)
    } else {
        text::join(kept, " && "@)
    }
}

/// A command without what only leads up to it.
pub fn strip_noise_prefix(command: &str, cwd: Option<&str>) -> (r: String)
    ensures
        r@ == cleaned(command@, cwd.deep_view()),
{
    let all = split_top_level(command);
    let ghost p = all.deep_view();
    let mut i: usize = 0;
    assert(p.skip(0) =~= p);
    while i < all.len() && is_noise_prefix(all[i].as_str(), cwd)
        invariant
            p == all.deep_view(),
            i <= all@.len(),
            without_noise(p, cwd.deep_view()) == without_noise(p.skip(i as int), cwd.deep_view()),
        decreases all@.len() - i,
    {
        assert(p.skip(i as int)[0] == all@[i as int]@);
        assert(p.skip(i as int).skip(1) =~= p.skip(i + 1));
        i = i + 1;
    }
    assert(i < all@.len() ==> p.skip(i as int)[0] == all@[i as int]@);
    assert(p.len() == all@.len());
    if i == all.len() {
        return text::trimmed(command);
    }
    let mut kept: Vec<String> = Vec::new();
    for j in i..all.len()
        invariant
            p == all.deep_view(),
            i < all@.len(),
            kept.deep_view() == p.subrange(i as int, j as int),
    {
        assert(p[j as int] == all@[j as int]@);
        text::push(&mut kept, all[j].clone());
        assert(kept.deep_view() =~= p.subrange(i as int, j + 1));
    }
    assert(kept.deep_view() =~= p.skip(i as int));
    text::joined(kept.as_slice(), " && ")
}

/// The words that the `shlex` crate splits a command into, as a shell would; nothing
/// where a quote is not closed or the command ends in an escape.
pub uninterp spec fn shell_words(command: Seq<char>) -> Option<Seq<Seq<char>>>;

/// `shlex::split`: the words of a command. The result, which the command decides, is
/// named `shell_words`.
#[verifier::external_body]
fn split_shell(command: &str) -> (r: Option<Vec<String>>)
    ensures
        r.deep_view() == shell_words(command@),
{
    shlex::split(command)
}

/// The words of what a command does; nothing where it does not parse or is empty.
pub open spec fn command_words(command: Seq<char>, cwd: Option<Seq<char>>) -> Option<Seq<Seq<char>>> {
    match shell_words(cleaned(command, cwd)) {
        Some(words) => if words.len() > 0 {
            Some(words)
        } else {
            None
        },
        None => None,
    }
}

/// The words of what a command does, for the classification of the command; nothing
/// where it does not parse or is empty.
pub fn command_tokens(command: &str, cwd: Option<&str>) -> (r: Option<Vec<String>>)
    ensures
        r.deep_view() == command_words(command@, cwd.deep_view()),
{
    match split_shell(strip_noise_prefix(command, cwd).as_str()) {
        Some(words) => {
            assert(words.deep_view().len() == words@.len());
            if words.len() > 0 {
                Some(words)
            } else {
                None
            }
        },
        None => None,
    }
}

/// What a command was classified as.
#[derive(Debug, PartialEq, Eq)]
#[allow(inconsistent_fields)]
pub enum ParsedCommand {
    Read { name: String },
    ListFiles { path: Option<String> },
    Search { query: Option<String>, path: Option<String> },
    Unknown,
}

/// The words for a classified command; nothing where it is not understood.
pub open spec fn phrase(item: ParsedCommand) -> Option<Seq<char>> {
    match item {
        ParsedCommand::Read { name } => Some("Read "@ + name@),
        ParsedCommand::ListFiles { path } => match path {
            Some(p) => Some("List "@ + p@),
            None => Some("List files"@),
        },
        ParsedCommand::Search { query, path } => match (query, path) {
            (Some(q), Some(p)) => Some("Search \""@ + q@ + "\" in "@ + p@),
            (Some(q), None) => Some("Search \""@ + q@ + "\""@),
            (None, Some(p)) => Some("Search in "@ + p@),
            (None, None) => Some("Search"@),
        },
        ParsedCommand::Unknown => None,
    }
}

/// The words for classified commands; nothing where one is not understood.
pub open spec fn phrases(items: Seq<ParsedCommand>) -> Option<Seq<Seq<char>>>
    decreases items.len(),
{
    if items.len() == 0 {
        Some(Seq::empty())
    } else {
        match (phrases(items.drop_last()), phrase(items.last())) {
            (Some(front), Some(p)) => Some(front.push(p)),
            _ => None,
        }
    }
}

/// The description of classified commands.
pub open spec fn described(items: Seq<ParsedCommand>) -> Option<Seq<char>> {
    match phrases(items) {
        Some(p) => if p.len() > 0 {
            Some(clipped(text::join(p, " · "@)))
        } else {
            None
        },
        None => None,
    }
}

/// The words for a classified command.
fn phrase_of(item: &ParsedCommand) -> (r: Option<String>)
    ensures
        r.deep_view() == phrase(*item),
{
    match item {
        ParsedCommand::Read { name } => Some(text::cat2("Read ", name.as_str())),
        ParsedCommand::ListFiles { path } => match path {
            Some(p) => Some(text::cat2("List ", p.as_str())),
            None => Some("List files".to_owned()),
        },
        ParsedCommand::Search { query, path } => match query {
            Some(q) => match path {
                Some(p) => Some(text::cat4("Search \"", q.as_str(), "\" in ", p.as_str())),
                None => Some(text::cat3("Search \"", q.as_str(), "\"")),
            },
            None => match path {
                Some(p) => Some(text::cat2("Search in ", p.as_str())),
                None => Some("Search".to_owned()),
            },
        },
        ParsedCommand::Unknown => None,
    }
}

/// The description of classified commands; nothing where one is not understood, since
/// the command itself is then more honest.
pub fn describe_parsed(items: &Vec<ParsedCommand>) -> (r: Option<String>)
    ensures
        r.deep_view() == described(items@),
{
    let mut out: Vec<String> = Vec::new();
    assert(out.deep_view() =~= Seq::empty());
    for i in 0..items.len()
        invariant
            phrases(items@.take(i as int)) == Some(out.deep_view()),
    {
        assert(items@.take(i + 1).drop_last() =~= items@.take(i as int));
        assert(items@.take(i + 1).last() == items@[i as int]);
        match phrase_of(&items[i]) {
            Some(p) => {
                text::push(&mut out, p);
            },
            None => {
                proof {
                    unknown_spoils_all(items@, i + 1);
                }
                return None;
            },
        }
    }
    assert(items@.take(items@.len() as int) =~= items@);
    assert(out.deep_view().len() == out@.len());
    if out.len() == 0 {
        None
    } else {
        Some(clip(text::joined(out.as_slice(), " · ").as_str()))
    }
}

/// A row of commands with one that is not understood has no words.
proof fn unknown_spoils_all(items: Seq<ParsedCommand>, n: int)
    requires
        0 <= n <= items.len(),
        phrases(items.take(n)) is None,
    ensures
        phrases(items) is None,
    decreases items.len() - n,
{
    if n < items.len() {
        assert(items.take(n + 1).drop_last() =~= items.take(n));
        unknown_spoils_all(items, n + 1);
    } else {
        assert(items.take(n) =~= items);
    }
}

/// The description of a command that was classified.
pub open spec fn command_description(
    command: Seq<char>,
    cwd: Option<Seq<char>>,
    parsed: Seq<ParsedCommand>,
) -> Option<Seq<char>> {
    if command_words(command, cwd) is Some {
        described(parsed)
    } else {
        None
    }
}

/// The description of a command whose words, as `command_tokens` gives them, were
/// classified as `parsed`.
pub fn describe_command_in(command: &str, cwd: Option<&str>, parsed: &Vec<ParsedCommand>) -> (r: Option<
    String,
>)
    ensures
        r.deep_view() == command_description(command@, cwd.deep_view(), parsed@),
{
    match command_tokens(command, cwd) {
        Some(_) => describe_parsed(parsed),
        None => None,
    }
}

/// The description of a command of which no working directory is known.
pub fn describe_command(command: &str, parsed: &Vec<ParsedCommand>) -> (r: Option<String>)
    ensures
        r.deep_view() == command_description(command@, None, parsed@),
{
    describe_command_in(command, None, parsed)
}

/// Whether a call runs a command.
pub open spec fn executes(kind: Option<Seq<char>>) -> bool {
    match kind {
        Some(k) => k == "execute"@ || k == "exec"@,
        None => true,
    }
}

/// The description of a tool call.
pub open spec fn call_description(
    title: Seq<char>,
    kind: Option<Seq<char>>,
    input: Option<JsonView>,
    parsed: Seq<ParsedCommand>,
) -> Option<Seq<char>> {
    if written_by_model(input) is Some {
        written_by_model(input)
    } else if title_of_command(input) is Some {
        title_of_command(input)
    } else if process_call(title, input) is Some {
        process_call(title, input)
    } else if !executes(kind) {
        None
    } else {
        let line = command(input, title);
        match command_description(line, cwd(input), parsed) {
            Some(d) => Some(d),
            None => if cleaned(line, cwd(input)) != text::trim(line) {
                Some(clipped(cleaned(line, cwd(input))))
            } else {
                None
            },
        }
    }
}

/// The words of the command of a tool call, for its classification.
pub fn call_tokens(title: &str, raw_input: Option<&Json>) -> (r: Option<Vec<String>>)
    ensures
        r.deep_view() == command_words(
            command(raw_input.deep_view(), title@),
            cwd(raw_input.deep_view()),
        ),
{
    let line = command_text(raw_input, title);
    let dir = cwd_of(raw_input);
    command_tokens(line.as_str(), text::borrowed(&dir))
}

/// The description of a tool call, of whose command the words, as `call_tokens` gives
/// them, were classified as `parsed`. `title` is the call's title, mostly the command.
pub fn describe_tool_call(
    title: &str,
    kind: Option<&str>,
    raw_input: Option<&Json>,
    parsed: &Vec<ParsedCommand>,
) -> (r: Option<String>)
    ensures
        r.deep_view() == call_description(
            title@,
            kind.deep_view(),
            raw_input.deep_view(),
            parsed@,
        ),
{
    if let Some(d) = model_written(raw_input) {
        return Some(d);
    }
    if let Some(d) = command_title(raw_input) {
        return Some(d);
    }
    if let Some(d) = describe_openclaw_process(title, raw_input) {
        return Some(d);
    }
    let exec = match kind {
        Some(k) => text::same(k, "execute") || text::same(k, "exec"),
        None => true,
    };
    if !exec {
        return None;
    }
    let line = command_text(raw_input, title);
    let dir = cwd_of(raw_input);
    if let Some(d) = describe_command_in(line.as_str(), text::borrowed(&dir), parsed) {
        return Some(d);
    }
    let clean = strip_noise_prefix(line.as_str(), text::borrowed(&dir));
    if !text::same(clean.as_str(), text::trimmed(line.as_str()).as_str()) {
        return Some(clip(clean.as_str()));
    }
    None
}

/// A description fits in its line.
pub proof fn descriptions_fit(s: Seq<char>)
    ensures
        clipped(s).len() <= MAX_LEN,
{
    reveal_strlit("…");
}

/// Parts of a command are not empty.
proof fn parts_are_filled(s: Seq<char>, quote: Option<char>, cur: Seq<char>, i: int)
    requires
        0 <= i < parts_from(s, quote, cur).len(),
    ensures
        parts_from(s, quote, cur)[i].len() > 0,
    decreases s.len(),
{
    if s.len() > 0 {
        match quote {
            Some(q) => parts_are_filled(
                s.skip(1),
                if s[0] == q {
                    None
                } else {
                    quote
                },
                cur.push(s[0]),
                i,
            ),
            None => if s[0] == '\'' || s[0] == '"' {
                parts_are_filled(s.skip(1), Some(s[0]), cur.push(s[0]), i);
            } else if s[0] == ';' || (s[0] == '&' && s.len() > 1 && s[1] == '&') {
                let n = part(cur).len();
                if i >= n {
                    let rest = if s[0] == ';' {
                        s.skip(1)
                    } else {
                        s.skip(2)
                    };
                    parts_are_filled(rest, None, Seq::empty(), i - n);
                }
            } else {
                parts_are_filled(s.skip(1), None, cur.push(s[0]), i);
            },
        }
    }
}

/// What is left of the parts is an end of them.
proof fn left_parts_are_last(all: Seq<Seq<char>>, cwd: Option<Seq<char>>)
    ensures
        without_noise(all, cwd).len() <= all.len(),
        without_noise(all, cwd) == all.skip(all.len() - without_noise(all, cwd).len()),
    decreases all.len(),
{
    if all.len() > 0 && noise(all[0], cwd) {
        left_parts_are_last(all.skip(1), cwd);
        let n = without_noise(all, cwd).len();
        assert(all.skip(1).skip(all.len() - 1 - n) =~= all.skip(all.len() - n));
    } else {
        assert(all.skip(0) =~= all);
    }
}

/// Joined texts are as long as the last of them at least.
proof fn join_keeps_the_last(p: Seq<Seq<char>>, sep: Seq<char>)
    requires
        p.len() > 0,
    ensures
        text::join(p, sep).len() >= p.last().len(),
{
}

/// A command never vanishes: what is left of one that is not blank is not empty.
pub proof fn cleaning_leaves_a_command(command: Seq<char>, cwd: Option<Seq<char>>)
    requires
        text::trim(command).len() > 0,
    ensures
        cleaned(command, cwd).len() > 0,
{
    let all = parts(command);
    let kept = without_noise(all, cwd);
    left_parts_are_last(all, cwd);
    if kept.len() > 0 {
        assert(kept.last() == all[all.len() - 1]);
        parts_are_filled(command, None, Seq::empty(), all.len() - 1);
        join_keeps_the_last(kept, " && "@);
    }
}

/// How a text stands that is read outside quotes from its first character: the quote
/// that is open at its end, and whether it ends with an `&` outside quotes. Nothing
/// where the text is split before its end.
pub open spec fn scan(s: Seq<char>) -> Option<(Option<char>, bool)>
    decreases s.len(),
{
    if s.len() == 0 {
        Some((None, false))
    } else {
        let c = s.last();
        match scan(s.drop_last()) {
            None => None,
            Some((Some(q), _)) => Some(
                (
                    if c == q {
                        None
                    } else {
                        Some(q)
                    },
                    false,
                ),
            ),
            Some((None, amp)) => if c == '\'' || c == '"' {
                Some((Some(c), false))
            } else if c == ';' || (c == '&' && amp) {
                None
            } else {
                Some((None, c == '&'))
            },
        }
    }
}

/// The quote that is open at the end of a text, if one is.
pub open spec fn open_quote(s: Seq<char>) -> Option<char> {
    match scan(s) {
        Some((quote, _)) => quote,
        None => None,
    }
}

/// The beginning of a text that is not split is not split.
proof fn scan_of_prefix(a: Seq<char>, b: Seq<char>)
    requires
        scan(a + b) is Some,
    ensures
        scan(a) is Some,
    decreases b.len(),
{
    if b.len() == 0 {
        assert(a + b =~= a);
    } else {
        assert((a + b).drop_last() =~= a + b.drop_last());
        scan_of_prefix(a, b.drop_last());
    }
}

/// White space in front of a text changes nothing about how it stands.
proof fn scan_of_white_front(c: char, s: Seq<char>)
    requires
        text::white(c),
    ensures
        scan(seq![c] + s) == scan(s),
    decreases s.len(),
{
    let t = seq![c] + s;
    if s.len() == 0 {
        assert(t =~= seq![c]);
        assert(t.drop_last() =~= Seq::empty());
        assert(scan(t.drop_last()) == Some((None::<char>, false)));
    } else {
        assert(t.drop_last() =~= seq![c] + s.drop_last());
        assert(t.last() == s.last());
        scan_of_white_front(c, s.drop_last());
    }
}

/// Leading white space changes nothing about how a text stands.
proof fn scan_of_trim_start(s: Seq<char>)
    ensures
        scan(text::trim_start(s)) == scan(s),
    decreases s.len(),
{
    if s.len() > 0 && text::white(s[0]) {
        scan_of_trim_start(s.skip(1));
        scan_of_white_front(s[0], s.skip(1));
        assert(s =~= seq![s[0]] + s.skip(1));
    }
}

/// White space at the end of a text leaves its quote as it is.
proof fn scan_of_trim_end(s: Seq<char>)
    requires
        scan(s) is Some,
    ensures
        scan(text::trim_end(s)) is Some,
        open_quote(text::trim_end(s)) == open_quote(s),
    decreases s.len(),
{
    if s.len() > 0 && text::white(s.last()) {
        scan_of_trim_end(s.drop_last());
        match scan(s.drop_last()) {
            Some((Some(q), _)) => {
                quotes_are_marks(s.drop_last());
            },
            _ => {},
        }
    }
}

/// An open quote is a quotation mark.
proof fn quotes_are_marks(s: Seq<char>)
    requires
        scan(s) matches Some((Some(_), _)),
    ensures
        mark(open_quote(s)->0),
    decreases s.len(),
{
    if s.len() > 0 {
        match scan(s.drop_last()) {
            Some((Some(_), _)) => quotes_are_marks(s.drop_last()),
            _ => {},
        }
    }
}

/// Whether texts can be the parts of a command: none is blank or has white space around
/// it, none is split further, and only the last may leave a quote open.
pub open spec fn well_cut(list: Seq<Seq<char>>) -> bool {
    &&& forall|i: int|
        0 <= i < list.len() ==> text::tight(#[trigger] list[i]) && scan(list[i]) is Some
    &&& forall|i: int|
        0 <= i < list.len() - 1 ==> scan(#[trigger] list[i]) matches Some((None, _))
}

/// A part that is cut off where no quote is open goes before well cut ones.
proof fn cutting_off(cur: Seq<char>, rest: Seq<Seq<char>>)
    requires
        scan(cur) matches Some((None, _)),
        well_cut(rest),
    ensures
        well_cut(part(cur) + rest),
{
    text::trimmed_is_tight(cur);
    scan_of_trim_start(cur);
    scan_of_trim_end(text::trim_start(cur));
    let all = part(cur) + rest;
    let n = part(cur).len();
    assert forall|i: int| 0 <= i < all.len() implies text::tight(#[trigger] all[i]) && scan(
        all[i],
    ) is Some by {
        if i >= n {
            assert(all[i] == rest[i - n]);
        }
    }
    assert forall|i: int| 0 <= i < all.len() - 1 implies scan(
        #[trigger] all[i],
    ) matches Some((None, _)) by {
        if i >= n {
            assert(all[i] == rest[i - n]);
        }
    }
}

/// The parts of a command are well cut.
proof fn parts_are_well_cut(s: Seq<char>, quote: Option<char>, cur: Seq<char>)
    requires
        scan(cur) matches Some((q, amp)) && q == quote && !(amp && s.len() > 0 && s[0] == '&'),
    ensures
        well_cut(parts_from(s, quote, cur)),
    decreases s.len(),
{
    if s.len() == 0 {
        text::trimmed_is_tight(cur);
        scan_of_trim_start(cur);
        scan_of_trim_end(text::trim_start(cur));
    } else {
        let c = s[0];
        assert(cur.push(c).drop_last() =~= cur);
        assert(s.len() > 1 ==> s.skip(1)[0] == s[1]);
        match quote {
            Some(q) => parts_are_well_cut(
                s.skip(1),
                if c == q {
                    None
                } else {
                    quote
                },
                cur.push(c),
            ),
            None => if c == '\'' || c == '"' {
                parts_are_well_cut(s.skip(1), Some(c), cur.push(c));
            } else if c == ';' {
                parts_are_well_cut(s.skip(1), None, Seq::empty());
                cutting_off(cur, parts_from(s.skip(1), None, Seq::empty()));
            } else if c == '&' && s.len() > 1 && s[1] == '&' {
                parts_are_well_cut(s.skip(2), None, Seq::empty());
                cutting_off(cur, parts_from(s.skip(2), None, Seq::empty()));
            } else {
                parts_are_well_cut(s.skip(1), None, cur.push(c));
            },
        }
    }
}

/// A text that is not split is read to its end.
proof fn reads_on(s: Seq<char>, t: Seq<char>, quote: Option<char>, cur: Seq<char>)
    requires
        scan(cur) matches Some((q, _)) && q == quote,
        scan(cur + s) is Some,
        t.len() == 0 || t[0] != '&',
    ensures
        parts_from(s + t, quote, cur) == parts_from(t, open_quote(cur + s), cur + s),
    decreases s.len(),
{
    if s.len() == 0 {
        assert(s + t =~= t);
        assert(cur + s =~= cur);
    } else {
        let c = s[0];
        let all = s + t;
        let rest = s.skip(1);
        assert(cur.push(c).drop_last() =~= cur);
        assert(cur + s =~= cur.push(c) + rest);
        assert(all.skip(1) =~= rest + t);
        assert(all[0] == c);
        scan_of_prefix(cur.push(c), rest);
        if s.len() > 1 {
            assert(cur.push(c) + rest =~= cur.push(c).push(s[1]) + s.skip(2));
            scan_of_prefix(cur.push(c).push(s[1]), s.skip(2));
            assert(cur.push(c).push(s[1]).drop_last() =~= cur.push(c));
            assert(all[1] == s[1]);
        } else if t.len() > 0 {
            assert(all[1] == t[0]);
        }
        reads_on(rest, t, open_quote(cur.push(c)), cur.push(c));
    }
}

/// A part with white space around it is that part.
proof fn part_of_padded(front: Seq<char>, p: Seq<char>, behind: Seq<char>)
    requires
        text::tight(p),
        front.len() <= 1,
        front.len() == 1 ==> text::white(front[0]),
        behind.len() <= 1,
        behind.len() == 1 ==> text::white(behind[0]),
    ensures
        part(front + p + behind) == seq![p],
{
    let whole = front + p + behind;
    text::trimmed_is_tight(p);
    let left = front + p;
    assert(text::trim(left) == p) by {
        if front.len() == 1 {
            assert(left =~= seq![front[0]] + p);
            text::trim_drops_front(front[0], p);
        } else {
            assert(left =~= p);
        }
    }
    assert(text::trim(whole) == p) by {
        if behind.len() == 1 {
            assert(whole =~= left.push(behind[0]));
            text::trim_drops_behind(left, behind[0]);
        } else {
            assert(whole =~= left);
        }
    }
}

/// Well cut parts that are joined are split into the same parts again.
proof fn joined_parts_split_again(list: Seq<Seq<char>>, pre: Seq<char>)
    requires
        well_cut(list),
        list.len() > 0,
        pre.len() <= 1,
        pre.len() == 1 ==> pre[0] == ' ',
    ensures
        parts_from(text::join(list, " && "@), None, pre) == list,
    decreases list.len(),
{
    let p = list[0];
    let none = Seq::<char>::empty();
    assert(scan(pre) == Some((None::<char>, false)) && scan(pre + p) == scan(p)) by {
        if pre.len() == 1 {
            scan_of_white_front(' ', none);
            assert(pre =~= seq![' '] + none);
            scan_of_white_front(' ', p);
            assert(pre + p =~= seq![' '] + p);
        } else {
            assert(pre =~= none);
            assert(pre + p =~= p);
        }
    }
    if list.len() == 1 {
        reads_on(p, none, None, pre);
        assert(p + none =~= p);
        assert(pre + p + none =~= pre + p);
        part_of_padded(pre, p, none);
        assert(list =~= seq![p]);
    } else {
        let rest = list.skip(1);
        let more = text::join(rest, " && "@);
        let t = " && "@ + more;
        reveal_strlit(" && ");
        assert(" && "@.len() == 4 && " && "@[0] == ' ' && " && "@[1] == '&' && " && "@[2] == '&'
            && " && "@[3] == ' ');
        text::join_from_front(list, " && "@);
        assert(p + " && "@ + more =~= p + t);
        reads_on(p, t, None, pre);
        let had = pre + p;
        let u = t.skip(1);
        assert(u[0] == '&' && u[1] == '&');
        assert(parts_from(t, None, had) == parts_from(u, None, had.push(' ')));
        let v = u.skip(2);
        assert(v[0] == ' ');
        assert(v.skip(1) =~= more);
        assert(none.push(' ') =~= seq![' ']);
        assert(parts_from(v, None, none) == parts_from(more, None, seq![' ']));
        assert(had.push(' ') =~= pre + p + seq![' ']);
        part_of_padded(pre, p, seq![' ']);
        assert forall|i: int| 0 <= i < rest.len() implies text::tight(#[trigger] rest[i]) && scan(
            rest[i],
        ) is Some by {
            assert(rest[i] == list[i + 1]);
        }
        assert forall|i: int| 0 <= i < rest.len() - 1 implies scan(
            #[trigger] rest[i],
        ) matches Some((None, _)) by {
            assert(rest[i] == list[i + 1]);
        }
        joined_parts_split_again(rest, seq![' ']);
        assert(seq![p] + rest =~= list);
    }
}

/// The parts that are left are well cut, and the first does something.
proof fn kept_parts_are_well_cut(list: Seq<Seq<char>>, cwd: Option<Seq<char>>)
    requires
        well_cut(list),
    ensures
        well_cut(without_noise(list, cwd)),
        without_noise(list, cwd).len() > 0 ==> !noise(without_noise(list, cwd)[0], cwd),
    decreases list.len(),
{
    if list.len() > 0 && noise(list[0], cwd) {
        let rest = list.skip(1);
        assert forall|i: int| 0 <= i < rest.len() implies text::tight(#[trigger] rest[i]) && scan(
            rest[i],
        ) is Some by {
            assert(rest[i] == list[i + 1]);
        }
        assert forall|i: int| 0 <= i < rest.len() - 1 implies scan(
            #[trigger] rest[i],
        ) matches Some((None, _)) by {
            assert(rest[i] == list[i + 1]);
        }
        kept_parts_are_well_cut(rest, cwd);
    }
}

/// White space that was read before a part does not count.
proof fn parts_after_white(s: Seq<char>, quote: Option<char>, c: char, cur: Seq<char>)
    requires
        text::white(c),
    ensures
        parts_from(s, quote, seq![c] + cur) == parts_from(s, quote, cur),
    decreases s.len(),
{
    text::trim_drops_front(c, cur);
    if s.len() > 0 {
        assert((seq![c] + cur).push(s[0]) =~= seq![c] + cur.push(s[0]));
        match quote {
            Some(q) => parts_after_white(
                s.skip(1),
                if s[0] == q {
                    None
                } else {
                    quote
                },
                c,
                cur.push(s[0]),
            ),
            None => if s[0] == '\'' || s[0] == '"' {
                parts_after_white(s.skip(1), Some(s[0]), c, cur.push(s[0]));
            } else if !(s[0] == ';' || (s[0] == '&' && s.len() > 1 && s[1] == '&')) {
                parts_after_white(s.skip(1), None, c, cur.push(s[0]));
            },
        }
    }
}

/// White space behind a command does not count.
proof fn parts_before_white(s: Seq<char>, c: char, quote: Option<char>, cur: Seq<char>)
    requires
        text::white(c),
        quote matches Some(q) ==> mark(q),
    ensures
        parts_from(s.push(c), quote, cur) == parts_from(s, quote, cur),
    decreases s.len(),
{
    let all = s.push(c);
    if s.len() == 0 {
        assert(all.skip(1) =~= s);
        text::trim_drops_behind(cur, c);
        assert(parts_from(all, quote, cur) == parts_from(s, quote, cur.push(c)));
    } else {
        assert(all.skip(1) =~= s.skip(1).push(c));
        assert(all[0] == s[0]);
        if s.len() > 1 {
            assert(all[1] == s[1]);
            assert(all.skip(2) =~= s.skip(2).push(c));
        } else {
            assert(all[1] == c);
        }
        match quote {
            Some(q) => parts_before_white(
                s.skip(1),
                c,
                if s[0] == q {
                    None
                } else {
                    quote
                },
                cur.push(s[0]),
            ),
            None => if s[0] == '\'' || s[0] == '"' {
                parts_before_white(s.skip(1), c, Some(s[0]), cur.push(s[0]));
            } else if s[0] == ';' {
                parts_before_white(s.skip(1), c, None, Seq::empty());
            } else if s[0] == '&' && s.len() > 1 && s[1] == '&' {
                parts_before_white(s.skip(2), c, None, Seq::empty());
            } else {
                parts_before_white(s.skip(1), c, None, cur.push(s[0]));
            },
        }
    }
}

/// White space in front of a command does not count.
proof fn parts_of_trim_start(s: Seq<char>)
    ensures
        parts(text::trim_start(s)) == parts(s),
    decreases s.len(),
{
    if s.len() > 0 && text::white(s[0]) {
        let none = Seq::<char>::empty();
        parts_of_trim_start(s.skip(1));
        assert(none.push(s[0]) =~= seq![s[0]] + none);
        parts_after_white(s.skip(1), None, s[0], none);
    }
}

/// White space at the end of a command does not count.
proof fn parts_of_trim_end(s: Seq<char>)
    ensures
        parts(text::trim_end(s)) == parts(s),
    decreases s.len(),
{
    if s.len() > 0 && text::white(s.last()) {
        parts_of_trim_end(s.drop_last());
        assert(s =~= s.drop_last().push(s.last()));
        parts_before_white(s.drop_last(), s.last(), None, Seq::empty());
    }
}

/// Cleaning a cleaned command changes nothing.
pub proof fn cleaning_once_is_enough(command: Seq<char>, cwd: Option<Seq<char>>)
    ensures
        cleaned(cleaned(command, cwd), cwd) == cleaned(command, cwd),
{
    let kept = without_noise(parts(command), cwd);
    if kept.len() == 0 {
        parts_of_trim_start(command);
        parts_of_trim_end(text::trim_start(command));
        text::trimmed_is_tight(command);
    } else {
        parts_are_well_cut(command, None, Seq::empty());
        kept_parts_are_well_cut(parts(command), cwd);
        joined_parts_split_again(kept, Seq::empty());
    }
}

} // verus!
