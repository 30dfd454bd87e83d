//! What the descriptions of tool calls promise.
use vstd::prelude::*;
use crate::json::JsonView;
use crate::text;
use crate::text_laws;
use crate::tool_description;
use crate::tool_description::ParsedCommand;

verus! {

/// A text of up to seventy-two characters is shown whole, without the white space around it;
/// of a longer one the first seventy-one characters are shown, and an ellipsis.
pub proof fn long_texts_are_cut(s: Seq<char>)
    ensures
        text::trim(s).len() <= 72 ==> tool_description::clipped(s) == text::trim(s),
        text::trim(s).len() > 72 ==> tool_description::clipped(s) == text::trim(s).take(71) + seq![
            '…',
        ],
{
    reveal_strlit("…");
    assert("…"@ =~= seq!['…']);
}

/// A text that says something.
pub open spec fn says(v: JsonView) -> bool {
    v is Str && text::trim(v->Str_0).len() > 0
}

/// The words of the model come first: its description, or else its summary. The title of a
/// command comes next.
pub proof fn the_words_of_the_model_come_first(
    title: Seq<char>,
    kind: Option<Seq<char>>,
    input: JsonView,
    parsed: Seq<ParsedCommand>,
)
    ensures
        ({
            let shown = tool_description::call_description(title, kind, Some(input), parsed);
            &&& says(input.at("description"@)) ==> shown == Some(
                tool_description::clipped(input.at("description"@)->Str_0),
            )
            &&& !says(input.at("description"@)) && says(input.at("summary"@)) ==> shown == Some(
                tool_description::clipped(input.at("summary"@)->Str_0),
            )
            &&& !says(input.at("description"@)) && !says(input.at("summary"@)) && input.at(
                "command"@,
            ) is Str && says(input.at("title"@)) ==> shown == Some(
                tool_description::clipped(input.at("title"@)->Str_0),
            )
        }),
{
}

/// A call of the process tool is described by its action and the process that it is about.
pub proof fn process_calls_are_described(rest: Seq<char>, input: JsonView, action: Seq<char>)
    requires
        input.at("action"@) == JsonView::Str(action),
    ensures
        ({
            let shown = tool_description::process_call("process"@ + ":"@ + rest, Some(input));
            let named = says(input.at("sessionId"@));
            let id = text::trim(input.at("sessionId"@)->Str_0);
            let act = text::trim(action);
            &&& act == "list"@ ==> shown == Some(
                tool_description::clipped("List background processes"@),
            )
            &&& act == "poll"@ ==> shown == Some(
                tool_description::clipped(
                    if named {
                        "Check"@ + " "@ + id
                    } else {
                        "Check a background process"@
                    },
                ),
            )
            &&& act == "log"@ ==> shown == Some(
                tool_description::clipped(
                    if named {
                        "Read output of"@ + " "@ + id
                    } else {
                        "Read process output"@
                    },
                ),
            )
            &&& act == "write"@ || act == "submit"@ || act == "paste"@ || act == "send-keys"@
                ==> shown == Some(
                tool_description::clipped(
                    if named {
                        "Send input to"@ + " "@ + id
                    } else {
                        "Send input to a process"@
                    },
                ),
            )
            &&& act == "kill"@ ==> shown == Some(
                tool_description::clipped(
                    if named {
                        "Stop"@ + " "@ + id
                    } else {
                        "Stop a background process"@
                    },
                ),
            )
            &&& act == "clear"@ ==> shown == Some(
                tool_description::clipped(
                    if named {
                        "Clear output of"@ + " "@ + id
                    } else {
                        "Clear process output"@
                    },
                ),
            )
            &&& act == "remove"@ ==> shown == Some(
                tool_description::clipped(
                    if named {
                        "Remove"@ + " "@ + id
                    } else {
                        "Remove a background process"@
                    },
                ),
            )
        }),
{
    reveal_strlit("process");
    reveal_strlit(":");
    let p = "process"@;
    assert(p.len() == 7);
    assert(!p.contains(':'));
    text_laws::splitting_leaves_one(p, ':');
    text_laws::splitting_adds_up(p, ':', rest);
    assert("process"@ + ":"@ + rest =~= p.push(':') + rest);
    assert(text::split("process"@ + ":"@ + rest, ':')[0] == p);
    reveal_with_fuel(text::trim_start, 1);
    reveal_with_fuel(text::trim_end, 1);
    assert(p[0] == 'p');
    assert(p[6] == 's');
    assert(text::trim(p) == p);
    actions_are_apart();
}

/// The actions differ in length or in their first letter.
proof fn actions_are_apart()
    ensures
        "list"@.len() == 4 && "list"@[0] == 'l',
        "poll"@.len() == 4 && "poll"@[0] == 'p',
        "log"@.len() == 3,
        "write"@.len() == 5 && "write"@[0] == 'w',
        "submit"@.len() == 6 && "submit"@[0] == 's',
        "paste"@.len() == 5 && "paste"@[0] == 'p',
        "send-keys"@.len() == 9,
        "kill"@.len() == 4 && "kill"@[0] == 'k',
        "clear"@.len() == 5 && "clear"@[0] == 'c',
        "remove"@.len() == 6 && "remove"@[0] == 'r',
{
    reveal_strlit("list");
    reveal_strlit("poll");
    reveal_strlit("log");
    reveal_strlit("write");
    reveal_strlit("submit");
    reveal_strlit("paste");
    reveal_strlit("send-keys");
    reveal_strlit("kill");
    reveal_strlit("clear");
    reveal_strlit("remove");
}

/// A call that runs in a directory names it under one of three names, the first of which
/// counts; its command is the one that it holds, or else its title.
pub proof fn commands_are_read(input: JsonView, title: Seq<char>)
    ensures
        input.at("cwd"@) is Str ==> tool_description::cwd(Some(input)) == Some(
            input.at("cwd"@)->Str_0,
        ),
        !(input.at("cwd"@) is Str) && input.at("workdir"@) is Str ==> tool_description::cwd(
            Some(input),
        ) == Some(input.at("workdir"@)->Str_0),
        !(input.at("cwd"@) is Str) && !(input.at("workdir"@) is Str) && input.at("working_dir"@) is Str
            ==> tool_description::cwd(Some(input)) == Some(input.at("working_dir"@)->Str_0),
        input.at("command"@) is Str ==> tool_description::command(Some(input), title) == input.at(
            "command"@,
        )->Str_0,
        !(input.at("command"@) is Str) ==> tool_description::command(Some(input), title) == title,
        tool_description::command(None, title) == title,
{
}

/// A text without quotes and without what ends a command.
pub open spec fn bare(s: Seq<char>) -> bool {
    forall|i: int|
        0 <= i < s.len() ==> #[trigger] s[i] != '\'' && s[i] != '"' && s[i] != ';' && s[i] != '&'
}

/// A bare text goes to the part that is read.
proof fn bare_texts_are_read(a: Seq<char>, s: Seq<char>, cur: Seq<char>)
    requires
        bare(a),
    ensures
        tool_description::parts_from(a + s, None, cur) == tool_description::parts_from(
            s,
            None,
            cur + a,
        ),
    decreases a.len(),
{
    if a.len() == 0 {
        assert(a + s =~= s);
        assert(cur + a =~= cur);
    } else {
        assert(a[0] != ';');
        let rest = a.skip(1);
        assert forall|i: int| 0 <= i < rest.len() implies #[trigger] rest[i] != '\'' && rest[i]
            != '"' && rest[i] != ';' && rest[i] != '&' by {
            assert(rest[i] == a[i + 1]);
        }
        bare_texts_are_read(rest, s, cur.push(a[0]));
        assert((a + s).skip(1) =~= rest + s);
        assert(cur.push(a[0]) + rest =~= cur + a);
    }
}

/// A quoted text goes to the part that is read, whatever it holds.
proof fn quoted_texts_are_read(inner: Seq<char>, q: char, s: Seq<char>, cur: Seq<char>)
    requires
        !inner.contains(q),
    ensures
        tool_description::parts_from(inner + seq![q] + s, Some(q), cur)
            == tool_description::parts_from(s, None, cur + inner + seq![q]),
    decreases inner.len(),
{
    let all = inner + seq![q] + s;
    if inner.len() == 0 {
        assert(all[0] == q);
        assert(all.skip(1) =~= s);
        assert(cur.push(q) =~= cur + inner + seq![q]);
    } else {
        let rest = inner.skip(1);
        assert(inner.contains(inner[0]));
        assert(!rest.contains(q)) by {
            if rest.contains(q) {
                let k = choose|k: int| 0 <= k < rest.len() && rest[k] == q;
                assert(inner[k + 1] == q);
            }
        }
        quoted_texts_are_read(rest, q, s, cur.push(inner[0]));
        assert(all.skip(1) =~= rest + seq![q] + s);
        assert(cur.push(inner[0]) + rest + seq![q] =~= cur + inner + seq![q]);
    }
}

/// What is kept of a part: its text without the white space around it, if any is left.
pub open spec fn kept(s: Seq<char>) -> Seq<Seq<char>> {
    if text::trim(s).len() > 0 {
        seq![text::trim(s)]
    } else {
        seq![]
    }
}

/// A command falls into parts at `;` and at `&&`; a command without these is one part.
pub proof fn commands_fall_into_parts(a: Seq<char>, b: Seq<char>)
    requires
        bare(a),
    ensures
        tool_description::parts(a) == kept(a),
        tool_description::parts(a + seq![';'] + b) == kept(a) + tool_description::parts(b),
        tool_description::parts(a + seq!['&', '&'] + b) == kept(a) + tool_description::parts(b),
{
    let none = Seq::<char>::empty();
    assert(none + a =~= a);
    bare_texts_are_read(a, none, none);
    assert(a + none =~= a);
    bare_texts_are_read(a, seq![';'] + b, none);
    assert(a + seq![';'] + b =~= a + (seq![';'] + b));
    assert((seq![';'] + b).skip(1) =~= b);
    bare_texts_are_read(a, seq!['&', '&'] + b, none);
    assert(a + seq!['&', '&'] + b =~= a + (seq!['&', '&'] + b));
    assert((seq!['&', '&'] + b).skip(2) =~= b);
}

/// What is quoted stays in its part, though it holds `;` or `&&`.
pub proof fn quotes_hold_together(a: Seq<char>, q: char, inner: Seq<char>, b: Seq<char>, c: Seq<char>)
    requires
        bare(a),
        q == '\'' || q == '"',
        !inner.contains(q),
        bare(b),
    ensures
        tool_description::parts(a + seq![q] + inner + seq![q] + b) == kept(
            a + seq![q] + inner + seq![q] + b,
        ),
        tool_description::parts(a + seq![q] + inner + seq![q] + b + seq![';'] + c) == kept(
            a + seq![q] + inner + seq![q] + b,
        ) + tool_description::parts(c),
{
    let none = Seq::<char>::empty();
    let front = a + seq![q] + inner + seq![q];
    quoted_front(a, q, inner, b);
    bare_texts_are_read(b, none, front);
    assert(b + none =~= b);
    assert(front + b =~= a + seq![q] + inner + seq![q] + b);
    let tail = b + (seq![';'] + c);
    quoted_front(a, q, inner, tail);
    assert(front + tail =~= a + seq![q] + inner + seq![q] + b + seq![';'] + c);
    bare_texts_are_read(b, seq![';'] + c, front);
    assert((seq![';'] + c).skip(1) =~= c);
}

/// A quoted text behind a bare one is read to its end.
proof fn quoted_front(a: Seq<char>, q: char, inner: Seq<char>, s: Seq<char>)
    requires
        bare(a),
        q == '\'' || q == '"',
        !inner.contains(q),
    ensures
        tool_description::parts(a + seq![q] + inner + seq![q] + s) == tool_description::parts_from(
            s,
            None,
            a + seq![q] + inner + seq![q],
        ),
{
    let none = Seq::<char>::empty();
    let behind = inner + seq![q] + s;
    assert(a + seq![q] + inner + seq![q] + s =~= a + (seq![q] + behind));
    bare_texts_are_read(a, seq![q] + behind, none);
    assert(none + a =~= a);
    assert((seq![q] + behind).skip(1) =~= behind);
    assert(a.push(q) =~= a + seq![q]);
    quoted_texts_are_read(inner, q, s, a.push(q));
}

/// A name of a variable: letters, digits and underscores, no digit first.
pub open spec fn names_a_variable(s: Seq<char>) -> bool {
    &&& s.len() > 0
    &&& !('0' <= s[0] <= '9')
    &&& forall|i: int|
        0 <= i < s.len() ==> ('a' <= #[trigger] s[i] <= 'z' || 'A' <= s[i] <= 'Z' || '0' <= s[i]
            <= '9' || s[i] == '_')
}

/// Setting a variable is noise, exported or not; what sets none and goes nowhere is not.
pub proof fn assignments_are_noise(name: Seq<char>, value: Seq<char>, cwd: Option<Seq<char>>, part: Seq<char>)
    requires
        text::tight(name + "="@ + value),
    ensures
        names_a_variable(name) ==> tool_description::noise(name + "="@ + value, cwd)
            && tool_description::noise("export "@ + (name + "="@ + value), cwd),
        !text::contains(text::trim(part), "="@) && !text::begins(text::trim(part), "cd "@)
            ==> !tool_description::noise(part, cwd),
{
    reveal_strlit("=");
    let seg = name + "="@ + value;
    text::trimmed_is_tight(seg);
    if names_a_variable(name) {
        assert(!text::begins(seg, "export "@)) by {
            reveal_strlit("export ");
            let e = "export "@;
            assert(e.len() == 7);
            assert(e[6] == ' ');
            if text::begins(seg, e) {
                assert(seg.take(7)[6] == ' ');
                assert(seg[6] == ' ');
                if name.len() > 6 {
                    assert(name[6] == ' ');
                } else {
                    assert(seg[name.len() as int] == '=');
                    assert(seg.take(7)[name.len() as int] == '=');
                    assert(e[0] == 'e' && e[1] == 'x' && e[2] == 'p' && e[3] == 'o' && e[4] == 'r'
                        && e[5] == 't');
                }
            }
        }
        first_sign_cuts(name, value);
        assert(tool_description::variable_name(name));
        reveal_strlit("export ");
        let e = "export "@;
        let exported = e + seg;
        assert(e[0] == 'e');
        assert(exported[0] == 'e');
        assert(exported.last() == seg.last());
        text::trimmed_is_tight(exported);
        text_laws::ends_come_off(seg, e);
    }
    let p = text::trim(part);
    text::trimmed_is_tight(part);
    if !text::contains(p, "="@) {
        match text::without_prefix(p, "export "@) {
            Some(rest) => {
                if text::contains(rest, "="@) {
                    let i = choose|i: int| text::stands_at(rest, "="@, i);
                    let n = "export "@.len() as int;
                    assert(p.subrange(i + n, i + n + 1) =~= rest.subrange(i, i + 1));
                    assert(text::stands_at(p, "="@, i + n));
                }
                no_sign_no_cut(rest);
            },
            None => {
                no_sign_no_cut(p);
            },
        }
    }
}

/// A text without a sign is not cut at one.
proof fn no_sign_no_cut(s: Seq<char>)
    requires
        !text::contains(s, "="@),
    ensures
        text::cut(s, "="@) is None,
{
    text_laws::cutting_takes_the_mark_out(s, "="@);
}

/// A text is cut at its first sign.
proof fn first_sign_cuts(name: Seq<char>, value: Seq<char>)
    requires
        names_a_variable(name),
    ensures
        text::cut(name + "="@ + value, "="@) == Some((name, value)),
{
    reveal_strlit("=");
    let seg = name + "="@ + value;
    let e = "="@;
    assert(e.len() == 1 && e[0] == '=');
    text::find_is_first(seg, e, 0);
    assert(seg.subrange(name.len() as int, name.len() as int + 1) =~= e);
    assert(text::stands_at(seg, e, name.len() as int));
    match text::find(seg, e, 0) {
        Some(i) => {
            assert(text::stands_at(seg, e, i));
            if i < name.len() {
                assert(seg.subrange(i, i + 1)[0] == '=');
                assert(name[i] == '=');
            }
            assert(i == name.len());
            assert(seg.take(i) =~= name);
            assert(seg.skip(i + 1) =~= value);
        },
        None => {},
    }
}

/// A directory that is written plainly: without white space, quotes or a slash at its ends.
pub open spec fn plainly_written(d: Seq<char>) -> bool {
    &&& text::tight(d)
    &&& d.len() > 0
    &&& d[0] != '"' && d[0] != '\''
    &&& d.last() != '"' && d.last() != '\'' && d.last() != '/'
}

/// Going to the working directory is noise, and so is going to a directory of sessions; going
/// anywhere else is not.
pub proof fn going_home_is_noise(d: Seq<char>, cwd: Seq<char>)
    requires
        plainly_written(d),
    ensures
        tool_description::noise("cd "@ + d, Some(d)),
        tool_description::noise("cd "@ + d, Some(d.push('/'))),
        tool_description::noise("cd "@ + seq!['"'] + d + seq!['"'], Some(d)),
        tool_description::noise("cd "@ + d.push('/'), Some(d)),
        text::contains(d, "/.myclaw/sessions/"@) ==> tool_description::noise("cd "@ + d, None),
        !text::contains("cd "@ + d, "="@) && !text::contains(d, "/.myclaw/sessions/"@) && d != cwd
            && (cwd.len() > 0 ==> cwd.last() != '/') ==> !tool_description::noise(
            "cd "@ + d,
            Some(cwd),
        ) && !tool_description::noise("cd "@ + d, None),
{
    reveal_strlit("cd ");
    let go = "cd "@;
    assert(go.len() == 3 && go[0] == 'c');
    targets_are_read(d, d);
    slashes_come_off(d);
    let slashed = d.push('/');
    targets_are_read(slashed, d);
    let quoted = seq!['"'] + d + seq!['"'];
    targets_are_read(quoted, d);
    assert(go + seq!['"'] + d + seq!['"'] =~= go + quoted);
    reveal_with_fuel(tool_description::without_slashes, 1);
    if !text::contains(go + d, "="@) {
        reveal_strlit("export ");
        assert("export "@[0] == 'e');
        if text::begins(go + d, "export "@) {
            assert((go + d).take(7)[0] == 'c');
        }
        no_sign_no_cut(go + d);
    }
}

/// A slash at the end comes off.
proof fn slashes_come_off(d: Seq<char>)
    requires
        d.len() > 0,
        d.last() != '/',
    ensures
        tool_description::without_slashes(d) == d,
        tool_description::without_slashes(d.push('/')) == d,
{
    assert(d.push('/').drop_last() =~= d);
    reveal_with_fuel(tool_description::without_slashes, 2);
}

/// What a step goes to is read without the quotes around it.
proof fn targets_are_read(written: Seq<char>, d: Seq<char>)
    requires
        plainly_written(d),
        written == d || written == d.push('/') || written == seq!['"'] + d + seq!['"'],
    ensures
        text::trim("cd "@ + written) == "cd "@ + written,
        text::without_prefix("cd "@ + written, "cd "@) == Some(written),
        tool_description::without_slashes(
            tool_description::without_marks_behind(
                tool_description::without_marks_in_front(text::trim(written)),
            ),
        ) == d,
{
    reveal_strlit("cd ");
    let go = "cd "@;
    assert(go.len() == 3 && go[0] == 'c');
    assert((go + written).take(3) =~= go);
    assert((go + written).skip(3) =~= written);
    assert((go + written)[0] == 'c');
    assert((go + written).last() == written.last());
    text::trimmed_is_tight(go + written);
    text::trimmed_is_tight(written);
    slashes_come_off(d);
    if written == seq!['"'] + d + seq!['"'] {
        let rest = d + seq!['"'];
        assert(written.skip(1) =~= rest);
        assert(rest[0] == d[0]);
        reveal_with_fuel(tool_description::without_marks_in_front, 2);
        assert(tool_description::without_marks_in_front(written) == rest);
        assert(rest.drop_last() =~= d);
        reveal_with_fuel(tool_description::without_marks_behind, 2);
        assert(tool_description::without_marks_behind(rest) == d);
    }
}

/// Noise in front of a command is left out: what is shown are the parts from the first one
/// that says something on, and the whole command where none does.
pub proof fn noise_in_front_is_left_out(command: Seq<char>, cwd: Option<Seq<char>>, n: int)
    requires
        0 <= n <= tool_description::parts(command).len(),
        forall|i: int|
            0 <= i < n ==> tool_description::noise(
                #[trigger] tool_description::parts(command)[i],
                cwd,
            ),
        n < tool_description::parts(command).len() ==> !tool_description::noise(
            tool_description::parts(command)[n],
            cwd,
        ),
    ensures
        n < tool_description::parts(command).len() ==> tool_description::cleaned(command, cwd)
            == text::join(tool_description::parts(command).skip(n), " && "@),
        n == tool_description::parts(command).len() ==> tool_description::cleaned(command, cwd)
            == text::trim(command),
{
    noise_is_dropped(tool_description::parts(command), cwd, n);
}

/// Noise in front of a list is dropped.
proof fn noise_is_dropped(all: Seq<Seq<char>>, cwd: Option<Seq<char>>, n: int)
    requires
        0 <= n <= all.len(),
        forall|i: int| 0 <= i < n ==> tool_description::noise(#[trigger] all[i], cwd),
        n < all.len() ==> !tool_description::noise(all[n], cwd),
    ensures
        tool_description::without_noise(all, cwd) == all.skip(n),
    decreases n,
{
    if n == 0 {
        assert(all.skip(0) =~= all);
    } else {
        assert(tool_description::noise(all[0], cwd));
        let rest = all.skip(1);
        assert forall|i: int| 0 <= i < n - 1 implies tool_description::noise(#[trigger] rest[i], cwd) by {
            assert(rest[i] == all[i + 1]);
        }
        noise_is_dropped(rest, cwd, n - 1);
        assert(rest.skip(n - 1) =~= all.skip(n));
    }
}

/// What a command does is said in words: what it reads, lists or searches.
pub proof fn commands_are_put_in_words(name: String, query: String, path: String)
    ensures
        tool_description::phrase(ParsedCommand::Read { name }) == Some("Read "@ + name@),
        tool_description::phrase(ParsedCommand::ListFiles { path: Some(path) }) == Some(
            "List "@ + path@,
        ),
        tool_description::phrase(ParsedCommand::ListFiles { path: None }) == Some("List files"@),
        tool_description::phrase(ParsedCommand::Search { query: Some(query), path: Some(path) })
            == Some("Search \""@ + query@ + "\" in "@ + path@),
        tool_description::phrase(ParsedCommand::Search { query: Some(query), path: None }) == Some(
            "Search \""@ + query@ + "\""@,
        ),
        tool_description::phrase(ParsedCommand::Search { query: None, path: Some(path) }) == Some(
            "Search in "@ + path@,
        ),
        tool_description::phrase(ParsedCommand::Search { query: None, path: None }) == Some(
            "Search"@,
        ),
        tool_description::phrase(ParsedCommand::Unknown) is None,
{
}

/// What the commands of a line do is told in their order, with a dot between; where it is not
/// known of one of them, or there is none, nothing is told.
pub proof fn each_command_is_told(items: Seq<ParsedCommand>)
    ensures
        (items.len() == 0 || exists|i: int|
            0 <= i < items.len() && #[trigger] items[i] == ParsedCommand::Unknown)
            ==> tool_description::described(items) is None,
        items.len() > 0 && (forall|i: int|
            0 <= i < items.len() ==> #[trigger] items[i] != ParsedCommand::Unknown)
            ==> tool_description::described(items) == Some(
            tool_description::clipped(
                text::join(
                    Seq::new(items.len(), |i: int| tool_description::phrase(items[i])->0),
                    " · "@,
                ),
            ),
        ),
{
    phrases_are_in_order(items);
}

/// The phrases of commands, in their order.
proof fn phrases_are_in_order(items: Seq<ParsedCommand>)
    ensures
        (exists|i: int| 0 <= i < items.len() && #[trigger] items[i] == ParsedCommand::Unknown)
            ==> tool_description::phrases(items) is None,
        (forall|i: int| 0 <= i < items.len() ==> #[trigger] items[i] != ParsedCommand::Unknown)
            ==> tool_description::phrases(items) == Some(
            Seq::new(items.len(), |i: int| tool_description::phrase(items[i])->0),
        ),
    decreases items.len(),
{
    let all = Seq::new(items.len(), |i: int| tool_description::phrase(items[i])->0);
    if items.len() == 0 {
        assert(all =~= Seq::empty());
    } else {
        let front = items.drop_last();
        phrases_are_in_order(front);
        assert forall|i: int| 0 <= i < front.len() implies #[trigger] front[i] == items[i] by {}
        let some = Seq::new(front.len(), |i: int| tool_description::phrase(front[i])->0);
        assert(all =~= some.push(tool_description::phrase(items.last())->0));
        if exists|i: int| 0 <= i < items.len() && #[trigger] items[i] == ParsedCommand::Unknown {
            let k = choose|i: int|
                0 <= i < items.len() && #[trigger] items[i] == ParsedCommand::Unknown;
            if k < front.len() {
                assert(front[k] == ParsedCommand::Unknown);
            }
        }
        if forall|i: int| 0 <= i < items.len() ==> #[trigger] items[i] != ParsedCommand::Unknown {
            assert(items[items.len() - 1] != ParsedCommand::Unknown);
            match items.last() {
                ParsedCommand::Unknown => {},
                ParsedCommand::Read { name } => {},
                ParsedCommand::ListFiles { path } => {},
                ParsedCommand::Search { query, path } => {},
            }
        }
    }
}

/// A call that executes a command, of which neither the model nor the process tool says
/// anything, is told by what its command does; or else by its command without the noise in
/// front of it, where there was any. A call of another kind is not told.
pub proof fn commands_tell_the_rest(
    title: Seq<char>,
    kind: Seq<char>,
    command: Seq<char>,
    input: JsonView,
    parsed: Seq<ParsedCommand>,
)
    requires
        input.at("command"@) == JsonView::Str(command),
        !says(input.at("description"@)),
        !says(input.at("summary"@)),
        !says(input.at("title"@)),
        text::trim(text::split(title, ':')[0]) != "process"@,
    ensures
        ({
            let cwd = tool_description::cwd(Some(input));
            let told = tool_description::command_description(command, cwd, parsed);
            let left = tool_description::cleaned(command, cwd);
            let shown = tool_description::call_description(title, None, Some(input), parsed);
            &&& told is Some ==> shown == told
            &&& told is None && left != text::trim(command) ==> shown == Some(
                tool_description::clipped(left),
            )
            &&& told is None && left == text::trim(command) ==> shown is None
            &&& kind == "execute"@ || kind == "exec"@ ==> tool_description::call_description(
                title,
                Some(kind),
                Some(input),
                parsed,
            ) == shown
            &&& kind != "execute"@ && kind != "exec"@ ==> tool_description::call_description(
                title,
                Some(kind),
                Some(input),
                parsed,
            ) is None
        }),
{
}

/// One ampersand alone ends no part.
pub proof fn single_ampersands_end_nothing(a: Seq<char>, b: Seq<char>)
    requires
        bare(a),
        bare(b),
    ensures
        tool_description::parts(a + seq!['&'] + b) == kept(a + seq!['&'] + b),
{
    let none = Seq::<char>::empty();
    assert(none + a =~= a);
    assert(a + seq!['&'] + b =~= a + (seq!['&'] + b));
    bare_texts_are_read(a, seq!['&'] + b, none);
    let s = seq!['&'] + b;
    assert(s.skip(1) =~= b);
    if b.len() > 0 {
        assert(s[1] == b[0]);
        assert(b[0] != '&');
    }
    assert(tool_description::parts_from(s, None, a) == tool_description::parts_from(
        b,
        None,
        a.push('&'),
    ));
    bare_texts_are_read(b, none, a.push('&'));
    assert(b + none =~= b);
    assert(a.push('&') + b =~= a + seq!['&'] + b);
}

} // verus!
