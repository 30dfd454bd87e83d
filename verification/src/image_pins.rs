//! The versions that a Dockerfile pins.
use vstd::prelude::*;
use crate::text;

verus! {

/// The default that a line gives a build argument.
pub open spec fn default_in(line: Seq<char>, name: Seq<char>) -> Option<Seq<char>> {
    match text::without_prefix(text::trim(line), "ARG "@ + name + "="@) {
        Some(rest) => Some(text::trim(rest)),
        None => None,
    }
}

/// The default that the first of the lines gives a build argument.
pub open spec fn first_default(lines: Seq<Seq<char>>, name: Seq<char>) -> Option<Seq<char>>
    decreases lines.len(),
{
    if lines.len() == 0 {
        None
    } else {
        match default_in(lines[0], name) {
            Some(v) => Some(v),
            None => first_default(lines.skip(1), name),
        }
    }
}

/// The default that a Dockerfile gives a build argument, if it gives one.
pub fn arg_default(dockerfile: &str, name: &str) -> (r: Option<String>)
    ensures
        r.deep_view() == first_default(text::lines(dockerfile@), name@),
{
    let lines = text::split_lines(dockerfile);
    let prefix = text::cat3("ARG ", name, "=");
    let ghost all = lines.deep_view();
    assert(all.skip(0) =~= all);
    for i in 0..lines.len()
        invariant
            all == lines.deep_view(),
            all == text::lines(dockerfile@),
            prefix@ == "ARG "@ + name@ + "="@,
            first_default(all, name@) == first_default(all.skip(i as int), name@),
    {
        assert(all.skip(i as int)[0] == lines@[i as int]@);
        if let Some(rest) = text::strip_prefix(
            text::trimmed(lines[i].as_str()).as_str(),
            prefix.as_str(),
        ) {
            return Some(text::trimmed(rest.as_str()));
        }
        assert(all.skip(i as int).skip(1) =~= all.skip(i + 1));
    }
    None
}

} // verus!
