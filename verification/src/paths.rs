//! Paths as texts with `/` between their parts. Empty parts and `.` count for
//! nothing, except a `.` at the very front of a relative path.
use vstd::prelude::*;
use vstd::slice::slice_subrange;
use crate::text;

verus! {

/// Whether a path starts at the root.
pub open spec fn absolute(path: Seq<char>) -> bool {
    path.len() > 0 && path[0] == '/'
}

/// Whether the piece at position `i` counts as a part of the path.
pub open spec fn counts(piece: Seq<char>, i: int) -> bool {
    piece.len() > 0 && (piece != seq!['.'] || i == 0)
}

/// The positions of the pieces that count.
pub open spec fn places(pieces: Seq<Seq<char>>) -> Seq<int>
    decreases pieces.len(),
{
    if pieces.len() == 0 {
        Seq::empty()
    } else {
        let front = places(pieces.drop_last());
        if counts(pieces.last(), pieces.len() - 1) {
            front.push(pieces.len() - 1)
        } else {
            front
        }
    }
}

/// The parts of a path.
pub open spec fn parts(path: Seq<char>) -> Seq<Seq<char>> {
    let pieces = text::split(path, '/');
    places(pieces).map_values(|i: int| pieces[i])
}

/// Whether `path` is `base` or lies below it.
pub open spec fn within(path: Seq<char>, base: Seq<char>) -> bool {
    &&& absolute(base) ==> absolute(path)
    &&& !absolute(base) ==> parts(base).len() == 0 || !absolute(path)
    &&& parts(base).is_prefix_of(parts(path))
}

/// The text of `path` from its part number `n` to its last part.
pub open spec fn tail(path: Seq<char>, n: int) -> Seq<char> {
    let pieces = text::split(path, '/');
    let at = places(pieces);
    if n < at.len() {
        text::join(pieces.subrange(at[n], at.last() + 1), seq!['/'])
    } else {
        Seq::empty()
    }
}

/// The whole path without separators at its end.
pub open spec fn trimmed(path: Seq<char>) -> Seq<char> {
    let pieces = text::split(path, '/');
    let at = places(pieces);
    if at.len() > 0 {
        text::join(pieces.subrange(0, at.last() + 1), seq!['/'])
    } else if absolute(path) {
        seq!['/']
    } else {
        Seq::empty()
    }
}

/// The path relative to a base that it lies in.
pub open spec fn relative(path: Seq<char>, base: Seq<char>) -> Option<Seq<char>> {
    if !within(path, base) {
        None
    } else if parts(base).len() == 0 && !absolute(base) {
        Some(trimmed(path))
    } else {
        Some(tail(path, parts(base).len() as int))
    }
}

/// Every position is one of a piece, in rising order.
proof fn places_in_range(pieces: Seq<Seq<char>>)
    ensures
        forall|i: int|
            0 <= i < places(pieces).len() ==> 0 <= #[trigger] places(pieces)[i] < pieces.len(),
        forall|i: int, j: int|
            0 <= i < j < places(pieces).len() ==> places(pieces)[i] < places(pieces)[j],
    decreases pieces.len(),
{
    if pieces.len() > 0 {
        let front = places(pieces.drop_last());
        places_in_range(pieces.drop_last());
        assert forall|i: int| 0 <= i < places(pieces).len() implies 0 <= #[trigger] places(
            pieces,
        )[i] < pieces.len() by {
            assert(i < front.len() ==> places(pieces)[i] == front[i]);
        }
        assert forall|i: int, j: int| 0 <= i < j < places(pieces).len() implies places(pieces)[i]
            < places(pieces)[j] by {
            assert(places(pieces)[i] == front[i]);
            assert(j < front.len() ==> places(pieces)[j] == front[j]);
        }
    }
}

/// Finds the positions of the pieces that count.
fn find_places(pieces: &Vec<String>) -> (r: Vec<usize>)
    ensures
        r@.map_values(|i: usize| i as int) == places(pieces.deep_view()),
{
    let mut out: Vec<usize> = Vec::new();
    let ghost p = pieces.deep_view();
    assert(out@.map_values(|i: usize| i as int) =~= places(p.take(0)));
    for i in 0..pieces.len()
        invariant
            p == pieces.deep_view(),
            out@.map_values(|i: usize| i as int) == places(p.take(i as int)),
    {
        let ghost before = out@.map_values(|i: usize| i as int);
        assert(p.take(i + 1).drop_last() =~= p.take(i as int));
        assert(p.take(i + 1).last() == pieces@[i as int]@);
        proof {
            reveal_strlit(".");
            assert("."@ =~= seq!['.']);
        }
        if !pieces[i].as_str().is_empty() && (!text::same(pieces[i].as_str(), ".") || i == 0) {
            out.push(i);
            assert(out@.map_values(|i: usize| i as int) =~= before.push(i as int));
        }
    }
    assert(p.take(p.len() as int) =~= p);
    out
}

/// Whether a path starts at the root.
pub fn is_absolute(path: &str) -> (r: bool)
    ensures
        r == absolute(path@),
{
    let v = text::chars(path);
    v.len() > 0 && v[0] == '/'
}

/// The path relative to a base, if it lies in it.
pub fn relative_to(path: &str, base: &str) -> (r: Option<String>)
    ensures
        r.deep_view() == relative(path@, base@),
{
    let pieces = text::split_on(path, '/');
    let at = find_places(&pieces);
    let base_pieces = text::split_on(base, '/');
    let base_at = find_places(&base_pieces);
    let ghost p = pieces.deep_view();
    let ghost b = base_pieces.deep_view();
    proof {
        places_in_range(p);
        places_in_range(b);
        reveal_strlit("/");
        assert("/"@ =~= seq!['/']);
        assert(places(p).len() == at@.len());
        assert(places(b).len() == base_at@.len());
        assert forall|i: int| 0 <= i < at@.len() implies places(p)[i] == at@[i] by {
            assert(at@.map_values(|i: usize| i as int)[i] == at@[i]);
        }
        assert forall|i: int| 0 <= i < base_at@.len() implies places(b)[i] == base_at@[i] by {
            assert(base_at@.map_values(|i: usize| i as int)[i] == base_at@[i]);
        }
    }
    if is_absolute(base) {
        if !is_absolute(path) {
            return None;
        }
    } else if base_at.len() > 0 && is_absolute(path) {
        return None;
    }
    if base_at.len() > at.len() {
        return None;
    }
    let mut i: usize = 0;
    while i < base_at.len()
        invariant
            i <= base_at@.len() <= at@.len(),
            p == pieces.deep_view(),
            b == base_pieces.deep_view(),
            p == text::split(path@, '/'),
            b == text::split(base@, '/'),
            places(p).len() == at@.len(),
            places(b).len() == base_at@.len(),
            forall|i: int| 0 <= i < at@.len() ==> places(p)[i] == at@[i],
            forall|i: int| 0 <= i < base_at@.len() ==> places(b)[i] == base_at@[i],
            forall|i: int| 0 <= i < at@.len() ==> 0 <= #[trigger] places(p)[i] < p.len(),
            forall|i: int| 0 <= i < base_at@.len() ==> 0 <= #[trigger] places(b)[i] < b.len(),
            forall|j: int| 0 <= j < i ==> parts(path@)[j] == parts(base@)[j],
        decreases base_at.len() - i,
    {
        assert(parts(path@)[i as int] == p[places(p)[i as int]]);
        assert(parts(base@)[i as int] == b[places(b)[i as int]]);
        if !text::same(pieces[at[i]].as_str(), base_pieces[base_at[i]].as_str()) {
            return None;
        }
        i = i + 1;
    }
    assert(parts(base@) =~= parts(path@).take(base_at@.len() as int));
    assert(within(path@, base@));
    if base_at.len() == 0 && !is_absolute(base) {
        if at.len() > 0 {
            let last = at[at.len() - 1];
            assert(places(p)[at@.len() - 1] < pieces.len());
            let part = slice_subrange(pieces.as_slice(), 0, last + 1);
            assert(part.deep_view() =~= p.subrange(0, last + 1));
            Some(text::joined(part, "/"))
        } else if is_absolute(path) {
            Some("/".to_owned())
        } else {
            Some(String::new())
        }
    } else if base_at.len() < at.len() {
        let first = at[base_at.len()];
        let last = at[at.len() - 1];
        assert(places(p)[base_at@.len() as int] <= places(p)[at@.len() - 1] < pieces.len());
        let part = slice_subrange(pieces.as_slice(), first, last + 1);
        assert(part.deep_view() =~= p.subrange(first as int, last + 1));
        Some(text::joined(part, "/"))
    } else {
        Some(String::new())
    }
}

/// Whether two paths have the same parts.
pub open spec fn same_parts(a: Seq<char>, b: Seq<char>) -> bool {
    absolute(a) == absolute(b) && parts(a) == parts(b)
}

/// The parts of a path.
fn parts_of(path: &str) -> (r: Vec<String>)
    ensures
        r.deep_view() == parts(path@),
{
    let pieces = text::split_on(path, '/');
    let at = find_places(&pieces);
    let ghost p = pieces.deep_view();
    let ghost all = parts(path@);
    let mut out: Vec<String> = Vec::new();
    proof {
        places_in_range(p);
        assert(places(p).len() == at@.len());
    }
    for i in 0..at.len()
        invariant
            p == pieces.deep_view(),
            p == text::split(path@, '/'),
            all == parts(path@),
            places(p).len() == at@.len(),
            all.len() == at@.len(),
            at@.map_values(|i: usize| i as int) == places(p),
            forall|i: int| 0 <= i < places(p).len() ==> 0 <= #[trigger] places(p)[i] < p.len(),
            out.deep_view() == all.take(i as int),
    {
        assert(at@.map_values(|i: usize| i as int)[i as int] == at@[i as int]);
        assert(places(p)[i as int] == at@[i as int]);
        assert(all[i as int] == p[places(p)[i as int]]);
        text::push(&mut out, pieces[at[i]].clone());
        assert(out.deep_view() =~= all.take(i + 1));
    }
    assert(all.take(at@.len() as int) =~= all);
    out
}

/// Whether two paths have the same parts.
pub fn is_same(a: &str, b: &str) -> (r: bool)
    ensures
        r == same_parts(a@, b@),
{
    if is_absolute(a) != is_absolute(b) {
        return false;
    }
    let x = parts_of(a);
    let y = parts_of(b);
    assert(x.deep_view().len() == x@.len());
    assert(y.deep_view().len() == y@.len());
    if x.len() != y.len() {
        return false;
    }
    for i in 0..x.len()
        invariant
            x@.len() == y@.len(),
            x.deep_view() == parts(a@),
            y.deep_view() == parts(b@),
            forall|j: int| 0 <= j < i ==> x.deep_view()[j] == y.deep_view()[j],
    {
        assert(x.deep_view()[i as int] == x@[i as int]@);
        assert(y.deep_view()[i as int] == y@[i as int]@);
        if !text::same(x[i].as_str(), y[i].as_str()) {
            return false;
        }
    }
    assert(x.deep_view() =~= y.deep_view());
    true
}

/// A child path below a base: the child itself where it starts at the root.
pub open spec fn below(base: Seq<char>, child: Seq<char>) -> Seq<char> {
    if absolute(child) || base.len() == 0 {
        child
    } else if base.last() == '/' {
        base + child
    } else {
        base.push('/') + child
    }
}

/// Joins a base and a child path.
pub fn join(base: &str, child: &str) -> (r: String)
    ensures
        r@ == below(base@, child@),
{
    let v = text::chars(base);
    if is_absolute(child) || v.len() == 0 {
        return child.to_owned();
    }
    let mut out = base.to_owned();
    if v[v.len() - 1] != '/' {
        out.push('/');
    }
    out.push_str(child);
    out
}

/// The last part of a path, unless it is `..` or the path has none.
pub open spec fn file_name(path: Seq<char>) -> Option<Seq<char>> {
    let all = parts(path);
    if all.len() > 0 && all.last() != seq!['.', '.'] && all.last() != seq!['.'] {
        Some(all.last())
    } else {
        None
    }
}

/// The last part of a path.
pub fn name_of(path: &str) -> (r: Option<String>)
    ensures
        r.deep_view() == file_name(path@),
{
    let pieces = text::split_on(path, '/');
    let at = find_places(&pieces);
    proof {
        places_in_range(pieces.deep_view());
        reveal_strlit(".");
        assert("."@ =~= seq!['.']);
        reveal_strlit("..");
        assert(".."@ =~= seq!['.', '.']);
        assert(parts(path@).len() == at@.len());
    }
    if at.len() == 0 {
        return None;
    }
    let ghost p = pieces.deep_view();
    assert(at@.map_values(|i: usize| i as int)[at@.len() - 1] == at@[at@.len() - 1]);
    assert(places(p)[at@.len() - 1] == at@[at@.len() - 1]);
    let last = pieces[at[at.len() - 1]].clone();
    assert(last@ == parts(path@).last());
    if text::same(last.as_str(), "..") || text::same(last.as_str(), ".") {
        None
    } else {
        Some(last)
    }
}

} // verus!
