//! What paths promise.
use vstd::prelude::*;
use crate::paths;
use crate::text;
use crate::text_laws;

verus! {

/// The pieces of a path that is written out: none is empty, and none is a dot.
pub open spec fn written_out(pieces: Seq<Seq<char>>) -> bool {
    forall|i: int| 0 <= i < pieces.len() ==> (#[trigger] pieces[i]).len() > 0 && pieces[i] != seq!['.']
}

/// The places of pieces that all count, behind others.
proof fn places_add_up(pieces: Seq<Seq<char>>, more: Seq<Seq<char>>)
    requires
        written_out(more),
    ensures
        paths::places(pieces + more) == paths::places(pieces) + Seq::new(
            more.len(),
            |i: int| pieces.len() + i,
        ),
    decreases more.len(),
{
    let n = Seq::new(more.len(), |i: int| pieces.len() + i);
    if more.len() == 0 {
        assert(pieces + more =~= pieces);
        assert(paths::places(pieces) + n =~= paths::places(pieces));
    } else {
        let front = more.drop_last();
        assert forall|i: int| 0 <= i < front.len() implies (#[trigger] front[i]).len() > 0 && front[i]
            != seq!['.'] by {
            assert(front[i] == more[i]);
        }
        places_add_up(pieces, front);
        assert((pieces + more).drop_last() =~= pieces + front);
        assert(more[more.len() - 1].len() > 0);
        assert(paths::places(pieces + more) =~= paths::places(pieces) + n);
    }
}

/// The places of a list point into it, in order.
proof fn places_point_inside(pieces: Seq<Seq<char>>)
    ensures
        forall|k: int|
            0 <= k < paths::places(pieces).len() ==> 0 <= #[trigger] paths::places(pieces)[k]
                < pieces.len(),
    decreases pieces.len(),
{
    if pieces.len() > 0 {
        let front = pieces.drop_last();
        places_point_inside(front);
        assert forall|k: int| 0 <= k < paths::places(pieces).len() implies 0
            <= #[trigger] paths::places(pieces)[k] < pieces.len() by {
            if k < paths::places(front).len() {
                assert(paths::places(pieces)[k] == paths::places(front)[k]);
            }
        }
    }
}

/// A slash at the end of a path does not count.
pub proof fn slashes_at_the_end_do_not_count(path: Seq<char>)
    requires
        path.len() > 0,
    ensures
        paths::parts(path.push('/')) == paths::parts(path),
        paths::same_parts(path.push('/'), path),
{
    let none = Seq::<char>::empty();
    text_laws::splitting_adds_up(path, '/', none);
    assert(path.push('/') + none =~= path.push('/'));
    text_laws::splitting_leaves_one(none, '/');
    let pieces = text::split(path, '/');
    let all = text::split(path.push('/'), '/');
    assert(all =~= pieces.push(none));
    assert(all.drop_last() =~= pieces);
    places_point_inside(pieces);
    assert(paths::parts(path.push('/')) =~= paths::parts(path));
}

/// How the pieces of a path that is put below another follow its own.
proof fn pieces_below(base: Seq<char>, child: Seq<char>)
    requires
        base.len() > 0,
        child.len() > 0,
        written_out(text::split(child, '/')),
    ensures
        ({
            let front = if base.last() == '/' {
                text::split(base.drop_last(), '/')
            } else {
                text::split(base, '/')
            };
            &&& text::split(paths::below(base, child), '/') == front + text::split(child, '/')
            &&& paths::places(front) == paths::places(text::split(base, '/'))
            &&& paths::parts(base) == paths::places(front).map_values(|i: int| front[i])
        }),
        !paths::absolute(child),
{
    let mine = text::split(child, '/');
    text::split_is_nonempty(child, '/');
    if paths::absolute(child) {
        let rest = child.skip(1);
        let none = Seq::<char>::empty();
        text_laws::splitting_adds_up(none, '/', rest);
        text_laws::splitting_leaves_one(none, '/');
        assert(none.push('/') + rest =~= child);
        assert(mine[0] == none);
    }
    if base.last() == '/' {
        let b = base.drop_last();
        let none = Seq::<char>::empty();
        assert(base =~= b.push('/'));
        assert(b.push('/') + none =~= base);
        text_laws::splitting_adds_up(b, '/', none);
        text_laws::splitting_leaves_one(none, '/');
        text_laws::splitting_adds_up(b, '/', child);
        let pieces = text::split(b, '/');
        assert(text::split(base, '/') =~= pieces.push(none));
        assert(text::split(base, '/').drop_last() =~= pieces);
        places_point_inside(pieces);
        assert(paths::parts(base) =~= paths::places(pieces).map_values(|i: int| pieces[i]));
    } else {
        text_laws::splitting_adds_up(base, '/', child);
    }
}

/// What is put below a directory has its parts behind those of the directory, lies within
/// it, and is named relative to it as it was.
pub proof fn children_lie_within(base: Seq<char>, child: Seq<char>)
    requires
        base.len() > 0,
        child.len() > 0,
        written_out(text::split(child, '/')),
    ensures
        paths::parts(paths::below(base, child)) == paths::parts(base) + text::split(child, '/'),
        paths::absolute(paths::below(base, child)) == paths::absolute(base),
        paths::parts(base).len() > 0 || paths::absolute(base) ==> paths::relative(
            paths::below(base, child),
            base,
        ) == Some(child),
{
    pieces_below(base, child);
    let front = if base.last() == '/' {
        text::split(base.drop_last(), '/')
    } else {
        text::split(base, '/')
    };
    let mine = text::split(child, '/');
    let path = paths::below(base, child);
    let all = front + mine;
    places_add_up(front, mine);
    places_point_inside(front);
    let at = paths::places(all);
    let n = paths::places(front).len() as int;
    assert(paths::parts(path) =~= paths::parts(base) + mine);
    assert(paths::absolute(path) == paths::absolute(base));
    assert(paths::parts(base).len() == n);
    text::split_is_nonempty(child, '/');
    assert(paths::parts(base).is_prefix_of(paths::parts(path)));
    assert(at[n] == front.len());
    assert(at.last() == front.len() + mine.len() - 1);
    assert(all.subrange(at[n], at.last() + 1) =~= mine);
    text_laws::splitting_and_joining_is_nothing(child, '/');
}

/// A file is called by the last part of its path.
pub proof fn files_are_called_by_the_last_part(base: Seq<char>, name: Seq<char>)
    requires
        base.len() > 0,
        name.len() > 0,
        name != seq!['.'],
        name != seq!['.', '.'],
        forall|i: int| 0 <= i < name.len() ==> name[i] != '/',
    ensures
        paths::file_name(paths::below(base, name)) == Some(name),
{
    text_laws::splitting_leaves_one(name, '/');
    children_lie_within(base, name);
    assert(paths::parts(paths::below(base, name)).last() == name);
}

/// A path that leaves the parts of a directory does not lie within it; neither does an
/// absolute one within a relative directory.
pub proof fn strangers_lie_elsewhere(path: Seq<char>, base: Seq<char>, i: int)
    requires
        0 <= i < paths::parts(base).len(),
        i >= paths::parts(path).len() || paths::parts(path)[i] != paths::parts(base)[i]
            || paths::absolute(path) != paths::absolute(base),
    ensures
        paths::relative(path, base) is None,
        !paths::same_parts(path, base),
{
}

/// An absolute path stays as it is, wherever it is put; so does one that is put below nothing.
pub proof fn absolute_paths_stay(base: Seq<char>, child: Seq<char>)
    requires
        (child.len() > 0 && child[0] == '/') || base.len() == 0,
    ensures
        paths::below(base, child) == child,
{
}

/// A dot behind other parts does not count; one that stands first does.
pub proof fn dots_behind_do_not_count(path: Seq<char>)
    ensures
        path.len() > 0 ==> paths::parts(path + seq!['/', '.']) == paths::parts(path),
        path.len() > 0 ==> paths::same_parts(path + seq!['/', '.'], path),
        paths::parts(seq!['.']) == seq![seq!['.']],
{
    let dot = seq!['.'];
    text_laws::splitting_leaves_one(dot, '/');
    if path.len() > 0 {
        text_laws::splitting_adds_up(path, '/', dot);
        let all = path + seq!['/', '.'];
        assert(path.push('/') + dot =~= all);
        let pieces = text::split(path, '/');
        text::split_is_nonempty(path, '/');
        assert(text::split(all, '/') =~= pieces.push(dot));
        assert(text::split(all, '/').drop_last() =~= pieces);
        places_point_inside(pieces);
        assert(paths::parts(all) =~= paths::parts(path));
    }
    let one = seq![dot];
    assert(one.drop_last() =~= Seq::<Seq<char>>::empty());
    reveal_with_fuel(paths::places, 2);
    assert(paths::places(one) =~= seq![0int]);
    assert(paths::parts(dot) =~= seq![dot]);
}

} // verus!
