//! Sets of identifiers that remember the order in which they were added.
use vstd::prelude::*;
use crate::text;

verus! {

/// A set of identifiers.
#[derive(Debug)]
pub struct IdSet {
    items: Vec<String>,
}

/// The list with `id` at its end, unless it was in it already.
pub open spec fn added(order: Seq<Seq<char>>, id: Seq<char>) -> Seq<Seq<char>> {
    if order.contains(id) {
        order
    } else {
        order.push(id)
    }
}

/// The list without `id`.
pub open spec fn dropped(order: Seq<Seq<char>>, id: Seq<char>) -> Seq<Seq<char>> {
    order.filter(|x: Seq<char>| x != id)
}

/// What was dropped is gone.
pub proof fn dropped_is_gone(order: Seq<Seq<char>>, id: Seq<char>)
    ensures
        !dropped(order, id).contains(id),
    decreases order.len(),
{
    reveal(Seq::filter);
    if order.len() > 0 {
        dropped_is_gone(order.drop_last(), id);
        let front = dropped(order.drop_last(), id);
        let all = dropped(order, id);
        if all.contains(id) {
            let i = choose|i: int| 0 <= i < all.len() && all[i] == id;
            assert(i < front.len() ==> front[i] == id);
        }
    }
}

/// What was dropped is all that is missing, and nothing comes twice that did not.
pub proof fn dropped_keeps_the_rest(order: Seq<Seq<char>>, id: Seq<char>)
    ensures
        forall|x: Seq<char>| #[trigger]
            dropped(order, id).contains(x) <==> order.contains(x) && x != id,
        order.no_duplicates() ==> dropped(order, id).no_duplicates(),
    decreases order.len(),
{
    reveal(Seq::filter);
    if order.len() > 0 {
        let front = order.drop_last();
        let kept = dropped(front, id);
        let last = order.last();
        dropped_keeps_the_rest(front, id);
        assert(order =~= front.push(last));
        assert forall|x: Seq<char>| #[trigger]
            dropped(order, id).contains(x) <==> order.contains(x) && x != id by {
            added_is_contained(front, last, x);
            added_is_contained(kept, last, x);
        }
        if order.no_duplicates() {
            assert(!front.contains(last)) by {
                if front.contains(last) {
                    let i = choose|i: int| 0 <= i < front.len() && front[i] == last;
                    assert(order[i] == order[order.len() - 1]);
                }
            }
            assert(front.no_duplicates());
            assert(!kept.contains(last));
        }
    }
}

/// What a list with one more item holds.
proof fn added_is_contained(s: Seq<Seq<char>>, last: Seq<char>, x: Seq<char>)
    ensures
        s.push(last).contains(x) <==> s.contains(x) || x == last,
{
    if s.contains(x) {
        let i = choose|i: int| 0 <= i < s.len() && s[i] == x;
        assert(s.push(last)[i] == x);
    }
    assert(s.push(last)[s.len() as int] == last);
    if s.push(last).contains(x) && x != last {
        let i = choose|i: int| 0 <= i < s.push(last).len() && s.push(last)[i] == x;
        assert(s[i] == x);
    }
}

/// What was added is all that is new, and nothing comes twice that did not.
pub proof fn added_keeps_the_rest(order: Seq<Seq<char>>, id: Seq<char>)
    ensures
        forall|x: Seq<char>| #[trigger]
            added(order, id).contains(x) <==> order.contains(x) || x == id,
        order.no_duplicates() ==> added(order, id).no_duplicates(),
{
    assert forall|x: Seq<char>| #[trigger]
        added(order, id).contains(x) <==> order.contains(x) || x == id by {
        added_is_contained(order, id, x);
    }
}

impl View for IdSet {
    type V = Set<Seq<char>>;

    open spec fn view(&self) -> Set<Seq<char>> {
        self.order().to_set()
    }
}

impl IdSet {
    /// The identifiers in the order in which they were added.
    pub closed spec fn order(&self) -> Seq<Seq<char>> {
        self.items.deep_view()
    }

    /// The empty set.
    pub fn new() -> (r: IdSet)
        ensures
            r.order() == Seq::<Seq<char>>::empty(),
            r@ == Set::<Seq<char>>::empty(),
    {
        let r = IdSet { items: Vec::new() };
        assert(r.order() =~= Seq::empty());
        assert(r@ =~= Set::empty());
        r
    }

    /// The set of the identifiers in a list.
    pub fn of(items: Vec<String>) -> (r: IdSet)
        ensures
            r.order() == items.deep_view(),
            r@ == items.deep_view().to_set(),
    {
        IdSet { items }
    }

    /// Whether an identifier is in the set.
    pub fn contains(&self, id: &str) -> (r: bool)
        ensures
            r == self@.contains(id@),
            r == self.order().contains(id@),
    {
        text::listed(&self.items, id)
    }

    /// Whether the set is empty.
    pub fn is_empty(&self) -> (r: bool)
        ensures
            r == (self@ == Set::<Seq<char>>::empty()),
            r == (self.order().len() == 0),
    {
        proof {
            if self.order().len() == 0 {
                assert(self@ =~= Set::empty());
            } else {
                assert(self@.contains(self.order()[0]));
            }
        }
        self.items.len() == 0
    }

    /// Adds an identifier and tells whether it is new.
    pub fn insert(&mut self, id: &str) -> (r: bool)
        ensures
            r == !old(self)@.contains(id@),
            final(self)@ == old(self)@.insert(id@),
            final(self).order() == added(old(self).order(), id@),
    {
        if self.contains(id) {
            assert(self@ =~= self@.insert(id@));
            return false;
        }
        let ghost before = self.order();
        self.items.push(id.to_owned());
        proof {
            assert(self.order() =~= before.push(id@));
            assert(self@ =~= before.to_set().insert(id@)) by {
                assert forall|x: Seq<char>| before.push(id@).contains(x) == (before.contains(x) || x == id@) by {
                    if before.contains(x) {
                        let i = choose|i: int| 0 <= i < before.len() && before[i] == x;
                        assert(before.push(id@)[i] == x);
                    }
                    if x == id@ {
                        assert(before.push(id@)[before.len() as int] == x);
                    }
                }
            }
        }
        true
    }

    /// Removes an identifier and tells whether it was there.
    pub fn remove(&mut self, id: &str) -> (r: bool)
        ensures
            r == old(self)@.contains(id@),
            final(self)@ == old(self)@.remove(id@),
            final(self).order() == dropped(old(self).order(), id@),
    {
        let was = self.contains(id);
        let ghost all = self.order();
        let ghost keep = |x: Seq<char>| x != id@;
        let mut kept: Vec<String> = Vec::new();
        assert(kept.deep_view() =~= all.take(0).filter(keep)) by {
            reveal(Seq::filter);
        }
        let mut i: usize = 0;
        while i < self.items.len()
            invariant
                i <= self.items@.len(),
                all == self.items.deep_view(),
                keep == (|x: Seq<char>| x != id@),
                kept.deep_view() == all.take(i as int).filter(keep),
            decreases self.items.len() - i,
        {
            let ghost before = kept.deep_view();
            assert(all.take(i + 1) =~= all.take(i as int).push(all[i as int]));
            proof {
                all.take(i as int).lemma_filter_push(all[i as int], keep);
            }
            if !text::same(self.items[i].as_str(), id) {
                kept.push(self.items[i].clone());
                assert(kept.deep_view() =~= before.push(all[i as int]));
            }
            i = i + 1;
        }
        assert(all.take(all.len() as int) =~= all);
        self.items = kept;
        proof {
            broadcast use vstd::seq_lib::group_filter_ensures;

            assert(self@ =~= all.to_set().remove(id@)) by {
                assert forall|x: Seq<char>| all.filter(keep).contains(x) == (all.contains(x) && x != id@) by {
                    if all.contains(x) && x != id@ {
                        let i = choose|i: int| 0 <= i < all.len() && all[i] == x;
                        assert(keep(all[i]));
                    }
                    if all.filter(keep).contains(x) {
                        let i = choose|i: int|
                            0 <= i < all.filter(keep).len() && all.filter(keep)[i] == x;
                        all.lemma_filter_contains_rev(keep, x);
                    }
                }
            }
        }
        was
    }

    /// A copy of the identifiers, in the order in which they were added.
    pub fn to_vec(&self) -> (r: Vec<String>)
        ensures
            r.deep_view() == self.order(),
    {
        let mut out: Vec<String> = Vec::new();
        for i in 0..self.items.len()
            invariant
                out.deep_view() == self.order().take(i as int),
                self.order() == self.items.deep_view(),
        {
            let ghost before = out.deep_view();
            out.push(self.items[i].clone());
            assert(out.deep_view() =~= before.push(self.order()[i as int]));
            assert(out.deep_view() =~= self.order().take(i + 1));
        }
        assert(self.order().take(self.items@.len() as int) =~= self.order());
        out
    }
}

} // verus!
