//! A table from texts to values.
use vstd::prelude::*;
use crate::text;

verus! {

/// A table from texts to values.
pub struct Table<V> {
    entries: Vec<(String, V)>,
}

/// The value that a list of entries gives a key: that of its last entry.
spec fn lookup<V>(entries: Seq<(String, V)>, key: Seq<char>) -> Option<V>
    decreases entries.len(),
{
    if entries.len() == 0 {
        None
    } else if entries.last().0@ == key {
        Some(entries.last().1)
    } else {
        lookup(entries.drop_last(), key)
    }
}

impl<V> View for Table<V> {
    type V = Map<Seq<char>, V>;

    closed spec fn view(&self) -> Map<Seq<char>, V> {
        Map::new(
            |k: Seq<char>| lookup(self.entries@, k) is Some,
            |k: Seq<char>| lookup(self.entries@, k)->0,
        )
    }
}

/// Whether one of the first `n` entries has a key.
spec fn keyed<V>(entries: Seq<(String, V)>, n: int, key: Seq<char>) -> bool {
    exists|i: int| 0 <= i < n && (#[trigger] entries[i]).0@ == key
}

/// A key that no entry has gives nothing.
proof fn absent<V>(entries: Seq<(String, V)>, key: Seq<char>)
    requires
        forall|i: int| 0 <= i < entries.len() ==> (#[trigger] entries[i]).0@ != key,
    ensures
        lookup(entries, key) is None,
    decreases entries.len(),
{
    if entries.len() > 0 {
        assert(entries.last() == entries[entries.len() - 1]);
        assert forall|i: int| 0 <= i < entries.drop_last().len() implies (
        #[trigger] entries.drop_last()[i]).0@ != key by {
            assert(entries.drop_last()[i] == entries[i]);
        }
        absent(entries.drop_last(), key);
    }
}

/// A key with an entry gives something.
proof fn present<V>(entries: Seq<(String, V)>, i: int)
    requires
        0 <= i < entries.len(),
    ensures
        lookup(entries, entries[i].0@) is Some,
    decreases entries.len(),
{
    if i < entries.len() - 1 {
        assert(entries.drop_last()[i] == entries[i]);
        present(entries.drop_last(), i);
    }
}

/// A list without an entry of another key gives a key the same value.
proof fn removal<V>(entries: Seq<(String, V)>, i: int, key: Seq<char>)
    requires
        0 <= i < entries.len(),
        entries[i].0@ != key,
    ensures
        lookup(entries.remove(i), key) == lookup(entries, key),
    decreases entries.len(),
{
    if i == entries.len() - 1 {
        assert(entries.remove(i) =~= entries.drop_last());
    } else {
        assert(entries.remove(i).drop_last() =~= entries.drop_last().remove(i));
        assert(entries.remove(i).last() == entries.last());
        removal(entries.drop_last(), i, key);
    }
}

impl<V> Table<V> {
    /// The empty table.
    pub fn new() -> (r: Table<V>)
        ensures
            r@ == Map::<Seq<char>, V>::empty(),
    {
        let r = Table { entries: Vec::new() };
        assert(r@ =~= Map::<Seq<char>, V>::empty());
        r
    }

    /// The value of a key.
    pub fn get(&self, key: &str) -> (r: Option<&V>)
        ensures
            match r {
                Some(v) => self@.contains_key(key@) && self@[key@] == *v,
                None => !self@.contains_key(key@),
            },
    {
        let ghost all = self.entries@;
        let mut i: usize = self.entries.len();
        assert(all.take(i as int) =~= all);
        while i > 0
            invariant
                all == self.entries@,
                i <= all.len(),
                lookup(all, key@) == lookup(all.take(i as int), key@),
            decreases i,
        {
            assert(all.take(i as int).drop_last() =~= all.take(i - 1));
            assert(all.take(i as int).last() == all[i - 1]);
            if text::same(self.entries[i - 1].0.as_str(), key) {
                return Some(&self.entries[i - 1].1);
            }
            i = i - 1;
        }
        None
    }

    /// Takes a key out of the table, and gives the value that it had.
    pub fn remove(&mut self, key: &str) -> (r: Option<V>)
        ensures
            final(self)@ == old(self)@.remove(key@),
            r == if old(self)@.contains_key(key@) {
                Some(old(self)@[key@])
            } else {
                None
            },
    {
        let ghost all = self.entries@;
        let ghost before = self@;
        let mut found: Option<V> = None;
        let mut i: usize = self.entries.len();
        assert(all.take(i as int) =~= all);
        while i > 0
            invariant
                i <= self.entries@.len(),
                before == Map::new(
                    |k: Seq<char>| lookup(all, k) is Some,
                    |k: Seq<char>| lookup(all, k)->0,
                ),
                forall|j: int|
                    i <= j < self.entries@.len() ==> (#[trigger] self.entries@[j]).0@ != key@,
                forall|k: Seq<char>|
                    k != key@ ==> #[trigger] lookup(self.entries@, k) == lookup(all, k),
                self.entries@.take(i as int) == all.take(i as int),
                i <= all.len(),
                match found {
                    Some(v) => lookup(all, key@) == Some(v),
                    None => lookup(all, key@) == lookup(all.take(i as int), key@),
                },
            decreases i,
        {
            let ghost now = self.entries@;
            assert(all.take(i as int).drop_last() =~= all.take(i - 1));
            assert(all.take(i as int).last() == all[i - 1]);
            assert(now.take(i as int)[i - 1] == now[i - 1]);
            assert(all.take(i as int)[i - 1] == all[i - 1]);
            if text::same(self.entries[i - 1].0.as_str(), key) {
                let (_, v) = self.entries.remove(i - 1);
                proof {
                    assert forall|k: Seq<char>| k != key@ implies #[trigger] lookup(
                        self.entries@,
                        k,
                    ) == lookup(all, k) by {
                        removal(now, i - 1, k);
                    }
                    assert forall|j: int| i - 1 <= j < self.entries@.len() implies (
                    #[trigger] self.entries@[j]).0@ != key@ by {
                        assert(self.entries@[j] == now[j + 1]);
                    }
                }
                if found.is_none() {
                    found = Some(v);
                }
            }
            i = i - 1;
            assert(self.entries@.take(i as int) =~= now.take(i + 1).take(i as int));
            assert(all.take(i as int) =~= all.take(i + 1).take(i as int));
        }
        proof {
            absent(self.entries@, key@);
            assert(self@ =~= before.remove(key@));
        }
        found
    }

    /// Gives a key a value.
    pub fn insert(&mut self, key: String, value: V)
        ensures
            final(self)@ == old(self)@.insert(key@, value),
    {
        let ghost before = self@;
        let ghost k0 = key@;
        let _ = self.remove(key.as_str());
        let ghost rest = self.entries@;
        let ghost mid = self@;
        self.entries.push((key, value));
        assert(self.entries@.drop_last() =~= rest);
        assert forall|k: Seq<char>| #[trigger]
            self@.contains_key(k) == before.insert(k0, value).contains_key(k) && (
        self@.contains_key(k) ==> self@[k] == before.insert(k0, value)[k]) by {
            assert(self.entries@.last().0@ == k0 && self.entries@.last().1 == value);
            assert(mid == before.remove(k0));
            assert(mid.contains_key(k) == (lookup(rest, k) is Some));
            if k != k0 {
                assert(lookup(self.entries@, k) == lookup(rest, k));
                assert(mid.contains_key(k) ==> mid[k] == lookup(rest, k)->0);
            } else {
                assert(lookup(self.entries@, k) == Some(value));
            }
        }
        assert(self@ =~= before.insert(k0, value));
    }

    /// The keys of the table, each once.
    pub fn keys(&self) -> (r: Vec<String>)
        ensures
            r.deep_view().no_duplicates(),
            forall|k: Seq<char>| r.deep_view().contains(k) == self@.contains_key(k),
    {
        let mut out: Vec<String> = Vec::new();
        let ghost all = self.entries@;
        for i in 0..self.entries.len()
            invariant
                all == self.entries@,
                out.deep_view().no_duplicates(),
                forall|k: Seq<char>| #[trigger] out.deep_view().contains(k) == keyed(all, i as int, k),
        {
            let ghost before = out.deep_view();
            let key = self.entries[i].0.clone();
            let ghost k0 = key@;
            if !text::listed(&out, key.as_str()) {
                text::push(&mut out, key);
            }
            assert forall|k: Seq<char>| #[trigger]
                out.deep_view().contains(k) == keyed(all, i + 1, k) by {
                assert(before.contains(k) == keyed(all, i as int, k));
                if keyed(all, i + 1, k) {
                    let m = choose|m: int| 0 <= m < i + 1 && (#[trigger] all[m]).0@ == k;
                    if m < i {
                        assert(keyed(all, i as int, k));
                    }
                }
                if before.contains(k) {
                    let m = choose|m: int| 0 <= m < i && (#[trigger] all[m]).0@ == k;
                    assert(0 <= m < i + 1 && all[m].0@ == k);
                    let n = choose|n: int| 0 <= n < before.len() && before[n] == k;
                    assert(out.deep_view()[n] == k);
                }
                if k == k0 {
                    assert(all[i as int].0@ == k);
                    if !before.contains(k0) {
                        assert(out.deep_view()[before.len() as int] == k);
                    }
                }
                if out.deep_view().contains(k) && !before.contains(k) {
                    let n = choose|n: int| 0 <= n < out.deep_view().len() && out.deep_view()[n] == k;
                    if n < before.len() {
                        assert(before[n] == k);
                    }
                    assert(all[i as int].0@ == k);
                }
            }
        }
        assert forall|k: Seq<char>| out.deep_view().contains(k) == self@.contains_key(k) by {
            assert(out.deep_view().contains(k) == keyed(all, all.len() as int, k));
            if keyed(all, all.len() as int, k) {
                let n = choose|n: int| 0 <= n < all.len() && (#[trigger] all[n]).0@ == k;
                present(all, n);
            } else {
                absent(all, k);
            }
        }
        out
    }
}

} // verus!
