//! A keyed store with two-part keys, standing for the host's double maps
//! (keyed by feed and account). Viewed as a `Map<(u64, u64), T>`.

use vstd::prelude::*;

verus! {

/// Whether the key pairs of an entry sequence are pairwise distinct.
pub open spec fn distinct_pair_keys<T>(s: Seq<(u64, u64, T)>) -> bool {
    forall|i: int, j: int|
        0 <= i < j < s.len() ==> !(s[i].0 == s[j].0 && s[i].1 == s[j].1)
}

/// The map an entry sequence denotes.
pub open spec fn pair_entries_map<T>(s: Seq<(u64, u64, T)>) -> Map<(u64, u64), T>
    decreases s.len(),
{
    if s.len() == 0 {
        Map::empty()
    } else {
        pair_entries_map(s.drop_last()).insert((s.last().0, s.last().1), s.last().2)
    }
}

/// A key is in the map exactly when some entry holds it.
pub proof fn lemma_pair_entries_map_contains<T>(s: Seq<(u64, u64, T)>, k: (u64, u64))
    ensures
        pair_entries_map(s).contains_key(k) <==> exists|i: int|
            0 <= i < s.len() && s[i].0 == k.0 && s[i].1 == k.1,
    decreases s.len(),
{
    if s.len() > 0 {
        lemma_pair_entries_map_contains(s.drop_last(), k);
        if pair_entries_map(s).contains_key(k) {
            if k == (s.last().0, s.last().1) {
                assert(s[s.len() - 1].0 == k.0 && s[s.len() - 1].1 == k.1);
            } else {
                let i = choose|i: int|
                    0 <= i < s.drop_last().len() && s.drop_last()[i].0 == k.0
                        && s.drop_last()[i].1 == k.1;
                assert(s[i].0 == k.0 && s[i].1 == k.1);
            }
        }
        if exists|i: int| 0 <= i < s.len() && s[i].0 == k.0 && s[i].1 == k.1 {
            let i = choose|i: int| 0 <= i < s.len() && s[i].0 == k.0 && s[i].1 == k.1;
            if i < s.len() - 1 {
                assert(s.drop_last()[i].0 == k.0 && s.drop_last()[i].1 == k.1);
            }
        }
    }
}

/// With distinct keys, the entry holding a key gives the map's value at it.
pub proof fn lemma_pair_entries_map_get<T>(s: Seq<(u64, u64, T)>, i: int)
    requires
        distinct_pair_keys(s),
        0 <= i < s.len(),
    ensures
        pair_entries_map(s).contains_key((s[i].0, s[i].1)),
        pair_entries_map(s)[(s[i].0, s[i].1)] == s[i].2,
    decreases s.len(),
{
    if i == s.len() - 1 {
    } else {
        assert(distinct_pair_keys(s.drop_last()));
        assert(s.drop_last()[i] == s[i]);
        lemma_pair_entries_map_get(s.drop_last(), i);
        assert(!(s[i].0 == s.last().0 && s[i].1 == s.last().1));
    }
}

/// Updating the entry that holds a key is inserting at that key.
proof fn lemma_pair_entries_map_update<T>(s: Seq<(u64, u64, T)>, i: int, k: (u64, u64), v: T)
    requires
        distinct_pair_keys(s),
        0 <= i < s.len(),
        s[i].0 == k.0,
        s[i].1 == k.1,
    ensures
        pair_entries_map(s.update(i, (k.0, k.1, v))) == pair_entries_map(s).insert(k, v),
        distinct_pair_keys(s.update(i, (k.0, k.1, v))),
    decreases s.len(),
{
    let t = s.update(i, (k.0, k.1, v));
    assert(forall|j: int| 0 <= j < s.len() ==> t[j].0 == s[j].0 && t[j].1 == s[j].1);
    if i == s.len() - 1 {
        assert(t.drop_last() =~= s.drop_last());
        assert((s.last().0, s.last().1) == k);
        assert(pair_entries_map(t) =~= pair_entries_map(s).insert(k, v));
    } else {
        assert(distinct_pair_keys(s.drop_last()));
        assert(s.drop_last()[i] == s[i]);
        lemma_pair_entries_map_update(s.drop_last(), i, k, v);
        assert(t.drop_last() =~= s.drop_last().update(i, (k.0, k.1, v)));
        assert(t.last() == s.last());
        assert(!(k.0 == s.last().0 && k.1 == s.last().1));
        assert(pair_entries_map(t) =~= pair_entries_map(s).insert(k, v));
    }
}

/// Removing the entry that holds a key is removing that key from the map.
proof fn lemma_pair_entries_map_remove<T>(s: Seq<(u64, u64, T)>, i: int)
    requires
        distinct_pair_keys(s),
        0 <= i < s.len(),
    ensures
        pair_entries_map(s.remove(i)) == pair_entries_map(s).remove((s[i].0, s[i].1)),
        distinct_pair_keys(s.remove(i)),
    decreases s.len(),
{
    let k = (s[i].0, s[i].1);
    let t = s.remove(i);
    assert(forall|j: int| 0 <= j < i ==> t[j] == s[j]);
    assert(forall|j: int| i <= j < t.len() ==> t[j] == s[j + 1]);
    assert(distinct_pair_keys(t));
    if i == s.len() - 1 {
        assert(t =~= s.drop_last());
        assert(forall|j: int|
            0 <= j < s.drop_last().len() ==> !(s[j].0 == k.0 && s[j].1 == k.1));
        lemma_pair_entries_map_contains(s.drop_last(), k);
        assert(!pair_entries_map(s.drop_last()).contains_key(k));
        assert(pair_entries_map(s.remove(i)) =~= pair_entries_map(s).remove(k));
    } else {
        assert(distinct_pair_keys(s.drop_last()));
        assert(s.drop_last()[i] == s[i]);
        lemma_pair_entries_map_remove(s.drop_last(), i);
        assert(t.drop_last() =~= s.drop_last().remove(i));
        assert(t.last() == s.last());
        assert(!(k.0 == s.last().0 && k.1 == s.last().1));
        assert(pair_entries_map(t) =~= pair_entries_map(s).remove(k));
    }
}

/// A keyed store with `(u64, u64)` keys, viewed as a `Map<(u64, u64), T>`.
pub struct PairTable<T> {
    pub entries: Vec<(u64, u64, T)>,
}

impl<T> View for PairTable<T> {
    type V = Map<(u64, u64), T>;

    open spec fn view(&self) -> Map<(u64, u64), T> {
        pair_entries_map(self.entries@)
    }
}

impl<T> PairTable<T> {
    /// The store's internal invariant: one entry per key pair.
    pub open spec fn wf(self) -> bool {
        distinct_pair_keys(self.entries@)
    }

    /// An empty store.
    pub fn new() -> (r: Self)
        ensures
            r.wf(),
            r@ == Map::<(u64, u64), T>::empty(),
    {
        PairTable { entries: Vec::new() }
    }

    /// Index of the entry holding `(a, b)`, if any.
    fn find(&self, a: u64, b: u64) -> (r: Option<usize>)
        ensures
            match r {
                Some(i) => i < self.entries@.len() && self.entries@[i as int].0 == a
                    && self.entries@[i as int].1 == b,
                None => forall|i: int|
                    0 <= i < self.entries@.len() ==> !(self.entries@[i].0 == a
                        && self.entries@[i].1 == b),
            },
    {
        let mut i: usize = 0;
        while i < self.entries.len()
            invariant
                i <= self.entries@.len(),
                forall|j: int| 0 <= j < i ==> !(self.entries@[j].0 == a && self.entries@[j].1 == b),
            decreases self.entries@.len() - i,
        {
            if self.entries[i].0 == a && self.entries[i].1 == b {
                return Some(i);
            }
            i = i + 1;
        }
        None
    }

    /// Whether the store holds `(a, b)`.
    pub fn contains(&self, a: u64, b: u64) -> (r: bool)
        ensures
            r == self@.contains_key((a, b)),
    {
        proof {
            lemma_pair_entries_map_contains(self.entries@, (a, b));
        }
        self.find(a, b).is_some()
    }

    /// The value at `(a, b)`, if any.
    pub fn get(&self, a: u64, b: u64) -> (r: Option<&T>)
        requires
            self.wf(),
        ensures
            match r {
                Some(v) => self@.contains_key((a, b)) && *v == self@[(a, b)],
                None => !self@.contains_key((a, b)),
            },
    {
        proof {
            lemma_pair_entries_map_contains(self.entries@, (a, b));
        }
        match self.find(a, b) {
            Some(i) => {
                proof {
                    lemma_pair_entries_map_get(self.entries@, i as int);
                }
                Some(&self.entries[i].2)
            },
            None => None,
        }
    }

    /// Sets the value at `(a, b)`, keeping every other key.
    pub fn insert(&mut self, a: u64, b: u64, v: T)
        requires
            old(self).wf(),
        ensures
            final(self).wf(),
            final(self)@ == old(self)@.insert((a, b), v),
    {
        match self.find(a, b) {
            Some(i) => {
                proof {
                    lemma_pair_entries_map_update(self.entries@, i as int, (a, b), v);
                }
                self.entries.set(i, (a, b, v));
            },
            None => {
                proof {
                    let s = self.entries@;
                    assert(s.push((a, b, v)).drop_last() =~= s);
                }
                self.entries.push((a, b, v));
            },
        }
    }

    /// Drops `(a, b)`, keeping every other key; no effect when absent.
    pub fn remove(&mut self, a: u64, b: u64)
        requires
            old(self).wf(),
        ensures
            final(self).wf(),
            final(self)@ == old(self)@.remove((a, b)),
    {
        match self.find(a, b) {
            Some(i) => {
                proof {
                    lemma_pair_entries_map_remove(self.entries@, i as int);
                }
                let _ = self.entries.remove(i);
            },
            None => {
                proof {
                    lemma_pair_entries_map_contains(self.entries@, (a, b));
                    assert(pair_entries_map(self.entries@) =~= pair_entries_map(
                        self.entries@,
                    ).remove((a, b)));
                }
            },
        }
    }
}

} // verus!
