//! A component table: an association list from entity key to component value,
//! with unique keys and a deterministic iteration order.
//!
//! The table is viewed two ways: as the sequence of its entries (`pairs`),
//! which fixes iteration order, and as the finite map it denotes (`@`).

use vstd::prelude::*;

verus! {

/// The map denoted by an entry sequence; a later entry for a key wins.
pub open spec fn map_of<V>(s: Seq<(u64, V)>) -> Map<u64, V>
    decreases s.len(),
{
    if s.len() == 0 {
        Map::empty()
    } else {
        map_of(s.drop_last()).insert(s.last().0, s.last().1)
    }
}

/// No two entries share a key.
pub open spec fn unique_keys<V>(s: Seq<(u64, V)>) -> bool {
    forall|i: int, j: int| 0 <= i < j < s.len() ==> s[i].0 != s[j].0
}

/// The index of the entry holding `k`, assuming one exists.
pub open spec fn key_index<V>(s: Seq<(u64, V)>, k: u64) -> int {
    choose|i: int| 0 <= i < s.len() && s[i].0 == k
}

pub proof fn lemma_map_of_domain<V>(s: Seq<(u64, V)>, k: u64)
    ensures
        map_of(s).contains_key(k) <==> exists|i: int| 0 <= i < s.len() && s[i].0 == k,
    decreases s.len(),
{
    if s.len() > 0 {
        lemma_map_of_domain(s.drop_last(), k);
        if map_of(s).contains_key(k) {
            if s.last().0 != k {
                let i = choose|i: int| 0 <= i < s.drop_last().len() && s.drop_last()[i].0 == k;
                assert(s[i].0 == k);
            }
        }
        if exists|i: int| 0 <= i < s.len() && s[i].0 == k {
            let i = choose|i: int| 0 <= i < s.len() && s[i].0 == k;
            if i < s.len() - 1 {
                assert(s.drop_last()[i].0 == k);
            }
        }
    }
}

pub proof fn lemma_map_of_entry<V>(s: Seq<(u64, V)>, i: int)
    requires
        unique_keys(s),
        0 <= i < s.len(),
    ensures
        map_of(s).contains_key(s[i].0),
        map_of(s)[s[i].0] == s[i].1,
    decreases s.len(),
{
    if i < s.len() - 1 {
        assert(s.drop_last()[i] == s[i]);
        lemma_map_of_entry(s.drop_last(), i);
        assert(s.last().0 != s[i].0);
    }
}

pub proof fn lemma_map_of_update<V>(s: Seq<(u64, V)>, i: int, v: V)
    requires
        unique_keys(s),
        0 <= i < s.len(),
    ensures
        map_of(s.update(i, (s[i].0, v))) =~= map_of(s).insert(s[i].0, v),
        unique_keys(s.update(i, (s[i].0, v))),
    decreases s.len(),
{
    let k = s[i].0;
    let t = s.update(i, (k, v));
    assert forall|a: int, b: int| 0 <= a < b < t.len() implies t[a].0 != t[b].0 by {
        assert(t[a].0 == s[a].0 && t[b].0 == s[b].0);
    }
    if i == s.len() - 1 {
        assert(t.drop_last() =~= s.drop_last());
    } else {
        assert(t.drop_last() =~= s.drop_last().update(i, (k, v)));
        assert(s.drop_last()[i].0 == k);
        lemma_map_of_update(s.drop_last(), i, v);
        assert(s.last().0 != k);
        assert(map_of(t) =~= map_of(s.drop_last()).insert(k, v).insert(s.last().0, s.last().1));
        assert(map_of(s).insert(k, v) =~= map_of(s.drop_last()).insert(
            s.last().0,
            s.last().1,
        ).insert(k, v));
    }
}

pub proof fn lemma_map_of_remove<V>(s: Seq<(u64, V)>, i: int)
    requires
        unique_keys(s),
        0 <= i < s.len(),
    ensures
        map_of(s.remove(i)) =~= map_of(s).remove(s[i].0),
        unique_keys(s.remove(i)),
    decreases s.len(),
{
    let k = s[i].0;
    let t = s.remove(i);
    assert forall|a: int, b: int| 0 <= a < b < t.len() implies t[a].0 != t[b].0 by {
        let a0: int = if a < i {
            a
        } else {
            a + 1
        };
        let b0: int = if b < i {
            b
        } else {
            b + 1
        };
        assert(t[a].0 == s[a0].0 && t[b].0 == s[b0].0);
    }
    if i == s.len() - 1 {
        assert(t =~= s.drop_last());
        lemma_map_of_not_contains(s.drop_last(), k);
    } else {
        assert(t.drop_last() =~= s.drop_last().remove(i));
        assert(t.last() == s.last());
        lemma_map_of_remove(s.drop_last(), i);
        assert(s.last().0 != k);
    }
}

pub proof fn lemma_map_of_not_contains<V>(s: Seq<(u64, V)>, k: u64)
    requires
        forall|i: int| 0 <= i < s.len() ==> s[i].0 != k,
    ensures
        !map_of(s).contains_key(k),
{
    lemma_map_of_domain(s, k);
}

/// The map denoted by a finite entry sequence has a finite domain.
pub proof fn lemma_map_of_finite<V>(s: Seq<(u64, V)>)
    ensures
        map_of(s).dom().finite(),
    decreases s.len(),
{
    if s.len() == 0 {
        assert(map_of(s).dom() =~= Set::<u64>::empty());
    } else {
        lemma_map_of_finite(s.drop_last());
        assert(map_of(s).dom() =~= map_of(s.drop_last()).dom().insert(s.last().0));
    }
}

/// A table with no entries at all.
pub open spec fn tbl_empty<V>(t: Table<V>) -> bool {
    t.pairs().len() == 0 && t@ =~= Map::empty()
}

pub struct Table<V> {
    entries: Vec<(u64, V)>,
}

impl<V> View for Table<V> {
    type V = Map<u64, V>;

    closed spec fn view(&self) -> Map<u64, V> {
        map_of(self.entries@)
    }
}

impl<V> Table<V> {
    /// The entries in iteration order.
    pub closed spec fn pairs(&self) -> Seq<(u64, V)> {
        self.entries@
    }

    /// Well-formed: one entry per key.
    pub open spec fn wf(&self) -> bool {
        unique_keys(self.pairs())
    }

    pub open spec fn spec_get(&self, k: u64) -> Option<V> {
        if self@.contains_key(k) {
            Some(self@[k])
        } else {
            None
        }
    }

    /// A table's map view always has a finite domain.
    pub proof fn lemma_dom_finite(&self)
        ensures
            self@.dom().finite(),
    {
        lemma_map_of_finite(self.entries@);
    }

    pub proof fn lemma_view(&self)
        requires
            self.wf(),
        ensures
            forall|i: int|
                0 <= i < self.pairs().len() ==> self@.contains_key(#[trigger] self.pairs()[i].0)
                    && self@[self.pairs()[i].0] == self.pairs()[i].1,
            forall|k: u64|
                self@.contains_key(k) ==> exists|i: int|
                    0 <= i < self.pairs().len() && self.pairs()[i] == (k, self@[k]),
    {
        assert forall|i: int| 0 <= i < self.pairs().len() implies self@.contains_key(
            #[trigger] self.pairs()[i].0,
        ) && self@[self.pairs()[i].0] == self.pairs()[i].1 by {
            lemma_map_of_entry(self.pairs(), i);
        }
        assert forall|k: u64| self@.contains_key(k) implies exists|i: int|
            0 <= i < self.pairs().len() && self.pairs()[i] == (k, self@[k]) by {
            lemma_map_of_domain(self.pairs(), k);
            let i = choose|i: int| 0 <= i < self.pairs().len() && self.pairs()[i].0 == k;
            lemma_map_of_entry(self.pairs(), i);
            assert(self.pairs()[i] == (k, self@[k]));
        }
    }

    pub fn new() -> (t: Self)
        ensures
            t.wf(),
            t@ =~= Map::<u64, V>::empty(),
            t.pairs() =~= Seq::<(u64, V)>::empty(),
    {
        Table { entries: Vec::new() }
    }

    pub fn len(&self) -> (n: usize)
        ensures
            n == self.pairs().len(),
    {
        self.entries.len()
    }

    pub fn key_at(&self, i: usize) -> (k: u64)
        requires
            i < self.pairs().len(),
        ensures
            k == self.pairs()[i as int].0,
    {
        self.entries[i].0
    }

    pub fn val_at(&self, i: usize) -> (v: &V)
        requires
            i < self.pairs().len(),
        ensures
            *v == self.pairs()[i as int].1,
    {
        &self.entries[i].1
    }

    /// Index of the entry for `k`, by linear search.
    fn find(&self, k: u64) -> (r: Option<usize>)
        requires
            self.wf(),
        ensures
            match r {
                Some(i) => i < self.pairs().len() && self.pairs()[i as int].0 == k
                    && self@.contains_key(k) && i == key_index(self.pairs(), k),
                None => !self@.contains_key(k),
            },
    {
        let mut i: usize = 0;
        while i < self.entries.len()
            invariant
                self.wf(),
                i <= self.pairs().len(),
                forall|j: int| 0 <= j < i ==> self.pairs()[j].0 != k,
            decreases self.pairs().len() - i,
        {
            if self.entries[i].0 == k {
                proof {
                    lemma_map_of_entry(self.pairs(), i as int);
                    let w = key_index(self.pairs(), k);
                    assert(self.pairs()[w].0 == k);
                    assert(w == i as int);
                }
                return Some(i);
            }
            i = i + 1;
        }
        proof {
            lemma_map_of_not_contains(self.pairs(), k);
        }
        None
    }

    pub fn contains_key(&self, k: u64) -> (r: bool)
        requires
            self.wf(),
        ensures
            r == self@.contains_key(k),
    {
        self.find(k).is_some()
    }

    pub fn get(&self, k: u64) -> (r: Option<&V>)
        requires
            self.wf(),
        ensures
            match r {
                Some(v) => self@.contains_key(k) && self@[k] == *v && self.spec_get(k)
                    == Some(*v),
                None => !self@.contains_key(k) && self.spec_get(k) is None,
            },
    {
        match self.find(k) {
            Some(i) => {
                proof {
                    lemma_map_of_entry(self.pairs(), i as int);
                }
                Some(&self.entries[i].1)
            },
            None => None,
        }
    }

    /// Insert or replace. A replaced key keeps its place in iteration order;
    /// a new key goes to the back.
    pub fn insert(&mut self, k: u64, v: V)
        requires
            old(self).wf(),
        ensures
            final(self).wf(),
            final(self)@ =~= old(self)@.insert(k, v),
            old(self)@.contains_key(k) ==> final(self).pairs() =~= old(self).pairs().update(
                key_index(old(self).pairs(), k),
                (k, v),
            ),
            !old(self)@.contains_key(k) ==> final(self).pairs() =~= old(self).pairs().push((k, v)),
    {
        match self.find(k) {
            Some(i) => {
                proof {
                    lemma_map_of_update(self.pairs(), i as int, v);
                }
                self.entries.set(i, (k, v));
            },
            None => {
                self.entries.push((k, v));
                proof {
                    assert(self.pairs().drop_last() =~= old(self).pairs());
                    assert forall|a: int, b: int| 0 <= a < b < self.pairs().len() implies self
                        .pairs()[a].0 != self.pairs()[b].0 by {
                        if b == self.pairs().len() - 1 {
                            lemma_map_of_entry(old(self).pairs(), a);
                        }
                    }
                }
            },
        }
    }

    /// Remove the entry for `k`, if any; later entries keep their order.
    pub fn remove(&mut self, k: u64)
        requires
            old(self).wf(),
        ensures
            final(self).wf(),
            final(self)@ =~= old(self)@.remove(k),
            old(self)@.contains_key(k) ==> final(self).pairs() =~= old(self).pairs().remove(
                key_index(old(self).pairs(), k),
            ),
            !old(self)@.contains_key(k) ==> final(self).pairs() =~= old(self).pairs(),
    {
        match self.find(k) {
            Some(i) => {
                proof {
                    lemma_map_of_remove(self.pairs(), i as int);
                }
                self.entries.remove(i);
            },
            None => {
                proof {
                    assert(old(self)@.remove(k) =~= old(self)@);
                }
            },
        }
    }
}

} // verus!
