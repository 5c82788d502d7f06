use vstd::prelude::*;

use crate::text::{chars_of, eq_chars};

verus! {

/// Keys and values with each key as its characters.
pub open spec fn pair_views<V>(s: Seq<(String, V)>) -> Seq<(Seq<char>, V)> {
    s.map_values(|p: (String, V)| (p.0@, p.1))
}

/// The map a list of entries denotes: later entries win.
pub open spec fn entries_map<V>(s: Seq<(Seq<char>, V)>) -> Map<Seq<char>, V>
    decreases s.len(),
{
    if s.len() == 0 {
        Map::empty()
    } else {
        entries_map(s.drop_last()).insert(s.last().0, s.last().1)
    }
}

pub open spec fn keys_unique<V>(s: Seq<(Seq<char>, V)>) -> bool {
    forall|i: int, j: int| 0 <= i < j < s.len() ==> #[trigger] s[i].0 != #[trigger] s[j].0
}

pub proof fn lemma_entries_lookup<V>(s: Seq<(Seq<char>, V)>)
    requires
        keys_unique(s),
    ensures
        forall|i: int| 0 <= i < s.len() ==> #[trigger] entries_map(s).contains_key(s[i].0)
            && entries_map(s)[s[i].0] == s[i].1,
        forall|k: Seq<char>| #[trigger] entries_map(s).contains_key(k) ==> exists|i: int| 0 <= i < s.len() && s[i].0 == k,
    decreases s.len(),
{
    if s.len() > 0 {
        let d = s.drop_last();
        assert(keys_unique(d)) by {
            assert forall|i: int, j: int| 0 <= i < j < d.len() implies #[trigger] d[i].0 != #[trigger] d[j].0 by {
                assert(d[i] == s[i] && d[j] == s[j]);
            }
        }
        lemma_entries_lookup(d);
        assert forall|i: int| 0 <= i < s.len() implies #[trigger] entries_map(s).contains_key(s[i].0)
            && entries_map(s)[s[i].0] == s[i].1 by {
            if i < s.len() - 1 {
                assert(d[i] == s[i]);
                assert(entries_map(d).contains_key(d[i].0));
                assert(s[i].0 != s[s.len() - 1].0);
                assert(s[s.len() - 1] == s.last());
            } else {
                assert(s[i] == s.last());
            }
        }
        assert forall|k: Seq<char>| #[trigger] entries_map(s).contains_key(k) implies exists|i: int| 0 <= i < s.len() && s[i].0 == k by {
            if k != s.last().0 {
                assert(entries_map(d).contains_key(k));
                let i = choose|i: int| 0 <= i < d.len() && d[i].0 == k;
                assert(s[i] == d[i]);
            } else {
                assert(s[s.len() - 1].0 == k);
            }
        }
    }
}

pub proof fn lemma_entries_update<V>(s: Seq<(Seq<char>, V)>, i: int, v: V)
    requires
        keys_unique(s),
        0 <= i < s.len(),
    ensures
        entries_map(s.update(i, (s[i].0, v))) == entries_map(s).insert(s[i].0, v),
        keys_unique(s.update(i, (s[i].0, v))),
    decreases s.len(),
{
    let u = s.update(i, (s[i].0, v));
    let d = s.drop_last();
    assert(keys_unique(u)) by {
        assert forall|a: int, b: int| 0 <= a < b < u.len() implies #[trigger] u[a].0 != #[trigger] u[b].0 by {
            assert(u[a].0 == s[a].0 && u[b].0 == s[b].0);
        }
    }
    if i == s.len() - 1 {
        assert(u.drop_last() =~= d);
        assert(entries_map(u) =~= entries_map(s).insert(s[i].0, v));
    } else {
        assert(keys_unique(d)) by {
            assert forall|a: int, b: int| 0 <= a < b < d.len() implies #[trigger] d[a].0 != #[trigger] d[b].0 by {
                assert(d[a] == s[a] && d[b] == s[b]);
            }
        }
        lemma_entries_update(d, i, v);
        assert(u.drop_last() =~= d.update(i, (d[i].0, v)));
        assert(s[i].0 != s.last().0);
        assert(entries_map(u) =~= entries_map(s).insert(s[i].0, v));
    }
}

pub proof fn lemma_entries_remove<V>(s: Seq<(Seq<char>, V)>, i: int)
    requires
        keys_unique(s),
        0 <= i < s.len(),
    ensures
        entries_map(s.remove(i)) == entries_map(s).remove(s[i].0),
        keys_unique(s.remove(i)),
    decreases s.len(),
{
    let r = s.remove(i);
    let d = s.drop_last();
    assert(keys_unique(r)) by {
        assert forall|a: int, b: int| 0 <= a < b < r.len() implies #[trigger] r[a].0 != #[trigger] r[b].0 by {
            if b < i {
                assert(r[a] == s[a] && r[b] == s[b]);
            } else if a < i {
                assert(r[a] == s[a] && r[b] == s[b + 1]);
            } else {
                assert(r[a] == s[a + 1] && r[b] == s[b + 1]);
            }
        }
    }
    assert(keys_unique(d)) by {
        assert forall|a: int, b: int| 0 <= a < b < d.len() implies #[trigger] d[a].0 != #[trigger] d[b].0 by {
            assert(d[a] == s[a] && d[b] == s[b]);
        }
    }
    if i == s.len() - 1 {
        assert(r =~= d);
        lemma_entries_lookup(d);
        assert forall|a: int| 0 <= a < d.len() implies d[a].0 != s[i].0 by {
            assert(d[a] == s[a]);
        }
        assert(!entries_map(d).contains_key(s[i].0));
        assert(entries_map(r) =~= entries_map(s).remove(s[i].0));
    } else {
        lemma_entries_remove(d, i);
        assert(r.drop_last() =~= d.remove(i));
        assert(r.last() == s.last());
        assert(s[i].0 != s.last().0);
        assert(entries_map(r) =~= entries_map(s).remove(s[i].0));
    }
}

/// A map from strings, kept as a list of entries with distinct keys.
pub struct StrMap<V> {
    items: Vec<(String, V)>,
}

impl<V> StrMap<V> {
    #[verifier::type_invariant]
    spec fn wf(self) -> bool {
        keys_unique(pair_views(self.items@))
    }

    pub closed spec fn entries(self) -> Seq<(Seq<char>, V)> {
        pair_views(self.items@)
    }

    pub open spec fn view(self) -> Map<Seq<char>, V> {
        entries_map(self.entries())
    }

    pub fn new() -> (m: Self)
        ensures
            m.view() == Map::<Seq<char>, V>::empty(),
            m.entries().len() == 0,
    {
        let m = StrMap { items: Vec::new() };
        assert(pair_views(m.items@) =~= Seq::<(Seq<char>, V)>::empty());
        m
    }

    pub fn len(&self) -> (n: usize)
        ensures
            n == self.entries().len(),
            keys_unique(self.entries()),
    {
        proof {
            use_type_invariant(self);
        }
        self.items.len()
    }

    pub fn key_at(&self, i: usize) -> (k: &String)
        requires
            i < self.entries().len(),
        ensures
            k@ == self.entries()[i as int].0,
    {
        &self.items[i].0
    }

    pub fn value_at(&self, i: usize) -> (v: &V)
        requires
            i < self.entries().len(),
        ensures
            *v == self.entries()[i as int].1,
    {
        &self.items[i].1
    }

    /// Every entry is in the map, and every key of the map is an entry's.
    pub proof fn lemma_view(self)
        requires
            keys_unique(self.entries()),
        ensures
            forall|i: int| 0 <= i < self.entries().len() ==> #[trigger] self.view().contains_key(self.entries()[i].0)
                && self.view()[self.entries()[i].0] == self.entries()[i].1,
            forall|k: Seq<char>| #[trigger] self.view().contains_key(k) ==> exists|i: int| 0 <= i < self.entries().len() && self.entries()[i].0 == k,
    {
        lemma_entries_lookup(self.entries());
    }

    /// The position of `key` among the entries, if it is a key.
    pub fn index_of(&self, key: &Vec<char>) -> (r: Option<usize>)
        ensures
            match r {
                Some(i) => i < self.entries().len() && self.entries()[i as int].0 == key@,
                None => !self.view().contains_key(key@),
            },
    {
        proof {
            use_type_invariant(self);
            self.lemma_view();
        }
        let mut i: usize = 0;
        while i < self.items.len()
            invariant
                i <= self.items.len(),
                self.entries() == pair_views(self.items@),
                forall|j: int| 0 <= j < i ==> self.entries()[j].0 != key@,
            decreases self.items.len() - i,
        {
            let k = chars_of(self.items[i].0.as_str());
            if eq_chars(&k, key) {
                return Some(i);
            }
            i = i + 1;
        }
        None
    }

    pub fn contains_key(&self, key: &str) -> (r: bool)
        ensures
            r == self.view().contains_key(key@),
    {
        proof {
            use_type_invariant(self);
            self.lemma_view();
        }
        self.index_of(&chars_of(key)).is_some()
    }

    pub fn get(&self, key: &str) -> (r: Option<&V>)
        ensures
            match r {
                Some(v) => self.view().contains_key(key@) && *v == self.view()[key@],
                None => !self.view().contains_key(key@),
            },
    {
        proof {
            use_type_invariant(self);
            self.lemma_view();
        }
        match self.index_of(&chars_of(key)) {
            Some(i) => {
                assert(self.entries()[i as int].1 == self.items@[i as int].1);
                assert(self.view().contains_key(self.entries()[i as int].0));
                Some(&self.items[i].1)
            },
            None => None,
        }
    }

    /// Replaces the value of the entry at `i`, keeping its key and place.
    pub fn set_value_at(&mut self, i: usize, v: V)
        requires
            i < old(self).entries().len(),
        ensures
            final(self).entries() == old(self).entries().update(i as int, (old(self).entries()[i as int].0, v)),
            final(self).view() == old(self).view().insert(old(self).entries()[i as int].0, v),
    {
        proof {
            use_type_invariant(&*self);
            lemma_entries_update(self.entries(), i as int, v);
        }
        let ghost before = self.entries();
        let mut items = Vec::new();
        std::mem::swap(&mut items, &mut self.items);
        let k = items[i].0.clone();
        items.set(i, (k, v));
        assert(pair_views(items@) =~= before.update(i as int, (before[i as int].0, v)));
        self.items = items;
    }

    /// `HashMap::insert`: the value for `key` becomes `v`.
    pub fn insert(&mut self, key: String, v: V)
        ensures
            final(self).view() == old(self).view().insert(key@, v),
    {
        proof {
            use_type_invariant(&*self);
        }
        match self.index_of(&chars_of(key.as_str())) {
            Some(i) => {
                self.set_value_at(i, v);
            },
            None => {
                proof {
                    use_type_invariant(&*self);
                    self.lemma_view();
                }
                let ghost before = self.entries();
                let mut items = Vec::new();
                std::mem::swap(&mut items, &mut self.items);
                let ghost k = key@;
                items.push((key, v));
                assert(pair_views(items@) =~= before.push((k, v)));
                assert(before.push((k, v)).drop_last() =~= before);
                assert(keys_unique(pair_views(items@))) by {
                    assert forall|a: int, b: int| 0 <= a < b < pair_views(items@).len() implies
                        #[trigger] pair_views(items@)[a].0 != #[trigger] pair_views(items@)[b].0 by {
                        if b == before.len() {
                            assert(pair_views(items@)[a] == before[a]);
                        } else {
                            assert(pair_views(items@)[a] == before[a] && pair_views(items@)[b] == before[b]);
                        }
                    }
                }
                self.items = items;
            },
        }
    }

    /// `HashMap::remove`: `key` is no longer a key.
    pub fn remove(&mut self, key: &str)
        ensures
            final(self).view() == old(self).view().remove(key@),
    {
        match self.index_of(&chars_of(key)) {
            Some(i) => {
                proof {
                    use_type_invariant(&*self);
                    lemma_entries_remove(self.entries(), i as int);
                }
                let ghost before = self.entries();
                let mut items = Vec::new();
                std::mem::swap(&mut items, &mut self.items);
                items.remove(i);
                assert(pair_views(items@) =~= before.remove(i as int));
                self.items = items;
            },
            None => {
                assert(self.view().remove(key@) =~= self.view());
            },
        }
    }

    /// The entries, in order, as owned pairs.
    pub fn into_entries(self) -> (v: Vec<(String, V)>)
        ensures
            pair_views(v@) == self.entries(),
            keys_unique(pair_views(v@)),
    {
        proof {
            use_type_invariant(&self);
        }
        self.items
    }

    /// A map from entries whose keys are distinct.
    pub fn from_entries(v: Vec<(String, V)>) -> (m: Self)
        requires
            keys_unique(pair_views(v@)),
        ensures
            m.entries() == pair_views(v@),
    {
        StrMap { items: v }
    }
}

} // verus!
