//! A small map from texts to values, kept as a list of distinct keys in
//! insertion order. It stands where the service keeps per-device state.

use vstd::prelude::*;
use crate::text::str_eq;

verus! {

/// No key occurs twice.
pub open spec fn keys_distinct<V>(e: Seq<(String, V)>) -> bool {
    forall|i: int, j: int| 0 <= i < j < e.len() ==> (#[trigger] e[i]).0@ != (#[trigger] e[j]).0@
}

/// The map that a list of (key, value) entries stands for; a later entry
/// wins over an earlier one with the same key.
pub open spec fn map_of<V>(e: Seq<(String, V)>) -> Map<Seq<char>, V>
    decreases e.len(),
{
    if e.len() == 0 {
        Map::empty()
    } else {
        map_of(e.drop_last()).insert(e.last().0@, e.last().1)
    }
}

pub proof fn lemma_map_of_dom<V>(e: Seq<(String, V)>, k: Seq<char>)
    ensures
        map_of(e).contains_key(k) <==> exists|i: int| 0 <= i < e.len() && (#[trigger] e[i]).0@ == k,
    decreases e.len(),
{
    if e.len() > 0 {
        lemma_map_of_dom(e.drop_last(), k);
        if map_of(e).contains_key(k) && e.last().0@ != k {
            let i = choose|i: int| 0 <= i < e.drop_last().len() && (#[trigger] e.drop_last()[i]).0@ == k;
            assert(e[i] == e.drop_last()[i]);
        }
        if exists|i: int| 0 <= i < e.len() && (#[trigger] e[i]).0@ == k {
            let i = choose|i: int| 0 <= i < e.len() && (#[trigger] e[i]).0@ == k;
            if i < e.len() - 1 {
                assert(e.drop_last()[i] == e[i]);
            }
        }
    }
}

pub proof fn lemma_map_of_index<V>(e: Seq<(String, V)>, i: int)
    requires
        keys_distinct(e),
        0 <= i < e.len(),
    ensures
        map_of(e).contains_key(e[i].0@),
        map_of(e)[e[i].0@] == e[i].1,
    decreases e.len(),
{
    if i < e.len() - 1 {
        assert(keys_distinct(e.drop_last()));
        assert(e.drop_last()[i] == e[i]);
        lemma_map_of_index(e.drop_last(), i);
        assert(e[i].0@ != e[e.len() - 1].0@);
    }
}

pub proof fn lemma_map_of_update<V>(e: Seq<(String, V)>, i: int, k: String, v: V)
    requires
        keys_distinct(e),
        0 <= i < e.len(),
        e[i].0@ == k@,
    ensures
        keys_distinct(e.update(i, (k, v))),
        map_of(e.update(i, (k, v))) == map_of(e).insert(k@, v),
    decreases e.len(),
{
    let u = e.update(i, (k, v));
    assert(keys_distinct(u)) by {
        assert forall|a: int, b: int| 0 <= a < b < u.len() implies (#[trigger] u[a]).0@ != (
        #[trigger] u[b]).0@ by {
            assert(e[a].0@ != e[b].0@);
        }
    }
    if i == e.len() - 1 {
        assert(u.drop_last() =~= e.drop_last());
        assert(map_of(u) =~= map_of(e).insert(k@, v));
    } else {
        assert(keys_distinct(e.drop_last()));
        lemma_map_of_update(e.drop_last(), i, k, v);
        assert(u.drop_last() =~= e.drop_last().update(i, (k, v)));
        assert(e.last().0@ != k@);
        assert(map_of(u) =~= map_of(e).insert(k@, v));
    }
}

/// A map from texts to values.
pub struct KeyedList<V> {
    entries: Vec<(String, V)>,
}

impl<V> KeyedList<V> {
    /// Well formed: no key twice.
    pub closed spec fn wf(&self) -> bool {
        keys_distinct(self.entries@)
    }

    /// The map this list stands for.
    pub closed spec fn view(&self) -> Map<Seq<char>, V> {
        map_of(self.entries@)
    }

    /// The keys, in the order they were first inserted.
    pub closed spec fn key_order(&self) -> Seq<Seq<char>> {
        self.entries@.map_values(|e: (String, V)| e.0@)
    }

    /// An empty map.
    pub fn new() -> (r: Self)
        ensures
            r.wf(),
            r.view() == Map::<Seq<char>, V>::empty(),
            r.key_order() == Seq::<Seq<char>>::empty(),
    {
        let r = KeyedList { entries: Vec::new() };
        assert(r.key_order() =~= Seq::<Seq<char>>::empty());
        r
    }

    /// The number of keys.
    pub fn len(&self) -> (n: usize)
        requires
            self.wf(),
        ensures
            n == self.key_order().len(),
    {
        self.entries.len()
    }

    fn find(&self, key: &str) -> (r: Option<usize>)
        requires
            self.wf(),
        ensures
            match r {
                Some(i) => i < self.entries@.len() && self.entries@[i as int].0@ == key@,
                None => !self.view().contains_key(key@),
            },
    {
        let mut i: usize = 0;
        while i < self.entries.len()
            invariant
                i <= self.entries@.len(),
                forall|j: int| 0 <= j < i ==> (#[trigger] self.entries@[j]).0@ != key@,
            decreases self.entries.len() - i,
        {
            if str_eq(self.entries[i].0.as_str(), key) {
                return Some(i);
            }
            i = i + 1;
        }
        proof {
            lemma_map_of_dom(self.entries@, key@);
        }
        None
    }

    /// The value stored under `key`, if any.
    pub fn get(&self, key: &str) -> (r: Option<&V>)
        requires
            self.wf(),
        ensures
            match r {
                Some(v) => self.view().contains_key(key@) && *v == self.view()[key@],
                None => !self.view().contains_key(key@),
            },
    {
        match self.find(key) {
            Some(i) => {
                proof {
                    lemma_map_of_index(self.entries@, i as int);
                }
                Some(&self.entries[i].1)
            },
            None => None,
        }
    }

    /// The key and value of the `i`-th entry, in insertion order.
    pub fn entry(&self, i: usize) -> (r: (&String, &V))
        requires
            self.wf(),
            i < self.key_order().len(),
        ensures
            r.0@ == self.key_order()[i as int],
            self.view().contains_key(r.0@),
            *r.1 == self.view()[r.0@],
    {
        proof {
            lemma_map_of_index(self.entries@, i as int);
        }
        (&self.entries[i].0, &self.entries[i].1)
    }

    /// Stores `value` under `key`, replacing what was there.
    pub fn insert(&mut self, key: String, value: V)
        requires
            old(self).wf(),
        ensures
            final(self).wf(),
            final(self).view() == old(self).view().insert(key@, value),
            old(self).view().contains_key(key@) ==> final(self).key_order() == old(self).key_order(),
            !old(self).view().contains_key(key@) ==> final(self).key_order() == old(
                self,
            ).key_order().push(key@),
    {
        match self.find(key.as_str()) {
            Some(i) => {
                let ghost e = self.entries@;
                proof {
                    lemma_map_of_update(e, i as int, key, value);
                    lemma_map_of_index(e, i as int);
                }
                let ghost kv = key@;
                self.entries.set(i, (key, value));
                assert(self.key_order() =~= old(self).key_order());
            },
            None => {
                let ghost e = self.entries@;
                proof {
                    lemma_map_of_dom(e, key@);
                }
                self.entries.push((key, value));
                assert(self.entries@.drop_last() =~= e);
                assert(keys_distinct(self.entries@)) by {
                    assert forall|a: int, b: int| 0 <= a < b < self.entries@.len() implies (
                    #[trigger] self.entries@[a]).0@ != (#[trigger] self.entries@[b]).0@ by {
                        if b == e.len() {
                            assert(e[a] == self.entries@[a]);
                        } else {
                            assert(e[a] == self.entries@[a]);
                            assert(e[b] == self.entries@[b]);
                        }
                    }
                }
                assert(self.key_order() =~= old(self).key_order().push(key@));
            },
        }
    }
}

} // verus!
