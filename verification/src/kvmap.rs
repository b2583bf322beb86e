//! A string-keyed association list with unique keys, viewed as a `Map`.
//!
//! Descriptor configurations, the descriptor registry and the per-node
//! channel tables are all small mappings keyed by short strings; one ordered
//! structure serves them all.

use vstd::prelude::*;

verus! {

/// Whether the keys of `s` are pairwise distinct.
pub open spec fn keys_unique<V>(s: Seq<(String, V)>) -> bool {
    forall|i: int, j: int| 0 <= i < j < s.len() ==> s[i].0@ != s[j].0@
}

/// The mapping the entry list denotes; a later entry would win, though a
/// well-formed list never repeats a key.
pub open spec fn map_of<V>(s: Seq<(String, V)>) -> Map<Seq<char>, V>
    decreases s.len(),
{
    if s.len() == 0 {
        Map::empty()
    } else {
        map_of(s.drop_last()).insert(s.last().0@, s.last().1)
    }
}

pub proof fn lemma_map_of_domain<V>(s: Seq<(String, V)>, k: Seq<char>)
    ensures
        map_of(s).contains_key(k) <==> exists|i: int| 0 <= i < s.len() && s[i].0@ == k,
    decreases s.len(),
{
    if s.len() > 0 {
        lemma_map_of_domain(s.drop_last(), k);
        if s.last().0@ == k {
            assert(s[s.len() - 1].0@ == k);
        } else if map_of(s).contains_key(k) {
            let i = choose|i: int| 0 <= i < s.drop_last().len() && s.drop_last()[i].0@ == k;
            assert(s[i].0@ == k);
        } else {
            assert forall|i: int| 0 <= i < s.len() && s[i].0@ == k implies false by {
                if i < s.len() - 1 {
                    assert(s.drop_last()[i].0@ == k);
                }
            }
        }
    }
}

pub proof fn lemma_map_of_index<V>(s: Seq<(String, V)>, i: int)
    requires
        keys_unique(s),
        0 <= i < s.len(),
    ensures
        map_of(s).contains_key(s[i].0@),
        map_of(s)[s[i].0@] == s[i].1,
    decreases s.len(),
{
    if i == s.len() - 1 {
    } else {
        assert(s.drop_last()[i] == s[i]);
        lemma_map_of_index(s.drop_last(), i);
        assert(s.last().0@ != s[i].0@);
    }
}

pub proof fn lemma_map_of_push<V>(s: Seq<(String, V)>, k: String, v: V)
    ensures
        map_of(s.push((k, v))) == map_of(s).insert(k@, v),
{
    assert(s.push((k, v)).drop_last() =~= s);
    assert(s.push((k, v)).last() == (k, v));
}

pub proof fn lemma_map_of_remove<V>(s: Seq<(String, V)>, i: int)
    requires
        keys_unique(s),
        0 <= i < s.len(),
    ensures
        map_of(s.remove(i)) == map_of(s).remove(s[i].0@),
    decreases s.len(),
{
    lemma_map_of_domain(s.drop_last(), s[i].0@);
    if i == s.len() - 1 {
        assert(s.remove(i) =~= s.drop_last());
        assert(!map_of(s.drop_last()).contains_key(s[i].0@));
        assert(map_of(s.drop_last()).insert(s.last().0@, s.last().1).remove(s[i].0@)
            =~= map_of(s.drop_last()));
    } else {
        assert(s.remove(i).drop_last() =~= s.drop_last().remove(i));
        assert(s.remove(i).last() == s.last());
        assert(s.drop_last()[i] == s[i]);
        lemma_map_of_remove(s.drop_last(), i);
        assert(s.last().0@ != s[i].0@);
        assert(map_of(s.drop_last()).remove(s[i].0@).insert(s.last().0@, s.last().1)
            =~= map_of(s.drop_last()).insert(s.last().0@, s.last().1).remove(s[i].0@));
    }
}

pub proof fn lemma_map_of_dom_card<V>(s: Seq<(String, V)>)
    ensures
        map_of(s).dom().finite(),
        map_of(s).dom().len() <= s.len(),
    decreases s.len(),
{
    if s.len() > 0 {
        lemma_map_of_dom_card(s.drop_last());
    }
}

/// A mapping from short strings to values, with pairwise distinct keys.
#[derive(Debug)]
pub struct StrMap<V> {
    pub entries: Vec<(String, V)>,
}

impl<V> StrMap<V> {
    pub open spec fn wf(self) -> bool {
        keys_unique(self.entries@)
    }

    /// The mapping this table denotes.
    pub open spec fn as_map(self) -> Map<Seq<char>, V> {
        map_of(self.entries@)
    }

    pub fn new() -> (r: StrMap<V>)
        ensures
            r.wf(),
            r.as_map() == Map::<Seq<char>, V>::empty(),
            r.entries@.len() == 0,
    {
        StrMap { entries: Vec::new() }
    }

    pub fn len(&self) -> (r: usize)
        ensures
            r == self.entries@.len(),
    {
        self.entries.len()
    }

    /// The index of `k` in the entry list, if it occurs.
    fn index_of(&self, k: &String) -> (r: Option<usize>)
        ensures
            r matches Some(i) ==> i < self.entries@.len() && self.entries@[i as int].0@ == k@,
            r is None ==> forall|i: int| 0 <= i < self.entries@.len()
                ==> self.entries@[i].0@ != k@,
    {
        let n = self.entries.len();
        for i in 0..n
            invariant
                n == self.entries@.len(),
                forall|j: int| 0 <= j < i ==> self.entries@[j].0@ != k@,
        {
            if self.entries[i].0.eq(k) {
                return Some(i);
            }
        }
        None
    }

    pub fn contains_key(&self, k: &String) -> (r: bool)
        ensures
            r == self.as_map().contains_key(k@),
    {
        proof {
            lemma_map_of_domain(self.entries@, k@);
        }
        self.index_of(k).is_some()
    }

    /// The value bound to `k`, if any.
    pub fn get(&self, k: &String) -> (r: Option<&V>)
        requires
            self.wf(),
        ensures
            r matches Some(v) ==> self.as_map().contains_key(k@) && *v == self.as_map()[k@],
            r is None ==> !self.as_map().contains_key(k@),
    {
        proof {
            lemma_map_of_domain(self.entries@, k@);
        }
        match self.index_of(k) {
            Some(i) => {
                proof {
                    lemma_map_of_index(self.entries@, i as int);
                }
                Some(&self.entries[i].1)
            },
            None => None,
        }
    }

    /// Removes the binding of `k`, returning its value if there was one.
    pub fn remove(&mut self, k: &String) -> (r: Option<V>)
        requires
            old(self).wf(),
        ensures
            final(self).wf(),
            final(self).as_map() == old(self).as_map().remove(k@),
            r matches Some(v) ==> old(self).as_map().contains_key(k@)
                && v == old(self).as_map()[k@],
            r is None ==> !old(self).as_map().contains_key(k@)
                && final(self).as_map() == old(self).as_map(),
    {
        proof {
            lemma_map_of_domain(self.entries@, k@);
        }
        match self.index_of(k) {
            Some(i) => {
                proof {
                    lemma_map_of_index(self.entries@, i as int);
                    lemma_map_of_remove(self.entries@, i as int);
                }
                let e = self.entries.remove(i);
                proof {
                    assert forall|a: int, b: int|
                        0 <= a < b < self.entries@.len()
                        implies self.entries@[a].0@ != self.entries@[b].0@ by {
                        assert(self.entries@[a] == if a < i as int {
                            old(self).entries@[a]
                        } else {
                            old(self).entries@[a + 1]
                        });
                        assert(self.entries@[b] == if b < i as int {
                            old(self).entries@[b]
                        } else {
                            old(self).entries@[b + 1]
                        });
                    }
                }
                Some(e.1)
            },
            None => {
                proof {
                    assert(old(self).as_map().remove(k@) =~= old(self).as_map());
                }
                None
            },
        }
    }

    /// Whether the keys are pairwise distinct.
    pub fn check_keys_unique(&self) -> (r: bool)
        ensures
            r == self.wf(),
    {
        let n = self.entries.len();
        for i in 0..n
            invariant
                n == self.entries@.len(),
                forall|a: int, b: int| 0 <= a < b < self.entries@.len() && a < i
                    ==> self.entries@[a].0@ != self.entries@[b].0@,
        {
            for j in (i + 1)..n
                invariant
                    n == self.entries@.len(),
                    i < n,
                    forall|a: int, b: int| 0 <= a < b < self.entries@.len() && a < i
                        ==> self.entries@[a].0@ != self.entries@[b].0@,
                    forall|b: int| i < b < j ==> self.entries@[i as int].0@
                        != self.entries@[b].0@,
            {
                if self.entries[i].0.eq(&self.entries[j].0) {
                    return false;
                }
            }
        }
        true
    }

    /// Binds `k` to `v`, replacing any earlier binding.
    pub fn insert(&mut self, k: String, v: V)
        requires
            old(self).wf(),
        ensures
            final(self).wf(),
            final(self).as_map() == old(self).as_map().insert(k@, v),
    {
        let _ = self.remove(&k);
        proof {
            let s = self.entries@;
            lemma_map_of_push(s, k, v);
            lemma_map_of_domain(s, k@);
            assert forall|a: int, b: int|
                0 <= a < b < s.push((k, v)).len()
                implies s.push((k, v))[a].0@ != s.push((k, v))[b].0@ by {
                if b < s.len() {
                    assert(s.push((k, v))[a] == s[a]);
                    assert(s.push((k, v))[b] == s[b]);
                } else {
                    assert(s.push((k, v))[a] == s[a]);
                    assert(s.push((k, v))[b] == (k, v));
                }
            }
            assert(old(self).as_map().remove(k@).insert(k@, v)
                =~= old(self).as_map().insert(k@, v));
        }
        self.entries.push((k, v));
    }
}

} // verus!
