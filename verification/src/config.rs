//! Node configurations: ordered string-keyed values merged outer-to-inner.

use vstd::prelude::*;
use crate::kvmap::StrMap;

verus! {

/// A node's configuration: a mapping from string keys to values, carried as
/// text.  An inner (more local) configuration overrides an outer one key by
/// key when the two are merged.
#[derive(Debug)]
pub struct Configuration {
    pub map: StrMap<String>,
}

impl Configuration {
    pub open spec fn wf(self) -> bool {
        self.map.wf()
    }

    /// The mapping this configuration denotes.
    pub open spec fn as_map(self) -> Map<Seq<char>, String> {
        self.map.as_map()
    }

    pub fn new() -> (r: Configuration)
        ensures
            r.wf(),
            r.as_map() == Map::<Seq<char>, String>::empty(),
    {
        Configuration { map: StrMap::new() }
    }

    /// Binds `k` to `v`, replacing any earlier binding.
    pub fn insert(&mut self, k: String, v: String)
        requires
            old(self).wf(),
        ensures
            final(self).wf(),
            final(self).as_map() == old(self).as_map().insert(k@, v),
    {
        self.map.insert(k, v);
    }

    /// The value bound to `k`, if any.
    pub fn get(&self, k: &String) -> (r: Option<&String>)
        requires
            self.wf(),
        ensures
            r matches Some(v) ==> self.as_map().contains_key(k@) && *v == self.as_map()[k@],
            r is None ==> !self.as_map().contains_key(k@),
    {
        self.map.get(k)
    }

    /// An entry-by-entry copy.
    pub fn duplicate(&self) -> (r: Configuration)
        ensures
            r.map.entries@ =~= self.map.entries@,
            r.as_map() == self.as_map(),
            r.wf() == self.wf(),
    {
        let mut entries: Vec<(String, String)> = Vec::new();
        let n = self.map.entries.len();
        for i in 0..n
            invariant
                n == self.map.entries@.len(),
                entries@.len() == i,
                forall|j: int| 0 <= j < i ==> entries@[j] == self.map.entries@[j],
        {
            entries.push((self.map.entries[i].0.clone(), self.map.entries[i].1.clone()));
        }
        proof {
            assert(entries@ =~= self.map.entries@);
        }
        Configuration { map: StrMap { entries } }
    }
}

/// Well-formedness of an optional configuration.
pub open spec fn opt_config_wf(c: Option<Configuration>) -> bool {
    c matches Some(cc) ==> cc.wf()
}

/// What an optional configuration denotes: the absent configuration is the
/// empty mapping.
pub open spec fn opt_config_map(c: Option<Configuration>) -> Map<Seq<char>, String> {
    match c {
        Some(cc) => cc.as_map(),
        None => Map::empty(),
    }
}

/// Merges an outer (more global) configuration with an inner (more local)
/// one: the union of the two, the inner value winning on a key bound by
/// both.  The result is `None` only when both sides are absent.
pub fn merge_overwrite(outer: &Option<Configuration>, inner: &Option<Configuration>) -> (r:
    Option<Configuration>)
    requires
        opt_config_wf(*outer),
        opt_config_wf(*inner),
    ensures
        opt_config_wf(r),
        r is None <==> (outer is None && inner is None),
        opt_config_map(r) == opt_config_map(*outer).union_prefer_right(opt_config_map(*inner)),
{
    match (outer, inner) {
        (None, None) => {
            proof {
                assert(Map::<Seq<char>, String>::empty().union_prefer_right(Map::empty())
                    =~= Map::<Seq<char>, String>::empty());
            }
            None
        },
        (Some(o), None) => {
            let r = o.duplicate();
            proof {
                assert(o.as_map().union_prefer_right(Map::empty()) =~= o.as_map());
            }
            Some(r)
        },
        (None, Some(i)) => {
            let r = i.duplicate();
            proof {
                assert(Map::<Seq<char>, String>::empty().union_prefer_right(i.as_map())
                    =~= i.as_map());
            }
            Some(r)
        },
        (Some(o), Some(i)) => {
            let mut merged = i.duplicate();
            let n = o.map.entries.len();
            for j in 0..n
                invariant
                    n == o.map.entries@.len(),
                    o.map.wf(),
                    merged.wf(),
                    merged.as_map() == crate::kvmap::map_of(o.map.entries@.take(j as int))
                        .union_prefer_right(i.as_map()),
            {
                let key = &o.map.entries[j].0;
                proof {
                    assert(o.map.entries@.take(j + 1).drop_last() =~= o.map.entries@.take(
                        j as int,
                    ));
                    assert(o.map.entries@.take(j + 1).last() == o.map.entries@[j as int]);
                }
                if !merged.map.contains_key(key) {
                    let value = o.map.entries[j].1.clone();
                    merged.insert(key.clone(), value);
                } else {
                    proof {
                        crate::kvmap::lemma_map_of_domain(
                            o.map.entries@.take(j as int),
                            key@,
                        );
                        assert forall|t: int| 0 <= t < j
                            implies o.map.entries@.take(j as int)[t].0@ != key@ by {
                            assert(o.map.entries@.take(j as int)[t] == o.map.entries@[t]);
                        }
                        assert(i.as_map().contains_key(key@));
                    }
                }
                proof {
                    assert(merged.as_map() =~= crate::kvmap::map_of(
                        o.map.entries@.take(j + 1),
                    ).union_prefer_right(i.as_map()));
                }
            }
            proof {
                assert(o.map.entries@.take(n as int) =~= o.map.entries@);
            }
            Some(merged)
        },
    }
}

} // verus!
