//! A record of string fields: an association list with unique keys,
//! viewed in specifications as a `Map<Seq<char>, Seq<char>>`.  Both the
//! fields of a log record and the environment of a dispatched script
//! are values of this type.  The JSON encoding of a record, used to
//! hand the full record to a script, is done by `serde_json` behind
//! trusted wrappers.

use std::collections::BTreeMap;

use vstd::prelude::*;

use crate::text::str_eq;

verus! {

/// A mapping from field name to string value with unique keys.
#[derive(Debug)]
pub struct StrMap {
    pairs: Vec<(String, String)>,
}

impl StrMap {
    /// The underlying key/value pairs, in insertion order.
    pub closed spec fn entries(self) -> Seq<(String, String)> {
        self.pairs@
    }

    /// Keys are pairwise distinct.
    pub open spec fn wf(self) -> bool {
        forall|i: int, j: int|
            0 <= i < j < self.entries().len() ==> self.entries()[i].0@ != self.entries()[j].0@
    }

    pub open spec fn has_key(self, k: Seq<char>) -> bool {
        exists|i: int| 0 <= i < self.entries().len() && self.entries()[i].0@ == k
    }

    pub open spec fn index_of(self, k: Seq<char>) -> int {
        choose|i: int| 0 <= i < self.entries().len() && self.entries()[i].0@ == k
    }

    /// The mapping these entries stand for.  With duplicate keys the
    /// witness index is unspecified; under `wf` it is unique.
    pub open spec fn as_map(self) -> Map<Seq<char>, Seq<char>> {
        Map::new(|k: Seq<char>| self.has_key(k), |k: Seq<char>| self.entries()[self.index_of(k)].1@)
    }

    pub fn new() -> (r: StrMap)
        ensures
            r.wf(),
            r.entries().len() == 0,
            r.as_map() == Map::<Seq<char>, Seq<char>>::empty(),
    {
        let r = StrMap { pairs: Vec::new() };
        proof {
            assert(r.as_map() =~= Map::<Seq<char>, Seq<char>>::empty());
        }
        r
    }

    pub fn len(&self) -> (r: usize)
        ensures
            r == self.entries().len(),
    {
        self.pairs.len()
    }

    /// The pair at a position, for walking all entries.
    pub fn entry_at(&self, i: usize) -> (r: &(String, String))
        requires
            i < self.entries().len(),
        ensures
            *r == self.entries()[i as int],
    {
        &self.pairs[i]
    }

    /// Insert a binding, replacing any entry with an equal key.
    pub fn insert(&mut self, key: String, value: String)
        requires
            old(self).wf(),
        ensures
            final(self).wf(),
            final(self).as_map() == old(self).as_map().insert(key@, value@),
    {
        let ghost pre = *old(self);
        let mut i: usize = 0;
        while i < self.pairs.len()
            invariant
                pre == *old(self),
                *self == pre,
                pre.wf(),
                i <= pre.entries().len(),
                forall|j: int| 0 <= j < i ==> pre.entries()[j].0@ != key@,
            decreases self.pairs@.len() - i,
        {
            if str_eq(self.pairs[i].0.as_str(), key.as_str()) {
                let ghost k = key@;
                let ghost v = value@;
                self.pairs.remove(i);
                self.pairs.push((key, value));
                proof {
                    lemma_replace_entry(pre, *self, i as int, k, v);
                }
                return ;
            }
            i = i + 1;
        }
        let ghost k = key@;
        let ghost v = value@;
        self.pairs.push((key, value));
        proof {
            lemma_append_entry(pre, *self, k, v);
        }
    }

    /// Look a key up, as the mapping does.
    pub fn get<'a>(&'a self, key: &str) -> (r: Option<&'a String>)
        requires
            self.wf(),
        ensures
            match r {
                Some(v) => self.as_map().contains_key(key@) && v@ == self.as_map()[key@],
                None => !self.as_map().contains_key(key@),
            },
    {
        let mut i: usize = 0;
        while i < self.pairs.len()
            invariant
                self.wf(),
                i <= self.entries().len(),
                forall|j: int| 0 <= j < i ==> self.entries()[j].0@ != key@,
            decreases self.pairs@.len() - i,
        {
            if str_eq(self.pairs[i].0.as_str(), key) {
                proof {
                    assert(self.has_key(key@));
                    let w = self.index_of(key@);
                    assert(0 <= w < self.entries().len() && self.entries()[w].0@ == key@);
                    assert(w == i as int);
                }
                return Some(&self.pairs[i].1);
            }
            i = i + 1;
        }
        proof {
            assert(!self.has_key(key@));
        }
        None
    }
}

/// Replacing the one entry whose key is `k` (removing it, then pushing
/// the new pair) keeps the keys unique and inserts the binding.
proof fn lemma_replace_entry(pre: StrMap, post: StrMap, at: int, k: Seq<char>, v: Seq<char>)
    requires
        pre.wf(),
        0 <= at < pre.entries().len(),
        pre.entries()[at].0@ == k,
        post.entries() == pre.entries().remove(at).push(post.entries().last()),
        post.entries().len() > 0,
        post.entries().last().0@ == k,
        post.entries().last().1@ == v,
    ensures
        post.wf(),
        post.as_map() == pre.as_map().insert(k, v),
{
    pre.entries().remove_ensures(at);
    let n = post.entries().len();
    assert(n == pre.entries().len());
    // Every entry but the pushed one comes from `pre`, at an index
    // other than `at`.
    assert forall|j: int| 0 <= j < n - 1 implies post.entries()[j] == pre.entries()[
        if j < at {
            j
        } else {
            j + 1
        }
    ] && (if j < at {
        j
    } else {
        j + 1
    }) != at by {}
    assert(post.wf()) by {
        assert forall|i: int, j: int|
            0 <= i < j < n implies post.entries()[i].0@ != post.entries()[j].0@ by {
            if j < n - 1 {
                let pi: int = if i < at {
                    i
                } else {
                    i + 1
                };
                let pj: int = if j < at {
                    j
                } else {
                    j + 1
                };
                assert(pi != pj);
            } else {
                let pi: int = if i < at {
                    i
                } else {
                    i + 1
                };
                assert(pre.entries()[pi].0@ != pre.entries()[at].0@);
            }
        }
    }
    assert(post.as_map() =~= pre.as_map().insert(k, v)) by {
        assert forall|key: Seq<char>| post.has_key(key) implies pre.has_key(key) || key == k by {
            let w = choose|w: int|
                0 <= w < post.entries().len() && post.entries()[w].0@ == key;
            if w < n - 1 {
                let pw: int = if w < at {
                    w
                } else {
                    w + 1
                };
                assert(pre.entries()[pw].0@ == key);
            }
        }
        assert forall|key: Seq<char>| pre.has_key(key) implies post.has_key(key) by {
            let w = choose|w: int| 0 <= w < pre.entries().len() && pre.entries()[w].0@ == key;
            if w == at {
                assert(post.entries()[n - 1].0@ == key);
            } else {
                let nw: int = if w < at {
                    w
                } else {
                    w - 1
                };
                assert(post.entries()[nw] == pre.entries()[w]);
                assert(post.entries()[nw].0@ == key);
            }
        }
        assert forall|key: Seq<char>| post.has_key(key) && key != k implies post.as_map()[key]
            == pre.as_map()[key] by {
            let w = post.index_of(key);
            assert(0 <= w < n && post.entries()[w].0@ == key);
            assert(w < n - 1);
            let pw: int = if w < at {
                w
            } else {
                w + 1
            };
            assert(post.entries()[w] == pre.entries()[pw]);
            let w2 = pre.index_of(key);
            assert(0 <= w2 < pre.entries().len() && pre.entries()[w2].0@ == key);
            assert(w2 == pw);
        }
        assert(post.has_key(k)) by {
            assert(post.entries()[n - 1].0@ == k);
        }
        assert(post.as_map()[k] == v) by {
            let w = post.index_of(k);
            assert(0 <= w < n && post.entries()[w].0@ == k);
            if w < n - 1 {
                let pw: int = if w < at {
                    w
                } else {
                    w + 1
                };
                assert(pre.entries()[pw].0@ != pre.entries()[at].0@);
                assert(false);
            }
        }
    }
}

/// Pushing a pair whose key occurs nowhere keeps the keys unique and
/// inserts the binding.
proof fn lemma_append_entry(pre: StrMap, post: StrMap, k: Seq<char>, v: Seq<char>)
    requires
        pre.wf(),
        forall|j: int| 0 <= j < pre.entries().len() ==> pre.entries()[j].0@ != k,
        post.entries() == pre.entries().push(post.entries().last()),
        post.entries().len() > 0,
        post.entries().last().0@ == k,
        post.entries().last().1@ == v,
    ensures
        post.wf(),
        post.as_map() == pre.as_map().insert(k, v),
{
    let n = post.entries().len();
    assert(n == pre.entries().len() + 1);
    assert(forall|j: int| 0 <= j < n - 1 ==> post.entries()[j] == pre.entries()[j]);
    assert(post.as_map() =~= pre.as_map().insert(k, v)) by {
        assert forall|key: Seq<char>| pre.has_key(key) implies post.has_key(key) by {
            let w = choose|w: int| 0 <= w < pre.entries().len() && pre.entries()[w].0@ == key;
            assert(post.entries()[w].0@ == key);
        }
        assert(post.entries()[n - 1].0@ == k);
        assert forall|key: Seq<char>| post.has_key(key) && key != k implies pre.has_key(key)
            && post.as_map()[key] == pre.as_map()[key] by {
            let w = post.index_of(key);
            assert(0 <= w < n && post.entries()[w].0@ == key);
            assert(w < n - 1);
            assert(pre.entries()[w].0@ == key);
            let w2 = pre.index_of(key);
            assert(0 <= w2 < pre.entries().len() && pre.entries()[w2].0@ == key);
            assert(post.entries()[w2].0@ == key);
            let w3 = post.index_of(key);
            assert(post.entries()[w3].0@ == key);
        }
        assert(post.as_map()[k] == v) by {
            let w = post.index_of(k);
            assert(0 <= w < n && post.entries()[w].0@ == k);
            if w < n - 1 {
                assert(pre.entries()[w].0@ == k);
                assert(false);
            }
        }
    }
}

/// What `serde_json` prints for a mapping of string fields.
pub uninterp spec fn json_of_map(m: Map<Seq<char>, Seq<char>>) -> Seq<char>;

/// What `serde_json` reads a string back as: the mapping it encodes,
/// or nothing when the string is not such a JSON object.
pub uninterp spec fn json_to_map(s: Seq<char>) -> Option<Map<Seq<char>, Seq<char>>>;

/// Relies on `serde_json::to_string` over a `BTreeMap<&str, &str>`:
/// the output is a function of the mapping alone (the tree map orders
/// the keys), serialization of string-keyed string values cannot fail,
/// and `serde_json::from_str` reads the output back as the same
/// mapping.
#[verifier::external_body]
pub fn to_json(m: &StrMap) -> (r: String)
    requires
        m.wf(),
    ensures
        r@ == json_of_map(m.as_map()),
        json_to_map(r@) == Some(m.as_map()),
{
    let mut tree: BTreeMap<&str, &str> = BTreeMap::new();
    for (k, v) in m.pairs.iter() {
        tree.insert(k.as_str(), v.as_str());
    }
    serde_json::to_string(&tree).unwrap_or_default()
}

/// Round-trip law: the JSON text produced for a record's fields —
/// the very value a work item carries in its environment — parses
/// back to a mapping equal to the original record.
pub fn json_round_trip(m: &StrMap) -> (r: StrMap)
    requires
        m.wf(),
    ensures
        r.wf(),
        r.as_map() == m.as_map(),
{
    let text = to_json(m);
    match from_json(text.as_str()) {
        Some(back) => back,
        None => {
            proof {
                assert(false);
            }
            StrMap::new()
        },
    }
}

/// Relies on `serde_json::from_str` for `BTreeMap<String, String>`:
/// it yields the encoded mapping (with unique keys) exactly when the
/// input is a JSON object of strings, and fails otherwise.
#[verifier::external_body]
pub fn from_json(s: &str) -> (r: Option<StrMap>)
    ensures
        match r {
            Some(m) => m.wf() && json_to_map(s@) == Some(m.as_map()),
            None => json_to_map(s@) is None,
        },
{
    let tree: BTreeMap<String, String> = match serde_json::from_str(s) {
        Ok(t) => t,
        Err(_) => {
            return None;
        },
    };
    Some(StrMap { pairs: tree.into_iter().collect() })
}

} // verus!
