//! An insertion-ordered string-keyed map: the profile's name → value tables.

use vstd::prelude::*;
use crate::text::str_eq;

verus! {

/// String-keyed table. Lookups see the first entry with a given key, and
/// `insert` replaces that entry, so a table built by `insert` never holds a
/// key twice.
#[derive(Debug, PartialEq)]
pub struct Dict<V> {
    pub entries: Vec<(String, V)>,
}

/// Index of the first entry whose key is `k`, if any.
pub open spec fn first_index<V>(es: Seq<(String, V)>, k: Seq<char>) -> Option<int>
    decreases es.len(),
{
    if es.len() == 0 {
        None
    } else if es[0].0@ == k {
        Some(0)
    } else {
        match first_index(es.drop_first(), k) {
            Some(i) => Some(i + 1),
            None => None,
        }
    }
}

/// Value of the first entry whose key is `k`.
pub open spec fn lookup<V>(es: Seq<(String, V)>, k: Seq<char>) -> Option<V> {
    match first_index(es, k) {
        Some(i) => Some(es[i].1),
        None => None,
    }
}

/// Some entry has key `k`.
pub open spec fn has_key<V>(es: Seq<(String, V)>, k: Seq<char>) -> bool {
    exists|i: int| 0 <= i < es.len() && (#[trigger] es[i]).0@ == k
}

pub proof fn lemma_first_index<V>(es: Seq<(String, V)>, k: Seq<char>)
    ensures
        match first_index(es, k) {
            Some(i) => 0 <= i < es.len() && es[i].0@ == k && forall|j: int|
                0 <= j < i ==> (#[trigger] es[j]).0@ != k,
            None => !has_key(es, k),
        },
        has_key(es, k) <==> first_index(es, k) is Some,
    decreases es.len(),
{
    if es.len() > 0 && es[0].0@ != k {
        lemma_first_index(es.drop_first(), k);
        match first_index(es.drop_first(), k) {
            Some(i) => {
                assert forall|j: int| 0 <= j < i + 1 implies (#[trigger] es[j]).0@ != k by {
                    if j > 0 {
                        assert(es[j] == es.drop_first()[j - 1]);
                    }
                }
            },
            None => {
                assert forall|j: int| 0 <= j < es.len() implies (#[trigger] es[j]).0@ != k by {
                    if j > 0 {
                        assert(es[j] == es.drop_first()[j - 1]);
                    }
                }
            },
        }
        if has_key(es, k) {
            let j = choose|j: int| 0 <= j < es.len() && (#[trigger] es[j]).0@ == k;
            assert(es.drop_first()[j - 1] == es[j]);
        }
    }
}

impl<V> Dict<V> {
    /// An empty table.
    pub fn new() -> (d: Self)
        ensures
            d.entries@ == Seq::<(String, V)>::empty(),
    {
        Dict { entries: Vec::new() }
    }

    /// Number of entries.
    pub fn len(&self) -> (n: usize)
        ensures
            n == self.entries@.len(),
    {
        self.entries.len()
    }

    /// Whether the table has no entries.
    pub fn is_empty(&self) -> (b: bool)
        ensures
            b == (self.entries@.len() == 0),
    {
        self.entries.len() == 0
    }

    /// Position of the entry with key `k`.
    pub fn position(&self, k: &str) -> (r: Option<usize>)
        ensures
            match r {
                Some(i) => first_index(self.entries@, k@) == Some(i as int),
                None => first_index(self.entries@, k@) is None,
            },
    {
        proof {
            lemma_first_index(self.entries@, k@);
        }
        let mut i: usize = 0;
        while i < self.entries.len()
            invariant
                i <= self.entries@.len(),
                forall|j: int| 0 <= j < i ==> (#[trigger] self.entries@[j]).0@ != k@,
            decreases self.entries@.len() - i,
        {
            if str_eq(self.entries[i].0.as_str(), k) {
                proof {
                    lemma_first_index_at(self.entries@, k@, i as int);
                }
                return Some(i);
            }
            i = i + 1;
        }
        proof {
            lemma_first_index(self.entries@, k@);
        }
        None
    }

    /// Value stored under `k`.
    pub fn get(&self, k: &str) -> (r: Option<&V>)
        ensures
            match r {
                Some(v) => lookup(self.entries@, k@) == Some(*v),
                None => lookup(self.entries@, k@) is None,
            },
    {
        proof {
            lemma_first_index(self.entries@, k@);
        }
        match self.position(k) {
            Some(i) => Some(&self.entries[i].1),
            None => None,
        }
    }

    /// Whether some entry has key `k`.
    pub fn contains_key(&self, k: &str) -> (b: bool)
        ensures
            b == has_key(self.entries@, k@),
    {
        proof {
            lemma_first_index(self.entries@, k@);
        }
        self.position(k).is_some()
    }

    /// Stores `v` under `k`: replaces the entry with that key, or appends one.
    pub fn insert(&mut self, k: String, v: V)
        ensures
            match first_index(old(self).entries@, k@) {
                Some(i) => final(self).entries@ == old(self).entries@.update(i, (k, v)),
                None => final(self).entries@ == old(self).entries@.push((k, v)),
            },
    {
        proof {
            lemma_first_index(self.entries@, k@);
        }
        match self.position(k.as_str()) {
            Some(i) => {
                self.entries.set(i, (k, v));
            },
            None => {
                self.entries.push((k, v));
            },
        }
    }

    /// Key of entry `i`.
    pub fn key_at(&self, i: usize) -> (r: &String)
        requires
            i < self.entries@.len(),
        ensures
            *r == self.entries@[i as int].0,
    {
        &self.entries[i].0
    }

    /// Value of entry `i`.
    pub fn value_at(&self, i: usize) -> (r: &V)
        requires
            i < self.entries@.len(),
        ensures
            *r == self.entries@[i as int].1,
    {
        &self.entries[i].1
    }

    /// Keys in entry order.
    pub fn keys(&self) -> (r: Vec<String>)
        ensures
            r@.len() == self.entries@.len(),
            forall|i: int| 0 <= i < r@.len() ==> (#[trigger] r@[i]) == self.entries@[i].0,
    {
        let mut out: Vec<String> = Vec::new();
        let mut i: usize = 0;
        while i < self.entries.len()
            invariant
                i <= self.entries@.len(),
                out@.len() == i,
                forall|j: int| 0 <= j < i ==> (#[trigger] out@[j]) == self.entries@[j].0,
            decreases self.entries@.len() - i,
        {
            out.push(self.entries[i].0.clone());
            i = i + 1;
        }
        out
    }
}

/// A table's entries after storing `v` under `k`.
pub open spec fn inserted<V>(es: Seq<(String, V)>, k: String, v: V) -> Seq<(String, V)> {
    match first_index(es, k@) {
        Some(i) => es.update(i, (k, v)),
        None => es.push((k, v)),
    }
}

/// After storing `v` under `k`, `k` gives `v` and every other key gives what it gave.
pub proof fn law_inserted_lookup<V>(es: Seq<(String, V)>, k: String, v: V, other: Seq<char>)
    ensures
        lookup(inserted(es, k, v), k@) == Some(v),
        other != k@ ==> lookup(inserted(es, k, v), other) == lookup(es, other),
{
    lemma_first_index(es, k@);
    lemma_first_index(es, other);
    let t = inserted(es, k, v);
    match first_index(es, k@) {
        Some(i) => {
            assert forall|j: int| 0 <= j < i implies (#[trigger] t[j]).0@ != k@ by {
                assert(t[j] == es[j]);
            }
            lemma_first_index_at(t, k@, i);
        },
        None => {
            assert forall|j: int| 0 <= j < es.len() implies (#[trigger] t[j]).0@ != k@ by {
                assert(t[j] == es[j]);
            }
            lemma_first_index_at(t, k@, es.len() as int);
        },
    }
    if other != k@ {
        lemma_first_index(t, other);
        match first_index(es, other) {
            Some(i) => {
                assert forall|j: int| 0 <= j < i implies (#[trigger] t[j]).0@ != other by {
                    if j < es.len() {
                        assert(t[j].0@ == es[j].0@ || t[j].0@ == k@);
                    }
                }
                assert(t[i] == es[i]);
                lemma_first_index_at(t, other, i);
            },
            None => {
                assert forall|j: int| 0 <= j < t.len() implies (#[trigger] t[j]).0@ != other by {
                    if j < es.len() {
                        assert(t[j].0@ == es[j].0@ || t[j].0@ == k@);
                    }
                }
            },
        }
    }
}

/// Views of the entries of a string table.
pub open spec fn pair_views(es: Seq<(String, String)>) -> Seq<(Seq<char>, Seq<char>)> {
    Seq::new(es.len(), |i: int| (es[i].0@, es[i].1@))
}

/// Position of the first pair with key `k`.
pub open spec fn seq_pair_index(s: Seq<(Seq<char>, Seq<char>)>, k: Seq<char>) -> Option<int>
    decreases s.len(),
{
    if s.len() == 0 {
        None
    } else if s[0].0 == k {
        Some(0)
    } else {
        match seq_pair_index(s.drop_first(), k) {
            Some(i) => Some(i + 1),
            None => None,
        }
    }
}

/// A pair table after storing `v` under `k`: the first pair with that key is
/// replaced, or the pair is appended.
pub open spec fn insert_pair(s: Seq<(Seq<char>, Seq<char>)>, k: Seq<char>, v: Seq<char>) -> Seq<
    (Seq<char>, Seq<char>),
> {
    match seq_pair_index(s, k) {
        Some(i) => s.update(i, (k, v)),
        None => s.push((k, v)),
    }
}

/// Value of the first pair with key `k`.
pub open spec fn pair_lookup(s: Seq<(Seq<char>, Seq<char>)>, k: Seq<char>) -> Option<Seq<char>> {
    match seq_pair_index(s, k) {
        Some(i) => Some(s[i].1),
        None => None,
    }
}

proof fn lemma_seq_pair_index(s: Seq<(Seq<char>, Seq<char>)>, k: Seq<char>)
    ensures
        match seq_pair_index(s, k) {
            Some(i) => 0 <= i < s.len() && s[i].0 == k && forall|j: int| 0 <= j < i ==> (#[trigger] s[j]).0 != k,
            None => forall|j: int| 0 <= j < s.len() ==> (#[trigger] s[j]).0 != k,
        },
    decreases s.len(),
{
    if s.len() > 0 && s[0].0 != k {
        lemma_seq_pair_index(s.drop_first(), k);
        assert forall|j: int| 0 < j < s.len() implies s[j] == s.drop_first()[j - 1] by {}
    }
}

proof fn lemma_seq_pair_index_at(s: Seq<(Seq<char>, Seq<char>)>, k: Seq<char>, i: int)
    requires
        0 <= i < s.len(),
        s[i].0 == k,
        forall|j: int| 0 <= j < i ==> (#[trigger] s[j]).0 != k,
    ensures
        seq_pair_index(s, k) == Some(i),
    decreases i,
{
    if i > 0 {
        assert forall|j: int| 0 <= j < i - 1 implies (#[trigger] s.drop_first()[j]).0 != k by {
            assert(s.drop_first()[j] == s[j + 1]);
        }
        assert(s[0].0 != k);
        lemma_seq_pair_index_at(s.drop_first(), k, i - 1);
    }
}

proof fn lemma_seq_pair_index_none(s: Seq<(Seq<char>, Seq<char>)>, k: Seq<char>)
    requires
        forall|j: int| 0 <= j < s.len() ==> (#[trigger] s[j]).0 != k,
    ensures
        seq_pair_index(s, k) is None,
    decreases s.len(),
{
    if s.len() > 0 {
        assert forall|j: int| 0 <= j < s.drop_first().len() implies (#[trigger] s.drop_first()[j]).0 != k by {
            assert(s.drop_first()[j] == s[j + 1]);
        }
        lemma_seq_pair_index_none(s.drop_first(), k);
    }
}

/// A read after a write gives what was written.
pub proof fn law_insert_then_lookup(s: Seq<(Seq<char>, Seq<char>)>, k: Seq<char>, v: Seq<char>)
    ensures
        pair_lookup(insert_pair(s, k, v), k) == Some(v),
{
    lemma_seq_pair_index(s, k);
    let t = insert_pair(s, k, v);
    match seq_pair_index(s, k) {
        Some(i) => {
            assert forall|j: int| 0 <= j < i implies (#[trigger] t[j]).0 != k by {
                assert(t[j] == s[j]);
            }
            lemma_seq_pair_index_at(t, k, i);
        },
        None => {
            assert forall|j: int| 0 <= j < s.len() implies (#[trigger] t[j]).0 != k by {
                assert(t[j] == s[j]);
            }
            lemma_seq_pair_index_at(t, k, s.len() as int);
        },
    }
}

/// A write leaves the other keys as they were.
pub proof fn law_insert_keeps_other_keys(s: Seq<(Seq<char>, Seq<char>)>, k: Seq<char>, v: Seq<char>, other: Seq<char>)
    requires
        other != k,
    ensures
        pair_lookup(insert_pair(s, k, v), other) == pair_lookup(s, other),
{
    lemma_seq_pair_index(s, k);
    lemma_seq_pair_index(s, other);
    let t = insert_pair(s, k, v);
    match seq_pair_index(s, other) {
        Some(i) => {
            assert forall|j: int| 0 <= j < i implies (#[trigger] t[j]).0 != other by {
                if j < s.len() {
                    assert(t[j].0 == s[j].0 || t[j].0 == k);
                }
            }
            assert(t[i] == s[i]);
            lemma_seq_pair_index_at(t, other, i);
        },
        None => {
            assert forall|j: int| 0 <= j < t.len() implies (#[trigger] t[j]).0 != other by {
                if j < s.len() {
                    assert(t[j].0 == s[j].0 || t[j].0 == k);
                }
            }
            lemma_seq_pair_index_none(t, other);
        },
    }
}

pub proof fn lemma_pair_index(es: Seq<(String, String)>, k: Seq<char>)
    ensures
        seq_pair_index(pair_views(es), k) == first_index(es, k),
    decreases es.len(),
{
    if es.len() > 0 {
        assert(pair_views(es).drop_first() =~= pair_views(es.drop_first()));
        lemma_pair_index(es.drop_first(), k);
    }
}

/// Stores the text `v` under `k` in a string table.
pub fn put(d: &mut Dict<String>, k: String, v: String)
    ensures
        pair_views(final(d).entries@) == insert_pair(pair_views(old(d).entries@), k@, v@),
{
    proof {
        lemma_pair_index(d.entries@, k@);
        lemma_first_index(d.entries@, k@);
    }
    let ghost before = d.entries@;
    let ghost kv = k@;
    let ghost vv = v@;
    d.insert(k, v);
    proof {
        match first_index(before, kv) {
            Some(j) => {
                assert(pair_views(d.entries@) =~= pair_views(before).update(j, (kv, vv)));
            },
            None => {
                assert(pair_views(d.entries@) =~= pair_views(before).push((kv, vv)));
            },
        }
    }
}

proof fn lemma_first_index_at<V>(es: Seq<(String, V)>, k: Seq<char>, i: int)
    requires
        0 <= i < es.len(),
        es[i].0@ == k,
        forall|j: int| 0 <= j < i ==> (#[trigger] es[j]).0@ != k,
    ensures
        first_index(es, k) == Some(i),
    decreases i,
{
    if i > 0 {
        assert forall|j: int| 0 <= j < i - 1 implies (#[trigger] es.drop_first()[j]).0@ != k by {
            assert(es.drop_first()[j] == es[j + 1]);
        }
        assert(es[0].0@ != k);
        lemma_first_index_at(es.drop_first(), k, i - 1);
    }
}

impl<V: Clone> Clone for Dict<V> {
    /// Copies every entry; keys are equal, values are clones.
    fn clone(&self) -> (r: Self)
        ensures
            r.entries@.len() == self.entries@.len(),
            forall|i: int|
                0 <= i < self.entries@.len() ==> (#[trigger] r.entries@[i]).0 == self.entries@[i].0
                    && cloned(self.entries@[i].1, r.entries@[i].1),
    {
        let mut out: Vec<(String, V)> = Vec::new();
        let mut i: usize = 0;
        while i < self.entries.len()
            invariant
                i <= self.entries@.len(),
                out@.len() == i,
                forall|j: int|
                    0 <= j < i ==> (#[trigger] out@[j]).0 == self.entries@[j].0 && cloned(
                        self.entries@[j].1,
                        out@[j].1,
                    ),
            decreases self.entries@.len() - i,
        {
            let e = &self.entries[i];
            out.push((e.0.clone(), e.1.clone()));
            i = i + 1;
        }
        Dict { entries: out }
    }
}

} // verus!
