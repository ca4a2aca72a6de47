//! A small map from string keys to values, kept as an association list.
//!
//! Its view is a `Map` from the keys' character sequences to the values.
//! Lookups find the first entry with a matching key, and inserting a key
//! that is present replaces that entry's value, so the view behaves as a map.

use vstd::prelude::*;
use crate::text::str_eq;

verus! {

/// The map denoted by a list of entries; an earlier entry wins over a later one.
pub open spec fn entries_map<V>(s: Seq<(String, V)>) -> Map<Seq<char>, V>
    decreases s.len(),
{
    if s.len() == 0 {
        Map::empty()
    } else {
        entries_map(s.drop_first()).insert(s[0].0@, s[0].1)
    }
}

/// `i` is the first entry of `s` whose key is `k`.
pub open spec fn is_first_key<V>(s: Seq<(String, V)>, k: Seq<char>, i: int) -> bool {
    &&& 0 <= i < s.len()
    &&& s[i].0@ == k
    &&& forall|j: int| 0 <= j < i ==> s[j].0@ != k
}

proof fn lemma_lookup<V>(s: Seq<(String, V)>, k: Seq<char>)
    ensures
        entries_map(s).dom().contains(k) <==> exists|i: int| 0 <= i < s.len() && s[i].0@ == k,
        forall|i: int| is_first_key(s, k, i) ==> entries_map(s)[k] == s[i].1,
    decreases s.len(),
{
    if s.len() > 0 {
        let t = s.drop_first();
        lemma_lookup(t, k);
        if s[0].0@ == k {
            assert(0 <= 0 < s.len() && s[0].0@ == k);
            assert forall|i: int| is_first_key(s, k, i) implies entries_map(s)[k] == s[i].1 by {
                assert(i == 0);
            }
        } else {
            if entries_map(s).dom().contains(k) {
                let i = choose|i: int| 0 <= i < t.len() && t[i].0@ == k;
                assert(s[i + 1].0@ == k);
            }
            if exists|i: int| 0 <= i < s.len() && s[i].0@ == k {
                let i = choose|i: int| 0 <= i < s.len() && s[i].0@ == k;
                assert(i != 0);
                assert(t[i - 1].0@ == k);
            }
            assert forall|i: int| is_first_key(s, k, i) implies entries_map(s)[k] == s[i].1 by {
                assert(i != 0);
                assert(is_first_key(t, k, i - 1));
            }
        }
    }
}

proof fn lemma_push_absent<V>(s: Seq<(String, V)>, e: (String, V))
    requires
        forall|j: int| 0 <= j < s.len() ==> s[j].0@ != e.0@,
    ensures
        entries_map(s.push(e)) == entries_map(s).insert(e.0@, e.1),
    decreases s.len(),
{
    if s.len() == 0 {
        assert(s.push(e).drop_first() =~= Seq::<(String, V)>::empty());
        assert(s.push(e)[0] == e);
        assert(entries_map(s.push(e).drop_first()) == Map::<Seq<char>, V>::empty());
        assert(entries_map(s) == Map::<Seq<char>, V>::empty());
        assert(entries_map(s.push(e)) =~= entries_map(s).insert(e.0@, e.1));
    } else {
        let t = s.drop_first();
        assert(s.push(e).drop_first() =~= t.push(e));
        lemma_push_absent(t, e);
        assert(s[0].0@ != e.0@);
        assert(s.push(e)[0] == s[0]);
        assert(entries_map(s.push(e)) == entries_map(t.push(e)).insert(s[0].0@, s[0].1));
        assert(entries_map(s) == entries_map(t).insert(s[0].0@, s[0].1));
        assert(entries_map(s.push(e)) =~= entries_map(s).insert(e.0@, e.1));
    }
}

proof fn lemma_push_any<V>(s: Seq<(String, V)>, e: (String, V))
    ensures
        entries_map(s.push(e)) == if entries_map(s).dom().contains(e.0@) {
            entries_map(s)
        } else {
            entries_map(s).insert(e.0@, e.1)
        },
    decreases s.len(),
{
    lemma_lookup(s, e.0@);
    if s.len() == 0 {
        lemma_push_absent(s, e);
    } else {
        let t = s.drop_first();
        assert(s.push(e).drop_first() =~= t.push(e));
        lemma_push_any(t, e);
        lemma_lookup(t, e.0@);
        assert(s.push(e)[0] == s[0]);
        assert(entries_map(s.push(e)) == entries_map(t.push(e)).insert(s[0].0@, s[0].1));
        if s[0].0@ == e.0@ {
            assert(entries_map(s.push(e)) =~= entries_map(s));
        } else if entries_map(t).dom().contains(e.0@) {
            assert(entries_map(s.push(e)) =~= entries_map(s));
        } else {
            assert(entries_map(s.push(e)) =~= entries_map(s).insert(e.0@, e.1));
        }
    }
}

proof fn lemma_update_first<V>(s: Seq<(String, V)>, i: int, e: (String, V))
    requires
        is_first_key(s, e.0@, i),
    ensures
        entries_map(s.update(i, e)) == entries_map(s).insert(e.0@, e.1),
    decreases s.len(),
{
    let t = s.drop_first();
    if i == 0 {
        assert(s.update(0, e).drop_first() =~= t);
        assert(entries_map(s.update(i, e)) =~= entries_map(s).insert(e.0@, e.1));
    } else {
        assert(s.update(i, e).drop_first() =~= t.update(i - 1, e));
        assert(is_first_key(t, e.0@, i - 1));
        lemma_update_first(t, i - 1, e);
        assert(s[0].0@ != e.0@);
        assert(entries_map(s.update(i, e)) =~= entries_map(s).insert(e.0@, e.1));
    }
}

/// A type whose values can be copied, the copy having the original's view.
pub trait Duplicate: View + Sized {
    /// A copy of `self`.
    fn duplicate(&self) -> (r: Self)
        ensures
            r@ == self@,
    ;
}

proof fn lemma_same_deep<V: View>(s1: Seq<(String, V)>, s2: Seq<(String, V)>)
    requires
        s1.len() == s2.len(),
        forall|i: int| 0 <= i < s1.len() ==> s1[i].0@ == s2[i].0@ && s1[i].1@ == s2[i].1@,
    ensures
        entries_map(s1).map_values(|v: V| v@) == entries_map(s2).map_values(|v: V| v@),
    decreases s1.len(),
{
    if s1.len() > 0 {
        let t1 = s1.drop_first();
        let t2 = s2.drop_first();
        lemma_same_deep(t1, t2);
        assert(entries_map(s1).map_values(|v: V| v@) =~= entries_map(t1).map_values(|v: V| v@).insert(s1[0].0@, s1[0].1@));
        assert(entries_map(s2).map_values(|v: V| v@) =~= entries_map(t2).map_values(|v: V| v@).insert(s2[0].0@, s2[0].1@));
    } else {
        assert(entries_map(s1).map_values(|v: V| v@) =~= entries_map(s2).map_values(|v: V| v@));
    }
}

/// A map from string keys to values.
pub struct StrMap<V> {
    entries: Vec<(String, V)>,
}

impl<V> View for StrMap<V> {
    type V = Map<Seq<char>, V>;

    closed spec fn view(&self) -> Map<Seq<char>, V> {
        entries_map(self.entries@)
    }
}

impl<V> StrMap<V> {
    /// An empty map.
    pub fn new() -> (m: Self)
        ensures
            m@ == Map::<Seq<char>, V>::empty(),
    {
        StrMap { entries: Vec::new() }
    }

    fn find(&self, key: &str) -> (r: Option<usize>)
        ensures
            match r {
                Some(i) => is_first_key(self.entries@, key@, i as int),
                None => forall|j: int|
                    0 <= j < self.entries@.len() ==> self.entries@[j].0@ != key@,
            },
    {
        let n = self.entries.len();
        let mut i: usize = 0;
        while i < n
            invariant
                n == self.entries@.len(),
                i <= n,
                forall|j: int| 0 <= j < i ==> self.entries@[j].0@ != key@,
            decreases n - i,
        {
            if str_eq(self.entries[i].0.as_str(), key) {
                return Some(i);
            }
            i += 1;
        }
        None
    }

    /// Whether `key` is in the map.
    pub fn contains_key(&self, key: &str) -> (r: bool)
        ensures
            r == self@.dom().contains(key@),
    {
        proof {
            lemma_lookup(self.entries@, key@);
        }
        self.find(key).is_some()
    }

    /// The value stored under `key`, if any.
    pub fn get(&self, key: &str) -> (r: Option<&V>)
        ensures
            match r {
                Some(v) => self@.dom().contains(key@) && *v == self@[key@],
                None => !self@.dom().contains(key@),
            },
    {
        proof {
            lemma_lookup(self.entries@, key@);
        }
        match self.find(key) {
            Some(i) => Some(&self.entries[i].1),
            None => None,
        }
    }

    /// The keys of the map.
    pub fn keys(&self) -> (r: Vec<String>)
        ensures
            forall|k: Seq<char>|
                self@.dom().contains(k) <==> exists|i: int| 0 <= i < r@.len() && #[trigger] r@[i]@ == k,
    {
        let n = self.entries.len();
        let mut out: Vec<String> = Vec::new();
        let mut i: usize = 0;
        while i < n
            invariant
                n == self.entries@.len(),
                i <= n,
                out@.len() == i,
                forall|j: int| 0 <= j < i ==> out@[j]@ == #[trigger] self.entries@[j].0@,
            decreases n - i,
        {
            out.push(self.entries[i].0.clone());
            i += 1;
        }
        proof {
            assert forall|k: Seq<char>|
                self@.dom().contains(k) <==> exists|i: int| 0 <= i < out@.len() && #[trigger] out@[i]@ == k by {
                lemma_lookup(self.entries@, k);
                if self@.dom().contains(k) {
                    let i = choose|i: int| 0 <= i < self.entries@.len() && self.entries@[i].0@ == k;
                    assert(out@[i]@ == k);
                }
                if exists|i: int| 0 <= i < out@.len() && #[trigger] out@[i]@ == k {
                    let i = choose|i: int| 0 <= i < out@.len() && #[trigger] out@[i]@ == k;
                    assert(self.entries@[i].0@ == k);
                }
            }
        }
        out
    }

    /// Whether the map has no keys.
    pub fn is_empty(&self) -> (r: bool)
        ensures
            r == (self@ == Map::<Seq<char>, V>::empty()),
    {
        proof {
            if self.entries@.len() > 0 {
                lemma_lookup(self.entries@, self.entries@[0].0@);
                assert(self@.dom().contains(self.entries@[0].0@));
                assert(!Map::<Seq<char>, V>::empty().dom().contains(self.entries@[0].0@));
            } else {
                assert(self@ =~= Map::<Seq<char>, V>::empty());
            }
        }
        self.entries.len() == 0
    }

    /// Store `value` under `key`, returning the value it replaces.
    pub fn insert(&mut self, key: String, value: V) -> (r: Option<V>)
        ensures
            final(self)@ == old(self)@.insert(key@, value),
            match r {
                Some(v) => old(self)@.dom().contains(key@) && v == old(self)@[key@],
                None => !old(self)@.dom().contains(key@),
            },
    {
        proof {
            lemma_lookup(self.entries@, key@);
        }
        match self.find(key.as_str()) {
            Some(i) => {
                let ghost s = self.entries@;
                let ghost e = (key, value);
                proof {
                    lemma_update_first(s, i as int, e);
                }
                let (_, old_v) = self.entries.remove(i);
                self.entries.insert(i, (key, value));
                assert(self.entries@ =~= s.update(i as int, e));
                Some(old_v)
            },
            None => {
                let ghost s = self.entries@;
                let ghost e = (key, value);
                proof {
                    lemma_push_absent(s, e);
                }
                self.entries.push((key, value));
                None
            },
        }
    }
}

impl<V> StrMap<V> {
    /// Remove `key` from the map.
    pub fn remove(&mut self, key: &str)
        ensures
            final(self)@ == old(self)@.remove(key@),
    {
        let _ = self.take(key);
    }

    /// Take the value stored under `key` out of the map, if any.
    pub fn take(&mut self, key: &str) -> (r: Option<V>)
        ensures
            final(self)@ == old(self)@.remove(key@),
            match r {
                Some(v) => old(self)@.dom().contains(key@) && v == old(self)@[key@],
                None => !old(self)@.dom().contains(key@),
            },
    {
        let mut entries: Vec<(String, V)> = Vec::new();
        std::mem::swap(&mut entries, &mut self.entries);
        let ghost s = entries@;
        let mut out: Vec<(String, V)> = Vec::new();
        let mut found: Option<V> = None;
        proof {
            assert(s.take(0) =~= Seq::<(String, V)>::empty());
            assert(entries_map(out@) =~= entries_map(s.take(0)).remove(key@));
        }
        let mut rest = entries;
        let n = rest.len();
        assert(rest@ =~= s.subrange(0, n as int));
        let mut i: usize = 0;
        while i < n
            invariant
                n == s.len(),
                i <= n,
                rest@ == s.subrange(i as int, n as int),
                entries_map(out@) == entries_map(s.take(i as int)).remove(key@),
                forall|j: int| 0 <= j < out@.len() ==> out@[j].0@ != key@,
                match found {
                    Some(v) => entries_map(s.take(i as int)).dom().contains(key@)
                        && v == entries_map(s.take(i as int))[key@],
                    None => !entries_map(s.take(i as int)).dom().contains(key@),
                },
            decreases n - i,
        {
            let ghost before = out@;
            assert(rest@[0] == s[i as int]);
            let e = rest.remove(0);
            assert(rest@ =~= s.subrange(i + 1, n as int));
            assert(s.take(i + 1) =~= s.take(i as int).push(e));
            proof {
                lemma_push_any(s.take(i as int), e);
                lemma_lookup(s.take(i as int), e.0@);
            }
            if str_eq(e.0.as_str(), key) {
                assert(entries_map(out@) =~= entries_map(s.take(i + 1)).remove(key@));
                if found.is_none() {
                    found = Some(e.1);
                }
            } else {
                proof {
                    lemma_push_any(before, e);
                    lemma_lookup(before, e.0@);
                }
                out.push(e);
                assert(entries_map(out@) =~= entries_map(s.take(i + 1)).remove(key@));
            }
            i += 1;
        }
        assert(s.take(n as int) =~= s);
        self.entries = out;
        found
    }
}

impl<V: Duplicate> StrMap<V> {
    /// The map with each value taken by its view.
    pub open spec fn deep(&self) -> Map<Seq<char>, V::V> {
        self@.map_values(|v: V| v@)
    }

    /// A copy of the map.
    pub fn duplicate(&self) -> (r: Self)
        ensures
            r.deep() == self.deep(),
    {
        let n = self.entries.len();
        let mut out: Vec<(String, V)> = Vec::new();
        let mut i: usize = 0;
        while i < n
            invariant
                n == self.entries@.len(),
                i <= n,
                out@.len() == i,
                forall|j: int|
                    0 <= j < i ==> out@[j].0@ == self.entries@[j].0@ && out@[j].1@
                        == self.entries@[j].1@,
            decreases n - i,
        {
            let k = self.entries[i].0.clone();
            let v = self.entries[i].1.duplicate();
            out.push((k, v));
            i += 1;
        }
        proof {
            lemma_same_deep(out@, self.entries@);
        }
        StrMap { entries: out }
    }
}

} // verus!
