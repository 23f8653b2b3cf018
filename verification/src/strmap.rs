//! A map keyed by strings that keeps its keys in ascending order, as a
//! `BTreeMap<String, _>` does for header and tag maps. Its view is the
//! ordered sequence of `(key, value)` pairs; the type invariant is that the keys
//! are strictly ascending, which also makes them unique.
use vstd::prelude::*;
use vstd::string::*;

use crate::text::{
    lemma_seq_lt_irreflexive, lemma_seq_lt_total, lemma_seq_lt_transitive, seq_lt, str_eq,
    str_lt,
};

verus! {

/// The keys of `s` are strictly ascending.
pub open spec fn keys_sorted<V>(s: Seq<(Seq<char>, V)>) -> bool {
    forall|i: int, j: int| 0 <= i < j < s.len() ==> seq_lt(#[trigger] s[i].0, #[trigger] s[j].0)
}

/// Some entry of `s` has key `k`.
pub open spec fn has_key<V>(s: Seq<(Seq<char>, V)>, k: Seq<char>) -> bool {
    exists|i: int| 0 <= i < s.len() && #[trigger] s[i].0 == k
}

/// The value stored under `k`, if any.
pub open spec fn lookup<V>(s: Seq<(Seq<char>, V)>, k: Seq<char>) -> Option<V>
    decreases s.len(),
{
    if s.len() == 0 {
        None
    } else if s.last().0 == k {
        Some(s.last().1)
    } else {
        lookup(s.drop_last(), k)
    }
}

/// Without an entry for `k` there is nothing to look up.
pub proof fn lemma_lookup_absent<V>(s: Seq<(Seq<char>, V)>, k: Seq<char>)
    requires
        !has_key(s, k),
    ensures
        lookup(s, k).is_none(),
    decreases s.len(),
{
    if s.len() > 0 {
        assert(s.last().0 != k) by {
            if s.last().0 == k {
                assert(s[s.len() - 1].0 == k);
            }
        }
        assert forall|j: int| 0 <= j < s.drop_last().len() implies #[trigger] s.drop_last()[j].0 != k by {
            assert(s.drop_last()[j] == s[j]);
        }
        lemma_lookup_absent(s.drop_last(), k);
    }
}

/// `a` is `b` after storing `v` under `k`: an existing entry for `k` gets the
/// new value in place, otherwise the pair is inserted at some position.
pub open spec fn insert_post<V>(b: Seq<(Seq<char>, V)>, a: Seq<(Seq<char>, V)>, k: Seq<char>, v: V) -> bool {
    ||| (has_key(b, k) && exists|i: int| 0 <= i < b.len() && #[trigger] b[i].0 == k && a == b.update(i, (k, v)))
    ||| (!has_key(b, k) && exists|p: int| 0 <= p <= b.len() && a == #[trigger] b.insert(p, (k, v)))
}

/// In a sorted sequence the entry with a given key is the only one.
pub proof fn lemma_sorted_unique<V>(s: Seq<(Seq<char>, V)>, i: int, j: int)
    requires
        keys_sorted(s),
        0 <= i < s.len(),
        0 <= j < s.len(),
        s[i].0 == s[j].0,
    ensures
        i == j,
{
    if i < j {
        lemma_seq_lt_irreflexive(s[i].0);
    } else if j < i {
        lemma_seq_lt_irreflexive(s[i].0);
    }
}

/// `lookup` gives the value at the index that holds the key.
pub proof fn lemma_lookup_at<V>(s: Seq<(Seq<char>, V)>, i: int)
    requires
        keys_sorted(s),
        0 <= i < s.len(),
    ensures
        lookup(s, s[i].0) == Some(s[i].1),
    decreases s.len(),
{
    if i < s.len() - 1 {
        if s.last().0 == s[i].0 {
            lemma_sorted_unique(s, i, s.len() - 1);
        }
        let t = s.drop_last();
        assert(t[i] == s[i]);
        assert forall|a: int, b: int| 0 <= a < b < t.len() implies seq_lt(#[trigger] t[a].0, #[trigger] t[b].0) by {
            assert(t[a] == s[a]);
            assert(t[b] == s[b]);
        }
        lemma_lookup_at(t, i);
    }
}

/// A string-keyed map whose entries are kept in ascending key order.
#[derive(Debug, PartialEq, Eq)]
pub struct StrMap<V: DeepView> {
    entries: Vec<(String, V)>,
}

impl<V: DeepView> View for StrMap<V> {
    type V = Seq<(Seq<char>, V::V)>;

    closed spec fn view(&self) -> Seq<(Seq<char>, V::V)> {
        self.entries@.map_values(|e: (String, V)| (e.0@, e.1.deep_view()))
    }
}

impl<V: DeepView> StrMap<V> {
    /// The type invariant: keys strictly ascending.
    #[verifier::type_invariant]
    pub closed spec fn inv(self) -> bool {
        keys_sorted(self@)
    }

    /// What the type invariant says, for use after `use_type_invariant`.
    pub proof fn lemma_inv(m: Self)
        requires
            m.inv(),
        ensures
            keys_sorted(m@),
    {
    }

    /// An empty map.
    pub fn new() -> (r: Self)
        ensures
            r@ == Seq::<(Seq<char>, V::V)>::empty(),
    {
        let r = StrMap { entries: Vec::new() };
        assert(r@ =~= Seq::<(Seq<char>, V::V)>::empty());
        r
    }

    /// Number of entries.
    pub fn len(&self) -> (r: usize)
        ensures
            r == self@.len(),
    {
        self.entries.len()
    }

    /// Whether the map has no entries.
    pub fn is_empty(&self) -> (r: bool)
        ensures
            r == (self@.len() == 0),
    {
        self.entries.len() == 0
    }

    /// The key of the `i`-th entry in key order.
    pub fn key_at(&self, i: usize) -> (r: &String)
        requires
            i < self@.len(),
        ensures
            r@ == self@[i as int].0,
    {
        &self.entries[i].0
    }

    /// The value of the `i`-th entry in key order.
    pub fn value_at(&self, i: usize) -> (r: &V)
        requires
            i < self@.len(),
        ensures
            r.deep_view() == self@[i as int].1,
    {
        &self.entries[i].1
    }

    /// Position of the entry whose key is exactly `key`.
    pub fn find(&self, key: &str) -> (r: Option<usize>)
        ensures
            match r {
                Some(i) => i < self@.len() && self@[i as int].0 == key@,
                None => !has_key(self@, key@),
            },
    {
        let n = self.entries.len();
        let mut i: usize = 0;
        while i < n
            invariant
                n == self@.len(),
                i <= n,
                forall|j: int| 0 <= j < i ==> self@[j].0 != key@,
            decreases n - i,
        {
            if str_eq(self.entries[i].0.as_str(), key) {
                return Some(i);
            }
            i = i + 1;
        }
        None
    }

    /// The value stored under exactly `key`.
    pub fn get(&self, key: &str) -> (r: Option<&V>)
        ensures
            match r {
                Some(v) => lookup(self@, key@) == Some(v.deep_view()),
                None => lookup(self@, key@).is_none(),
            },
    {
        proof {
            use_type_invariant(self);
        }
        match self.find(key) {
            Some(i) => {
                proof {
                    lemma_lookup_at(self@, i as int);
                    assert(self@[i as int].1 == self.entries@[i as int].1.deep_view());
                }
                Some(&self.entries[i].1)
            },
            None => {
                proof {
                    lemma_lookup_absent(self@, key@);
                }
                None
            },
        }
    }

    /// Whether some entry has exactly `key`.
    pub fn contains_key(&self, key: &str) -> (r: bool)
        ensures
            r == has_key(self@, key@),
    {
        self.find(key).is_some()
    }

    /// Removes the `i`-th entry and returns its value.
    pub fn remove_at(&mut self, i: usize) -> (r: V)
        requires
            i < old(self)@.len(),
        ensures
            final(self)@ == old(self)@.remove(i as int),
            r.deep_view() == old(self)@[i as int].1,
    {
        proof {
            use_type_invariant(&*self);
        }
        let ghost before = self@;
        let mut entries = Vec::new();
        std::mem::swap(&mut entries, &mut self.entries);
        let (_, value) = entries.remove(i);
        let ghost after = entries@.map_values(|e: (String, V)| (e.0@, e.1.deep_view()));
        assert(after =~= before.remove(i as int));
        assert forall|a: int, b: int| 0 <= a < b < after.len() implies seq_lt(
            #[trigger] after[a].0,
            #[trigger] after[b].0,
        ) by {
            let a0 = if a < i { a } else { a + 1 };
            let b0 = if b < i { b } else { b + 1 };
            assert(after[a] == before[a0]);
            assert(after[b] == before[b0]);
        }
        self.entries = entries;
        assert(self@ =~= before.remove(i as int));
        value
    }

    /// Replaces the value of the `i`-th entry, keeping its key, and returns the
    /// value it held.
    pub fn replace_at(&mut self, i: usize, value: V) -> (r: V)
        requires
            i < old(self)@.len(),
        ensures
            final(self)@ == old(self)@.update(i as int, (old(self)@[i as int].0, value.deep_view())),
            r.deep_view() == old(self)@[i as int].1,
    {
        proof {
            use_type_invariant(&*self);
        }
        let ghost before = self@;
        let mut entries = Vec::new();
        std::mem::swap(&mut entries, &mut self.entries);
        let (key, previous) = entries.remove(i);
        entries.insert(i, (key, value));
        let ghost after = entries@.map_values(|e: (String, V)| (e.0@, e.1.deep_view()));
        assert(after =~= before.update(i as int, (before[i as int].0, value.deep_view())));
        assert forall|a: int, b: int| 0 <= a < b < after.len() implies seq_lt(
            #[trigger] after[a].0,
            #[trigger] after[b].0,
        ) by {
            assert(after[a].0 == before[a].0);
            assert(after[b].0 == before[b].0);
        }
        self.entries = entries;
        assert(self@ =~= before.update(i as int, (before[i as int].0, value.deep_view())));
        previous
    }

    /// Stores `value` under `key`, replacing and returning any previous value.
    /// A new key is placed at its position in key order.
    pub fn insert(&mut self, key: String, value: V) -> (r: Option<V>)
        ensures
            match r {
                Some(previous) => exists|i: int|
                    0 <= i < old(self)@.len() && old(self)@[i].0 == key@ && previous.deep_view()
                        == old(self)@[i].1 && final(self)@ == old(self)@.update(
                        i,
                        (key@, value.deep_view()),
                    ),
                None => !has_key(old(self)@, key@) && exists|p: int|
                    0 <= p <= old(self)@.len() && final(self)@ == old(self)@.insert(
                        p,
                        (key@, value.deep_view()),
                    ),
            },
            insert_post(old(self)@, final(self)@, key@, value.deep_view()),
            lookup(final(self)@, key@) == Some(value.deep_view()),
            forall|k: Seq<char>| k != key@ ==> #[trigger] lookup(final(self)@, k) == lookup(old(self)@, k),
            forall|k: Seq<char>| #[trigger] has_key(final(self)@, k) == (has_key(old(self)@, k) || k == key@),
    {
        proof {
            use_type_invariant(&*self);
        }
        let ghost before = self@;
        match self.find(key.as_str()) {
            Some(i) => {
                let previous = self.replace_at(i, value);
                proof {
                    let after = self@;
                    use_type_invariant(&*self);
                    lemma_lookup_at(after, i as int);
                    assert forall|k: Seq<char>| k != key@ implies #[trigger] lookup(after, k) == lookup(before, k) by {
                        if has_key(before, k) {
                            let j = choose|j: int| 0 <= j < before.len() && #[trigger] before[j].0 == k;
                            assert(after[j].0 == k);
                            lemma_lookup_at(before, j);
                            lemma_lookup_at(after, j);
                        } else {
                            assert forall|j: int| 0 <= j < after.len() implies #[trigger] after[j].0 != k by {
                                assert(after[j].0 == before[j].0);
                            }
                            lemma_lookup_absent(before, k);
                            lemma_lookup_absent(after, k);
                        }
                    }
                    assert forall|k: Seq<char>| #[trigger] has_key(after, k) == (has_key(before, k) || k == key@) by {
                        if has_key(after, k) {
                            let j = choose|j: int| 0 <= j < after.len() && #[trigger] after[j].0 == k;
                            assert(before[j].0 == k);
                        }
                        if has_key(before, k) {
                            let j = choose|j: int| 0 <= j < before.len() && #[trigger] before[j].0 == k;
                            assert(after[j].0 == k);
                        }
                    }
                }
                Some(previous)
            },
            None => {
                let n = self.entries.len();
                let mut p: usize = 0;
                while p < n && str_lt(self.entries[p].0.as_str(), key.as_str())
                    invariant
                        n == self@.len(),
                        self@ == before,
                        p <= n,
                        forall|j: int| 0 <= j < p ==> seq_lt(#[trigger] before[j].0, key@),
                    decreases n - p,
                {
                    p = p + 1;
                }
                proof {
                    if p < n {
                        lemma_seq_lt_total(before[p as int].0, key@);
                        assert(seq_lt(key@, before[p as int].0));
                    }
                }
                let mut entries = Vec::new();
                std::mem::swap(&mut entries, &mut self.entries);
                entries.insert(p, (key, value));
                let ghost after = entries@.map_values(|e: (String, V)| (e.0@, e.1.deep_view()));
                assert(after =~= before.insert(p as int, (key@, value.deep_view())));
                assert forall|a: int, b: int| 0 <= a < b < after.len() implies seq_lt(
                    #[trigger] after[a].0,
                    #[trigger] after[b].0,
                ) by {
                    if a < p && b < p {
                    } else if a < p && b == p {
                    } else if a < p {
                        assert(after[b] == before[b - 1]);
                    } else if a == p {
                        assert(after[b] == before[b - 1]);
                        if b - 1 > p {
                            lemma_seq_lt_transitive(key@, before[p as int].0, before[b - 1].0);
                        }
                    } else {
                        assert(after[a] == before[a - 1]);
                        assert(after[b] == before[b - 1]);
                    }
                }
                self.entries = entries;
                proof {
                    assert(self@ =~= after);
                    lemma_lookup_at(after, p as int);
                    assert forall|k: Seq<char>| k != key@ implies #[trigger] lookup(after, k) == lookup(before, k) by {
                        if has_key(before, k) {
                            let j = choose|j: int| 0 <= j < before.len() && #[trigger] before[j].0 == k;
                            let j2 = if j < p { j } else { j + 1 };
                            assert(after[j2].0 == k);
                            lemma_lookup_at(before, j);
                            lemma_lookup_at(after, j2);
                        } else {
                            assert forall|j: int| 0 <= j < after.len() implies #[trigger] after[j].0 != k by {
                                if j < p {
                                    assert(after[j] == before[j]);
                                } else if j > p {
                                    assert(after[j] == before[j - 1]);
                                }
                            }
                            lemma_lookup_absent(before, k);
                            lemma_lookup_absent(after, k);
                        }
                    }
                    assert forall|k: Seq<char>| #[trigger] has_key(after, k) == (has_key(before, k) || k == key@) by {
                        if has_key(after, k) {
                            let j = choose|j: int| 0 <= j < after.len() && #[trigger] after[j].0 == k;
                            if j < p {
                                assert(before[j].0 == k);
                            } else if j > p {
                                assert(before[j - 1].0 == k);
                            }
                        }
                        if has_key(before, k) {
                            let j = choose|j: int| 0 <= j < before.len() && #[trigger] before[j].0 == k;
                            let j2 = if j < p { j } else { j + 1 };
                            assert(after[j2].0 == k);
                        }
                    }
                }
                None
            },
        }
    }

    /// Removes the entry with exactly `key` and returns its value.
    pub fn remove(&mut self, key: &str) -> (r: Option<V>)
        ensures
            match r {
                Some(v) => exists|i: int|
                    0 <= i < old(self)@.len() && old(self)@[i].0 == key@ && v.deep_view() == old(self)@[i].1
                        && final(self)@ == old(self)@.remove(i),
                None => !has_key(old(self)@, key@) && final(self)@ == old(self)@,
            },
            !has_key(final(self)@, key@),
    {
        proof {
            use_type_invariant(&*self);
        }
        match self.find(key) {
            Some(i) => {
                let ghost before = self@;
                let v = self.remove_at(i);
                proof {
                    let after = self@;
                    if has_key(after, key@) {
                        let j = choose|j: int| 0 <= j < after.len() && #[trigger] after[j].0 == key@;
                        let j2 = if j < i { j } else { j + 1 };
                        assert(before[j2].0 == key@);
                        lemma_sorted_unique(before, i as int, j2);
                    }
                }
                Some(v)
            },
            None => None,
        }
    }
}

impl<V: DeepView + Clone> Clone for StrMap<V> {
    /// A copy with the same keys, in the same order, and cloned values.
    fn clone(&self) -> (r: Self)
        ensures
            r@.len() == self@.len(),
            forall|i: int| 0 <= i < self@.len() ==> #[trigger] r@[i].0 == self@[i].0,
    {
        proof {
            use_type_invariant(self);
        }
        let n = self.entries.len();
        let mut entries: Vec<(String, V)> = Vec::new();
        let mut i: usize = 0;
        while i < n
            invariant
                n == self@.len(),
                i <= n,
                entries@.len() == i,
                keys_sorted(self@),
                forall|j: int| 0 <= j < i ==> #[trigger] entries@[j].0@ == self@[j].0,
            decreases n - i,
        {
            let key = self.entries[i].0.clone();
            let value = self.entries[i].1.clone();
            entries.push((key, value));
            i = i + 1;
        }
        let ghost m = entries@.map_values(|e: (String, V)| (e.0@, e.1.deep_view()));
        assert forall|a: int, b: int| 0 <= a < b < m.len() implies seq_lt(#[trigger] m[a].0, #[trigger] m[b].0) by {
            assert(m[a].0 == self@[a].0);
            assert(m[b].0 == self@[b].0);
        }
        StrMap { entries }
    }
}

impl StrMap<String> {
    /// A copy with the same entries.
    pub fn duplicate(&self) -> (r: Self)
        ensures
            r@ == self@,
    {
        proof {
            use_type_invariant(self);
        }
        let n = self.entries.len();
        let mut entries: Vec<(String, String)> = Vec::new();
        let mut i: usize = 0;
        while i < n
            invariant
                n == self@.len(),
                i <= n,
                entries@.len() == i,
                entries@.map_values(|e: (String, String)| (e.0@, e.1.deep_view())) =~= self@.subrange(0, i as int),
            decreases n - i,
        {
            let key = self.entries[i].0.clone();
            let value = self.entries[i].1.clone();
            let ghost prev = entries@;
            entries.push((key, value));
            proof {
                let m = entries@.map_values(|e: (String, String)| (e.0@, e.1.deep_view()));
                assert(entries@ == prev.push((key, value)));
                assert(m[i as int] == self@[i as int]);
                assert(m =~= self@.subrange(0, i + 1));
            }
            i = i + 1;
        }
        let r = StrMap { entries };
        assert(r@ =~= self@);
        r
    }
}

impl StrMap<Vec<String>> {
    /// A copy with the same entries.
    pub fn duplicate(&self) -> (r: Self)
        ensures
            r@ == self@,
    {
        proof {
            use_type_invariant(self);
        }
        let n = self.entries.len();
        let mut entries: Vec<(String, Vec<String>)> = Vec::new();
        let mut i: usize = 0;
        while i < n
            invariant
                n == self@.len(),
                i <= n,
                entries@.len() == i,
                entries@.map_values(|e: (String, Vec<String>)| (e.0@, e.1.deep_view())) =~= self@.subrange(0, i as int),
            decreases n - i,
        {
            let key = self.entries[i].0.clone();
            let value = crate::text::copy_strings(&self.entries[i].1);
            let ghost prev = entries@;
            entries.push((key, value));
            proof {
                let m = entries@.map_values(|e: (String, Vec<String>)| (e.0@, e.1.deep_view()));
                assert(entries@ == prev.push((key, value)));
                assert(m[i as int] == self@[i as int]);
                assert(m =~= self@.subrange(0, i + 1));
            }
            i = i + 1;
        }
        let r = StrMap { entries };
        assert(r@ =~= self@);
        r
    }
}

} // verus!
