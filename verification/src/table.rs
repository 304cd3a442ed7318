//! An insertion-ordered map keyed by text.
//!
//! `StringMap` keeps its entries in a vector and guarantees that no key
//! occurs twice. Its mathematical model is the sequence of entries
//! (`entries`), from which the map view (`@`) is derived.

use vstd::prelude::*;
use crate::text::same_text;

verus! {

/// No two positions of `s` hold the same key.
pub open spec fn keys_unique<K, V>(s: Seq<(K, V)>) -> bool {
    forall|i: int, j: int| 0 <= i < j < s.len() ==> s[i].0 != s[j].0
}

/// Some position of `s` holds `key`.
pub open spec fn has_key<K, V>(s: Seq<(K, V)>, key: K) -> bool {
    exists|i: int| 0 <= i < s.len() && #[trigger] s[i].0 == key
}

/// A position of `s` that holds `key` (meaningful when `has_key`).
pub open spec fn index_of_key<K, V>(s: Seq<(K, V)>, key: K) -> int {
    choose|i: int| 0 <= i < s.len() && #[trigger] s[i].0 == key
}

/// The map that a sequence of entries stands for.
pub open spec fn entries_to_map<K, V>(s: Seq<(K, V)>) -> Map<K, V> {
    Map::new(|k: K| has_key(s, k), |k: K| s[index_of_key(s, k)].1)
}

/// The sequence of entries after `key` is bound to `value`: an existing
/// entry is updated in place, a new one is appended.
pub open spec fn entries_insert<K, V>(s: Seq<(K, V)>, key: K, value: V) -> Seq<(K, V)> {
    if has_key(s, key) {
        s.update(index_of_key(s, key), (key, value))
    } else {
        s.push((key, value))
    }
}

/// The sequence of entries after `key` is unbound.
pub open spec fn entries_remove<K, V>(s: Seq<(K, V)>, key: K) -> Seq<(K, V)> {
    if has_key(s, key) {
        s.remove(index_of_key(s, key))
    } else {
        s
    }
}

/// With unique keys, every entry is found under its own key.
pub proof fn lemma_unique_index<K, V>(s: Seq<(K, V)>, i: int)
    requires
        keys_unique(s),
        0 <= i < s.len(),
    ensures
        has_key(s, s[i].0),
        index_of_key(s, s[i].0) == i,
        entries_to_map(s).dom().contains(s[i].0),
        entries_to_map(s)[s[i].0] == s[i].1,
{
    assert(s[i].0 == s[i].0);
    let j = index_of_key(s, s[i].0);
    assert(0 <= j < s.len() && s[j].0 == s[i].0);
    if j < i {
        assert(s[j].0 != s[i].0);
    } else if i < j {
        assert(s[i].0 != s[j].0);
    }
}

/// Binding a key keeps keys unique and acts on the map as `Map::insert`.
pub proof fn lemma_entries_insert<K, V>(s: Seq<(K, V)>, key: K, value: V)
    requires
        keys_unique(s),
    ensures
        keys_unique(entries_insert(s, key, value)),
        entries_to_map(entries_insert(s, key, value)) == entries_to_map(s).insert(key, value),
{
    let t = entries_insert(s, key, value);
    if has_key(s, key) {
        let p = index_of_key(s, key);
        assert(t.len() == s.len());
        assert forall|i: int| 0 <= i < t.len() implies #[trigger] t[i].0 == s[i].0 by {}
        assert forall|k: K| has_key(t, k) == has_key(s, k) by {
            if has_key(s, k) {
                let i = index_of_key(s, k);
                assert(t[i].0 == k);
            }
            if has_key(t, k) {
                let i = index_of_key(t, k);
                assert(s[i].0 == k);
            }
        }
        assert forall|k: K| has_key(t, k) implies entries_to_map(t)[k] == entries_to_map(
            s,
        ).insert(key, value)[k] by {
            let i = index_of_key(t, k);
            lemma_unique_index(t, i);
            lemma_unique_index(s, i);
            if k == key {
                lemma_unique_index(s, p);
                assert(i == p);
            }
        }
        assert(entries_to_map(t).dom() =~= entries_to_map(s).insert(key, value).dom()) by {
            assert forall|k: K|
                entries_to_map(t).dom().contains(k) == entries_to_map(s).insert(
                    key,
                    value,
                ).dom().contains(k) by {
                assert(s[p].0 == key);
            }
        }
        assert(entries_to_map(t) =~= entries_to_map(s).insert(key, value));
    } else {
        let n = s.len() as int;
        assert forall|i: int, j: int| 0 <= i < j < t.len() implies t[i].0 != t[j].0 by {
            if j == n {
                assert(s[i].0 != key);
            }
        }
        assert(t[n].0 == key);
        assert forall|k: K| has_key(t, k) == (has_key(s, k) || k == key) by {
            if has_key(s, k) {
                let i = index_of_key(s, k);
                assert(t[i].0 == k);
            }
            if has_key(t, k) {
                let i = index_of_key(t, k);
                if i < n {
                    assert(s[i].0 == k);
                }
            }
        }
        assert forall|k: K| has_key(t, k) implies entries_to_map(t)[k] == entries_to_map(
            s,
        ).insert(key, value)[k] by {
            let i = index_of_key(t, k);
            lemma_unique_index(t, i);
            if i < n {
                assert(s[i].0 == k);
                lemma_unique_index(s, i);
            }
        }
        assert(entries_to_map(t) =~= entries_to_map(s).insert(key, value));
    }
}

/// Unbinding a key keeps keys unique and acts on the map as `Map::remove`.
pub proof fn lemma_entries_remove<K, V>(s: Seq<(K, V)>, key: K)
    requires
        keys_unique(s),
    ensures
        keys_unique(entries_remove(s, key)),
        !has_key(entries_remove(s, key), key),
        entries_to_map(entries_remove(s, key)) == entries_to_map(s).remove(key),
{
    let t = entries_remove(s, key);
    if has_key(s, key) {
        let p = index_of_key(s, key);
        lemma_unique_index(s, p);
        assert forall|i: int| 0 <= i < t.len() implies #[trigger] t[i] == s[if i < p {
            i
        } else {
            i + 1
        }] by {}
        assert forall|i: int, j: int| 0 <= i < j < t.len() implies t[i].0 != t[j].0 by {
            let a = if i < p { i } else { i + 1 };
            let b = if j < p { j } else { j + 1 };
            assert(s[a].0 != s[b].0);
        }
        assert forall|k: K| has_key(t, k) == (has_key(s, k) && k != key) by {
            if has_key(s, k) && k != key {
                let i = index_of_key(s, k);
                assert(i != p);
                let a = if i < p { i } else { i - 1 };
                assert(t[a].0 == k);
            }
            if has_key(t, k) {
                let i = index_of_key(t, k);
                let a = if i < p { i } else { i + 1 };
                assert(s[a].0 == k);
                if k == key {
                    lemma_unique_index(s, a);
                }
            }
        }
        assert forall|k: K| has_key(t, k) implies entries_to_map(t)[k] == entries_to_map(
            s,
        ).remove(key)[k] by {
            let i = index_of_key(t, k);
            lemma_unique_index(t, i);
            let a = if i < p { i } else { i + 1 };
            assert(s[a].0 == k);
            lemma_unique_index(s, a);
        }
        assert(entries_to_map(t) =~= entries_to_map(s).remove(key));
    } else {
        assert(entries_to_map(t) =~= entries_to_map(s).remove(key));
    }
}

/// The map of a sequence with unique keys is finite and has one key per
/// entry.
pub proof fn lemma_entries_len<K, V>(s: Seq<(K, V)>)
    requires
        keys_unique(s),
    ensures
        entries_to_map(s).dom().finite(),
        entries_to_map(s).dom().len() == s.len(),
    decreases s.len(),
{
    if s.len() == 0 {
        assert(entries_to_map(s).dom() =~= Set::<K>::empty());
    } else {
        let last = s.last();
        let t = s.drop_last();
        assert forall|i: int, j: int| 0 <= i < j < t.len() implies t[i].0 != t[j].0 by {
            assert(s[i].0 != s[j].0);
        }
        lemma_entries_len(t);
        assert(!has_key(t, last.0)) by {
            if has_key(t, last.0) {
                let i = index_of_key(t, last.0);
                assert(s[i].0 != s[s.len() - 1].0);
            }
        }
        assert(entries_insert(t, last.0, last.1) =~= s);
        lemma_entries_insert(t, last.0, last.1);
        assert(entries_to_map(s).dom() =~= entries_to_map(t).dom().insert(last.0));
        assert(!entries_to_map(t).dom().contains(last.0));
    }
}

/// Plain values: they can be copied and compared by their mathematical
/// view.
pub trait Plain: DeepView + Sized {
    /// A copy with the same view.
    fn duplicate(&self) -> (r: Self)
        ensures
            r.deep_view() == self.deep_view(),
    ;

    /// True exactly when both values have the same view.
    fn same(&self, other: &Self) -> (r: bool)
        ensures
            r == (self.deep_view() == other.deep_view()),
    ;
}

impl Plain for u64 {
    fn duplicate(&self) -> (r: Self) {
        *self
    }

    fn same(&self, other: &Self) -> (r: bool) {
        *self == *other
    }
}

impl Plain for String {
    fn duplicate(&self) -> (r: Self) {
        self.clone()
    }

    fn same(&self, other: &Self) -> (r: bool) {
        *self == *other
    }
}

/// A map from text keys to values, in insertion order, without duplicate
/// keys.
#[derive(Debug)]
pub struct StringMap<V> {
    items: Vec<(String, V)>,
}

impl<V> StringMap<V> {
    #[verifier::type_invariant]
    spec fn well_formed(self) -> bool {
        forall|i: int, j: int|
            0 <= i < j < self.items.len() ==> self.items[i].0@ != self.items[j].0@
    }
}

impl<V: DeepView> StringMap<V> {
    /// The entries in order, each key and value by its mathematical view.
    pub closed spec fn entries(&self) -> Seq<(Seq<char>, V::V)> {
        Seq::new(
            self.items.len() as nat,
            |i: int| (self.items[i].0@, self.items[i].1.deep_view()),
        )
    }

    /// Looks up the position of `key`.
    fn position(&self, key: &str) -> (r: Option<usize>)
        ensures
            keys_unique(self.entries()),
            match r {
                Some(i) => i < self.items.len() && self.items[i as int].0@ == key@ && has_key(
                    self.entries(),
                    key@,
                ) && index_of_key(self.entries(), key@) == i,
                None => !has_key(self.entries(), key@),
            },
    {
        proof {
            use_type_invariant(self);
            assert(keys_unique(self.entries()));
        }
        let mut i: usize = 0;
        while i < self.items.len()
            invariant
                i <= self.items.len(),
                keys_unique(self.entries()),
                forall|j: int| 0 <= j < i ==> self.items[j].0@ != key@,
            decreases self.items.len() - i,
        {
            if same_text(key, &self.items[i].0) {
                proof {
                    assert(self.entries()[i as int].0 == key@);
                    lemma_unique_index(self.entries(), i as int);
                }
                return Some(i);
            }
            i += 1;
        }
        proof {
            if has_key(self.entries(), key@) {
                let j = index_of_key(self.entries(), key@);
                assert(self.items[j].0@ != key@);
            }
        }
        None
    }

    /// An empty map.
    pub fn new() -> (m: Self)
        ensures
            m.entries() == Seq::<(Seq<char>, V::V)>::empty(),
            m@ == Map::<Seq<char>, V::V>::empty(),
    {
        let m = StringMap { items: Vec::new() };
        proof {
            assert(m.entries() =~= Seq::<(Seq<char>, V::V)>::empty());
            assert(entries_to_map(m.entries()) =~= Map::<Seq<char>, V::V>::empty());
        }
        m
    }

    /// Number of entries.
    pub fn len(&self) -> (n: usize)
        ensures
            n == self.entries().len(),
            n == self@.dom().len(),
            self@.dom().finite(),
            keys_unique(self.entries()),
    {
        proof {
            use_type_invariant(self);
            lemma_entries_len(self.entries());
        }
        self.items.len()
    }

    /// True when the map holds no entry.
    pub fn is_empty(&self) -> (r: bool)
        ensures
            r == (self.entries().len() == 0),
            r == (self@ == Map::<Seq<char>, V::V>::empty()),
    {
        proof {
            use_type_invariant(self);
            lemma_entries_len(self.entries());
            if self.entries().len() == 0 {
                assert(self@ =~= Map::<Seq<char>, V::V>::empty());
            }
        }
        self.items.len() == 0
    }

    /// True when `key` is bound.
    pub fn contains_key(&self, key: &str) -> (r: bool)
        ensures
            r == self@.dom().contains(key@),
            r == has_key(self.entries(), key@),
    {
        self.position(key).is_some()
    }

    /// The value bound to `key`, if any.
    pub fn get(&self, key: &str) -> (r: Option<&V>)
        ensures
            match r {
                Some(v) => self@.dom().contains(key@) && v.deep_view() == self@[key@],
                None => !self@.dom().contains(key@),
            },
    {
        match self.position(key) {
            Some(i) => {
                proof {
                    lemma_unique_index(self.entries(), i as int);
                }
                Some(&self.items[i].1)
            },
            None => None,
        }
    }

    /// The key at position `i`.
    pub fn key_at(&self, i: usize) -> (k: &String)
        requires
            i < self.entries().len(),
        ensures
            k@ == self.entries()[i as int].0,
    {
        &self.items[i].0
    }

    /// The value at position `i`.
    pub fn value_at(&self, i: usize) -> (v: &V)
        requires
            i < self.entries().len(),
        ensures
            v.deep_view() == self.entries()[i as int].1,
            self@.dom().contains(self.entries()[i as int].0),
            self@[self.entries()[i as int].0] == v.deep_view(),
    {
        proof {
            use_type_invariant(self);
            lemma_unique_index(self.entries(), i as int);
        }
        &self.items[i].1
    }

    /// Binds `key` to `value`. An existing entry keeps its position.
    pub fn insert(&mut self, key: String, value: V)
        ensures
            final(self).entries() == entries_insert(
                old(self).entries(),
                key@,
                value.deep_view(),
            ),
            final(self)@ == old(self)@.insert(key@, value.deep_view()),
    {
        let found = self.position(key.as_str());
        let ghost before = self.entries();
        let ghost k = key@;
        let ghost v = value.deep_view();
        let mut items = Vec::new();
        std::mem::swap(&mut items, &mut self.items);
        match found {
            Some(i) => {
                items.set(i, (key, value));
            },
            None => {
                items.push((key, value));
            },
        }
        proof {
            lemma_entries_insert(before, k, v);
            let after = Seq::new(
                items.len() as nat,
                |i: int| (items[i].0@, items[i].1.deep_view()),
            );
            assert(after =~= entries_insert(before, k, v));
            assert forall|i: int, j: int| 0 <= i < j < items.len() implies items[i].0@
                != items[j].0@ by {
                assert(after[i].0 != after[j].0);
            }
        }
        self.items = items;
        proof {
            assert(self.entries() =~= entries_insert(before, k, v));
        }
    }

    /// Unbinds `key`; returns whether it was bound.
    pub fn remove(&mut self, key: &str) -> (was_bound: bool)
        ensures
            was_bound == old(self)@.dom().contains(key@),
            final(self).entries() == entries_remove(old(self).entries(), key@),
            final(self)@ == old(self)@.remove(key@),
    {
        let found = self.position(key);
        let ghost before = self.entries();
        proof {
            lemma_entries_remove(before, key@);
        }
        match found {
            Some(i) => {
                let mut items = Vec::new();
                std::mem::swap(&mut items, &mut self.items);
                let _ = items.remove(i);
                proof {
                    let after = Seq::new(
                        items.len() as nat,
                        |i: int| (items[i].0@, items[i].1.deep_view()),
                    );
                    assert(after =~= entries_remove(before, key@));
                    assert forall|i: int, j: int| 0 <= i < j < items.len() implies items[i].0@
                        != items[j].0@ by {
                        assert(after[i].0 != after[j].0);
                    }
                }
                self.items = items;
                proof {
                    assert(self.entries() =~= entries_remove(before, key@));
                }
                true
            },
            None => false,
        }
    }
}

impl<V: Plain> StringMap<V> {
    /// A copy with the same entries in the same order.
    pub fn duplicate(&self) -> (r: Self)
        ensures
            r.entries() == self.entries(),
            r@ == self@,
    {
        proof {
            use_type_invariant(self);
        }
        let mut items: Vec<(String, V)> = Vec::new();
        let mut i: usize = 0;
        while i < self.items.len()
            invariant
                i <= self.items.len(),
                items.len() == i,
                forall|j: int|
                    0 <= j < i ==> items[j].0@ == self.items[j].0@ && items[j].1.deep_view()
                        == self.items[j].1.deep_view(),
            decreases self.items.len() - i,
        {
            let key = self.items[i].0.clone();
            let value = self.items[i].1.duplicate();
            items.push((key, value));
            i += 1;
        }
        let r = StringMap { items };
        proof {
            assert(r.entries() =~= self.entries());
        }
        r
    }
}

impl<V: Plain> StringMap<V> {
    /// True exactly when both maps bind the same keys to the same values,
    /// whatever the order of their entries.
    pub fn same_map(&self, other: &Self) -> (r: bool)
        ensures
            r == (self@ == other@),
    {
        let n = self.len();
        let m = other.len();
        if n != m {
            return false;
        }
        let mut i: usize = 0;
        while i < n
            invariant
                i <= n,
                n == self.entries().len(),
                keys_unique(self.entries()),
                forall|j: int|
                    0 <= j < i ==> other@.dom().contains(#[trigger] self.entries()[j].0)
                        && other@[self.entries()[j].0] == self.entries()[j].1,
            decreases n - i,
        {
            let key = self.key_at(i);
            let value = self.value_at(i);
            match other.get(key.as_str()) {
                Some(theirs) => {
                    if !value.same(theirs) {
                        return false;
                    }
                },
                None => {
                    return false;
                },
            }
            i += 1;
        }
        proof {
            let es = self.entries();
            assert forall|k: Seq<char>| self@.dom().contains(k) implies other@.dom().contains(
                k,
            ) && other@[k] == self@[k] by {
                let j = index_of_key(es, k);
                assert(es[j].0 == k);
                lemma_unique_index(es, j);
            }
            assert(self@.dom().subset_of(other@.dom()));
            vstd::set_lib::lemma_subset_equality(self@.dom(), other@.dom());
            assert(self@ =~= other@);
        }
        true
    }
}

impl<V: DeepView> View for StringMap<V> {
    type V = Map<Seq<char>, V::V>;

    open spec fn view(&self) -> Map<Seq<char>, V::V> {
        entries_to_map(self.entries())
    }
}

impl<V: DeepView> DeepView for StringMap<V> {
    type V = Map<Seq<char>, V::V>;

    open spec fn deep_view(&self) -> Map<Seq<char>, V::V> {
        self.view()
    }
}

} // verus!
