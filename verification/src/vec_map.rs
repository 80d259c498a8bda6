//! An insertion-ordered map backed by a vector.
//!
//! The map keeps its entries in the order in which their keys were first
//! inserted. Its model is the sequence of entries, in which no key occurs
//! twice, and the mathematical map that this sequence denotes.
use vstd::prelude::*;
use vstd::std_specs::cmp::{PartialEqSpec, PartialEqSpecImpl};

verus! {

/// A type that can serve as a key: comparing two keys at run time decides
/// whether they are the same value.
pub trait Key: Copy {
    fn same(&self, other: &Self) -> (r: bool)
        ensures
            r == (*self == *other),
    ;
}

impl Key for u64 {
    fn same(&self, other: &Self) -> (r: bool) {
        *self == *other
    }
}

/// No key occurs at two positions of `entries`.
pub open spec fn distinct_keys<K, V>(entries: Seq<(K, V)>) -> bool {
    forall|i: int, j: int|
        0 <= i < j < entries.len() ==> (#[trigger] entries[i]).0 != (#[trigger] entries[j]).0
}

/// `key` occurs in `entries`.
pub open spec fn has_key<K, V>(entries: Seq<(K, V)>, key: K) -> bool {
    exists|i: int| 0 <= i < entries.len() && (#[trigger] entries[i]).0 == key
}

/// A position at which `key` occurs in `entries` (the only one, where keys are distinct).
pub open spec fn position_of<K, V>(entries: Seq<(K, V)>, key: K) -> int {
    choose|i: int| 0 <= i < entries.len() && (#[trigger] entries[i]).0 == key
}

/// The map that a sequence of entries denotes.
pub open spec fn as_map<K, V>(entries: Seq<(K, V)>) -> Map<K, V> {
    Map::new(|k: K| has_key(entries, k), |k: K| entries[position_of(entries, k)].1)
}

/// Each entry is found in the map under its key, and its key at its position only.
pub proof fn lemma_as_map_at<K, V>(entries: Seq<(K, V)>, i: int)
    requires
        distinct_keys(entries),
        0 <= i < entries.len(),
    ensures
        has_key(entries, entries[i].0),
        position_of(entries, entries[i].0) == i,
        as_map(entries).contains_key(entries[i].0),
        as_map(entries)[entries[i].0] == entries[i].1,
{
    let k = entries[i].0;
    let p = position_of(entries, k);
    assert(0 <= p < entries.len() && entries[p].0 == k);
    if p < i {
        assert(entries[p].0 != entries[i].0);
    } else if i < p {
        assert(entries[i].0 != entries[p].0);
    }
}

/// No entries denote the empty map.
pub proof fn lemma_as_map_empty<K, V>()
    ensures
        as_map(Seq::<(K, V)>::empty()) == Map::<K, V>::empty(),
        distinct_keys(Seq::<(K, V)>::empty()),
{
    assert(as_map(Seq::<(K, V)>::empty()) =~= Map::<K, V>::empty());
}

/// An entry with a new key at the end is an insertion into the map.
pub proof fn lemma_as_map_push<K, V>(entries: Seq<(K, V)>, key: K, value: V)
    requires
        distinct_keys(entries),
        !has_key(entries, key),
    ensures
        distinct_keys(entries.push((key, value))),
        as_map(entries.push((key, value))) == as_map(entries).insert(key, value),
{
    let after = entries.push((key, value));
    assert forall|i: int, j: int| 0 <= i < j < after.len() implies (#[trigger] after[i]).0 != (
    #[trigger] after[j]).0 by {
        if j < entries.len() {
            assert(entries[i].0 != entries[j].0);
        } else {
            assert(entries[i].0 != key);
        }
    }
    assert forall|k: K| #[trigger] has_key(after, k) <==> (k == key || has_key(entries, k)) by {
        if has_key(after, k) {
            let i = position_of(after, k);
            if i < entries.len() {
                assert(entries[i].0 == k);
            }
        }
        if has_key(entries, k) {
            let i = position_of(entries, k);
            assert(after[i].0 == k);
        }
        if k == key {
            assert(after[entries.len() as int].0 == k);
        }
    }
    assert forall|k: K| has_key(after, k) implies #[trigger] as_map(after)[k] == as_map(
        entries,
    ).insert(key, value)[k] by {
        if k == key {
            lemma_as_map_at(after, entries.len() as int);
        } else {
            let i = position_of(entries, k);
            assert(after[i] == entries[i]);
            lemma_as_map_at(after, i);
            lemma_as_map_at(entries, i);
        }
    }
    assert(as_map(after) =~= as_map(entries).insert(key, value));
}

/// A new value in place of an old one is an insertion into the map under the same key.
pub proof fn lemma_as_map_update<K, V>(entries: Seq<(K, V)>, i: int, value: V)
    requires
        distinct_keys(entries),
        0 <= i < entries.len(),
    ensures
        distinct_keys(entries.update(i, (entries[i].0, value))),
        as_map(entries.update(i, (entries[i].0, value))) == as_map(entries).insert(
            entries[i].0,
            value,
        ),
{
    let key = entries[i].0;
    let after = entries.update(i, (key, value));
    assert forall|a: int, b: int| 0 <= a < b < after.len() implies (#[trigger] after[a]).0 != (
    #[trigger] after[b]).0 by {
        assert(after[a].0 == entries[a].0);
        assert(after[b].0 == entries[b].0);
    }
    assert forall|k: K| #[trigger] has_key(after, k) <==> has_key(entries, k) by {
        if has_key(after, k) {
            let p = position_of(after, k);
            assert(entries[p].0 == k);
        }
        if has_key(entries, k) {
            let p = position_of(entries, k);
            assert(after[p].0 == k);
        }
    }
    lemma_as_map_at(entries, i);
    assert forall|k: K| has_key(after, k) implies #[trigger] as_map(after)[k] == as_map(
        entries,
    ).insert(key, value)[k] by {
        let p = position_of(entries, k);
        lemma_as_map_at(entries, p);
        assert(after[p].0 == k);
        lemma_as_map_at(after, p);
    }
    assert(as_map(after) =~= as_map(entries).insert(key, value));
}

/// An entry taken out is its key removed from the map.
pub proof fn lemma_as_map_remove<K, V>(entries: Seq<(K, V)>, i: int)
    requires
        distinct_keys(entries),
        0 <= i < entries.len(),
    ensures
        distinct_keys(entries.remove(i)),
        !has_key(entries.remove(i), entries[i].0),
        as_map(entries.remove(i)) == as_map(entries).remove(entries[i].0),
{
    let key = entries[i].0;
    let after = entries.remove(i);
    assert forall|a: int| 0 <= a < after.len() implies #[trigger] after[a] == entries[if a < i {
        a
    } else {
        a + 1
    }] by {}
    assert forall|a: int, b: int| 0 <= a < b < after.len() implies (#[trigger] after[a]).0 != (
    #[trigger] after[b]).0 by {
        let first = if a < i { a } else { a + 1 };
        let second = if b < i { b } else { b + 1 };
        assert(entries[first].0 != entries[second].0);
    }
    assert forall|k: K| #[trigger] has_key(after, k) <==> (k != key && has_key(entries, k)) by {
        if has_key(after, k) {
            let p = position_of(after, k);
            let source = if p < i { p } else { p + 1 };
            assert(entries[source].0 == k);
            if source < i {
                assert(entries[source].0 != entries[i].0);
            } else {
                assert(entries[i].0 != entries[source].0);
            }
        }
        if k != key && has_key(entries, k) {
            let p = position_of(entries, k);
            let q = if p < i { p } else { p - 1 };
            assert(after[q].0 == k);
        }
    }
    assert forall|k: K| has_key(after, k) implies #[trigger] as_map(after)[k] == as_map(
        entries,
    ).remove(key)[k] by {
        let p = position_of(after, k);
        let source = if p < i { p } else { p + 1 };
        lemma_as_map_at(after, p);
        lemma_as_map_at(entries, source);
    }
    assert(as_map(after) =~= as_map(entries).remove(key));
}

/// What the first `i + 1` entries denote, from what the first `i` denote.
pub proof fn lemma_as_map_take_step<K, V>(entries: Seq<(K, V)>, i: int)
    requires
        distinct_keys(entries),
        0 <= i < entries.len(),
    ensures
        distinct_keys(entries.take(i)),
        distinct_keys(entries.take(i + 1)),
        !as_map(entries.take(i)).contains_key(entries[i].0),
        entries.take(i + 1) == entries.take(i).push(entries[i]),
        as_map(entries.take(i + 1)) == as_map(entries.take(i)).insert(entries[i].0, entries[i].1),
        as_map(entries.take(0)) == Map::<K, V>::empty(),
        entries.take(entries.len() as int) == entries,
{
    let done = entries.take(i);
    assert forall|a: int, b: int| 0 <= a < b < done.len() implies (#[trigger] done[a]).0 != (
    #[trigger] done[b]).0 by {
        assert(entries[a].0 != entries[b].0);
    }
    if has_key(done, entries[i].0) {
        let p = position_of(done, entries[i].0);
        assert(entries[p].0 != entries[i].0);
    }
    assert(entries.take(i + 1) =~= done.push(entries[i]));
    lemma_as_map_push(done, entries[i].0, entries[i].1);
    assert(entries.take(0) =~= Seq::<(K, V)>::empty());
    lemma_as_map_empty::<K, V>();
    assert(entries.take(entries.len() as int) =~= entries);
}

/// The entries that a sequence of keys and a sequence of values of the same
/// length make, position by position.
pub open spec fn paired<K, V>(keys: Seq<K>, values: Seq<V>) -> Seq<(K, V)> {
    Seq::new(keys.len(), |i: int| (keys[i], values[i]))
}

/// A map that remembers the order in which its keys were first inserted.
#[derive(Debug)]
pub struct VecMap<K: Key, V> {
    keys: Vec<K>,
    values: Vec<V>,
}

impl<K: Key, V> VecMap<K, V> {
    #[verifier::type_invariant]
    pub closed spec fn well_formed(self) -> bool {
        &&& self.keys@.len() == self.values@.len()
        &&& self.keys@.no_duplicates()
    }

    /// A map that meets its invariant holds each key once.
    pub proof fn lemma_entries_distinct(&self)
        requires
            self.well_formed(),
        ensures
            distinct_keys(self.entries()),
    {
    }

    /// The entries in insertion order.
    pub closed spec fn entries(&self) -> Seq<(K, V)> {
        paired(self.keys@, self.values@)
    }

    /// The map from each key to its value.
    pub open spec fn view(&self) -> Map<K, V> {
        as_map(self.entries())
    }

    pub fn new() -> (m: Self)
        ensures
            m.entries() == Seq::<(K, V)>::empty(),
            m@ == Map::<K, V>::empty(),
    {
        proof {
            lemma_as_map_empty::<K, V>();
            assert(paired(Seq::<K>::empty(), Seq::<V>::empty()) =~= Seq::<(K, V)>::empty());
        }
        VecMap { keys: Vec::new(), values: Vec::new() }
    }

    pub fn len(&self) -> (n: usize)
        ensures
            n == self.entries().len(),
            distinct_keys(self.entries()),
    {
        proof {
            use_type_invariant(self);
            self.lemma_entries_distinct();
        }
        self.keys.len()
    }

    pub fn is_empty(&self) -> (r: bool)
        ensures
            r == (self.entries().len() == 0),
            r == (self@ == Map::<K, V>::empty()),
    {
        proof {
            use_type_invariant(self);
            self.lemma_entries_distinct();
            if self.entries().len() == 0 {
                assert(self.entries() =~= Seq::<(K, V)>::empty());
                lemma_as_map_empty::<K, V>();
            } else {
                lemma_as_map_at(self.entries(), 0);
                assert(self@.contains_key(self.entries()[0].0));
            }
        }
        self.keys.len() == 0
    }

    /// The position of `key` among the entries, if it is there.
    pub fn position(&self, key: &K) -> (r: Option<usize>)
        ensures
            distinct_keys(self.entries()),
            match r {
                Some(i) => i < self.entries().len() && self.entries()[i as int].0 == *key
                    && position_of(self.entries(), *key) == i && self@.contains_key(*key)
                    && self@[*key] == self.entries()[i as int].1,
                None => !self@.contains_key(*key),
            },
    {
        proof {
            use_type_invariant(self);
            self.lemma_entries_distinct();
        }
        let ghost entries = self.entries();
        let mut i: usize = 0;
        while i < self.keys.len()
            invariant
                i <= self.keys@.len(),
                entries == paired(self.keys@, self.values@),
                distinct_keys(entries),
                forall|j: int| 0 <= j < i ==> (#[trigger] entries[j]).0 != *key,
            decreases self.keys@.len() - i,
        {
            if self.keys[i].same(key) {
                proof {
                    lemma_as_map_at(entries, i as int);
                }
                return Some(i);
            }
            i += 1;
        }
        None
    }

    pub fn contains_key(&self, key: &K) -> (r: bool)
        ensures
            r == self@.contains_key(*key),
    {
        self.position(key).is_some()
    }

    pub fn get(&self, key: &K) -> (r: Option<&V>)
        ensures
            match r {
                Some(v) => self@.contains_key(*key) && *v == self@[*key],
                None => !self@.contains_key(*key),
            },
    {
        proof {
            use_type_invariant(self);
        }
        match self.position(key) {
            Some(i) => Some(&self.values[i]),
            None => None,
        }
    }

    /// The key at position `i`.
    pub fn key_at(&self, i: usize) -> (k: K)
        requires
            i < self.entries().len(),
        ensures
            k == self.entries()[i as int].0,
            self@.contains_key(k),
            self@[k] == self.entries()[i as int].1,
            distinct_keys(self.entries()),
    {
        proof {
            use_type_invariant(self);
            self.lemma_entries_distinct();
            lemma_as_map_at(self.entries(), i as int);
        }
        self.keys[i]
    }

    /// The value at position `i`.
    pub fn value_at(&self, i: usize) -> (v: &V)
        requires
            i < self.entries().len(),
        ensures
            *v == self.entries()[i as int].1,
    {
        proof {
            use_type_invariant(self);
        }
        &self.values[i]
    }

    /// Binds `key` to `value`. A key that is already there keeps its place
    /// and the value it had is returned; a new key goes to the end.
    pub fn insert(&mut self, key: K, value: V) -> (previous: Option<V>)
        ensures
            final(self)@ == old(self)@.insert(key, value),
            match previous {
                Some(v) => {
                    &&& old(self)@.contains_key(key)
                    &&& v == old(self)@[key]
                    &&& final(self).entries() == old(self).entries().update(
                        position_of(old(self).entries(), key),
                        (key, value),
                    )
                },
                None => {
                    &&& !old(self)@.contains_key(key)
                    &&& final(self).entries() == old(self).entries().push((key, value))
                },
            },
    {
        proof {
            use_type_invariant(&*self);
            self.lemma_entries_distinct();
        }
        let ghost before = self.entries();
        match self.position(&key) {
            Some(i) => {
                proof {
                    lemma_as_map_update(before, i as int, value);
                    assert(paired(self.keys@, self.values@.update(i as int, value))
                        =~= before.update(i as int, (key, value)));
                }
                let mut fresh = value;
                std::mem::swap(&mut self.values[i], &mut fresh);
                Some(fresh)
            },
            None => {
                proof {
                    lemma_as_map_push(before, key, value);
                    assert(paired(self.keys@.push(key), self.values@.push(value)) =~= before.push(
                        (key, value),
                    ));
                }
                let mut whole = VecMap::new();
                std::mem::swap(self, &mut whole);
                let VecMap { mut keys, mut values } = whole;
                keys.push(key);
                values.push(value);
                proof {
                    assert forall|a: int, b: int|
                        0 <= a < keys@.len() && 0 <= b < keys@.len() && a != b implies keys@[a]
                        != keys@[b] by {
                        if a < before.len() && b < before.len() {
                            assert(before[a].0 != before[b].0);
                        } else if a < before.len() {
                            assert(before[a].0 != key);
                        } else {
                            assert(before[b].0 != key);
                        }
                    }
                }
                *self = VecMap { keys, values };
                None
            },
        }
    }

    /// Removes `key`; the entries after it each move one place forward.
    pub fn remove(&mut self, key: &K) -> (previous: Option<V>)
        ensures
            final(self)@ == old(self)@.remove(*key),
            match previous {
                Some(v) => {
                    &&& old(self)@.contains_key(*key)
                    &&& v == old(self)@[*key]
                    &&& final(self).entries() == old(self).entries().remove(
                        position_of(old(self).entries(), *key),
                    )
                },
                None => {
                    &&& !old(self)@.contains_key(*key)
                    &&& final(self).entries() == old(self).entries()
                },
            },
    {
        proof {
            use_type_invariant(&*self);
            self.lemma_entries_distinct();
        }
        let ghost before = self.entries();
        match self.position(key) {
            Some(i) => {
                proof {
                    lemma_as_map_remove(before, i as int);
                    assert(paired(self.keys@.remove(i as int), self.values@.remove(i as int))
                        =~= before.remove(i as int));
                }
                let mut whole = VecMap::new();
                std::mem::swap(self, &mut whole);
                let VecMap { mut keys, mut values } = whole;
                let ghost keys_before = keys@;
                keys.remove(i);
                let value = values.remove(i);
                proof {
                    assert forall|a: int, b: int|
                        0 <= a < keys@.len() && 0 <= b < keys@.len() && a != b implies keys@[a]
                        != keys@[b] by {
                        let first = if a < i { a } else { a + 1 };
                        let second = if b < i { b } else { b + 1 };
                        assert(keys@[a] == keys_before[first]);
                        assert(keys@[b] == keys_before[second]);
                    }
                }
                *self = VecMap { keys, values };
                Some(value)
            },
            None => {
                assert(old(self)@.remove(*key) =~= old(self)@);
                None
            },
        }
    }

    /// A mutable reference to the value of `key`.
    pub fn get_mut(&mut self, key: &K) -> (r: Option<&mut V>)
        ensures
            match r {
                Some(v) => {
                    &&& old(self)@.contains_key(*key)
                    &&& *v == old(self)@[*key]
                    &&& final(self)@ == old(self)@.insert(*key, *final(v))
                    &&& final(self).entries() == old(self).entries().update(
                        position_of(old(self).entries(), *key),
                        (*key, *final(v)),
                    )
                },
                None => !old(self)@.contains_key(*key) && *final(self) == *old(self),
            },
    {
        proof {
            use_type_invariant(&*self);
            self.lemma_entries_distinct();
        }
        let ghost before = self.entries();
        match self.position(key) {
            Some(i) => {
                let value = &mut self.values[i];
                proof {
                    lemma_as_map_update(before, i as int, *final(value));
                    assert(paired(
                        old(self).keys@,
                        old(self).values@.update(i as int, *final(value)),
                    ) =~= before.update(i as int, (*key, *final(value))));
                }
                Some(value)
            },
            None => None,
        }
    }

    /// Empties the map and returns what it held.
    pub fn take(&mut self) -> (taken: Self)
        ensures
            taken.entries() == old(self).entries(),
            taken@ == old(self)@,
            final(self).entries() == Seq::<(K, V)>::empty(),
            final(self)@ == Map::<K, V>::empty(),
    {
        let mut taken = VecMap::new();
        std::mem::swap(self, &mut taken);
        taken
    }

    /// The entries in insertion order.
    pub fn into_entries(self) -> (entries: Vec<(K, V)>)
        ensures
            entries@ == self.entries(),
            distinct_keys(entries@),
    {
        proof {
            use_type_invariant(&self);
            self.lemma_entries_distinct();
        }
        let ghost all = self.entries();
        let mut keys = self.keys;
        let mut values = self.values;
        let mut backwards: Vec<(K, V)> = Vec::new();
        while keys.len() > 0
            invariant
                keys@.len() == values@.len(),
                keys@.len() + backwards@.len() == all.len(),
                forall|i: int| 0 <= i < keys@.len() ==> all[i] == (keys@[i], values@[i]),
                forall|i: int|
                    0 <= i < backwards@.len() ==> #[trigger] backwards@[i] == all[all.len() - 1
                        - i],
            decreases keys@.len(),
        {
            let key = keys.pop();
            let value = values.pop();
            match (key, value) {
                (Some(k), Some(v)) => {
                    backwards.push((k, v));
                },
                _ => {},
            }
        }
        let mut entries: Vec<(K, V)> = Vec::new();
        while backwards.len() > 0
            invariant
                backwards@.len() + entries@.len() == all.len(),
                forall|i: int|
                    0 <= i < backwards@.len() ==> #[trigger] backwards@[i] == all[all.len() - 1
                        - i],
                forall|i: int| 0 <= i < entries@.len() ==> #[trigger] entries@[i] == all[i],
            decreases backwards@.len(),
        {
            match backwards.pop() {
                Some(entry) => {
                    entries.push(entry);
                },
                None => {},
            }
        }
        assert(entries@ =~= all);
        entries
    }

    /// The map that results from inserting `entries` one after the other.
    pub fn from_entries(entries: Vec<(K, V)>) -> (m: Self)
        ensures
            m@ == inserted_all(Map::<K, V>::empty(), entries@),
    {
        let mut m = VecMap::new();
        for entry in it: entries
            invariant
                it.seq() == entries@,
                m@ == inserted_all(Map::<K, V>::empty(), entries@.take(it.index() as int)),
        {
            proof {
                assert(entries@.take(it.index() + 1).drop_last() == entries@.take(
                    it.index() as int,
                ));
            }
            m.insert(entry.0, entry.1);
        }
        proof {
            assert(entries@.take(entries@.len() as int) == entries@);
        }
        m
    }
}

impl<K: Key, V> Default for VecMap<K, V> {
    fn default() -> (m: Self)
        ensures
            m.entries() == Seq::<(K, V)>::empty(),
            m@ == Map::<K, V>::empty(),
    {
        VecMap::new()
    }
}

impl<K: Key, V: Copy> Clone for VecMap<K, V> {
    fn clone(&self) -> (m: Self)
        ensures
            m.entries() == self.entries(),
            m@ == self@,
    {
        proof {
            use_type_invariant(self);
        }
        let mut keys: Vec<K> = Vec::new();
        let mut values: Vec<V> = Vec::new();
        let mut i: usize = 0;
        while i < self.keys.len()
            invariant
                i <= self.keys@.len(),
                self.keys@.len() == self.values@.len(),
                keys@ == self.keys@.take(i as int),
                values@ == self.values@.take(i as int),
            decreases self.keys@.len() - i,
        {
            keys.push(self.keys[i]);
            values.push(self.values[i]);
            proof {
                assert(self.keys@.take(i + 1) == self.keys@.take(i as int).push(
                    self.keys@[i as int],
                ));
                assert(self.values@.take(i + 1) == self.values@.take(i as int).push(
                    self.values@[i as int],
                ));
            }
            i += 1;
        }
        proof {
            assert(self.keys@.take(self.keys@.len() as int) == self.keys@);
            assert(self.values@.take(self.values@.len() as int) == self.values@);
        }
        VecMap { keys, values }
    }
}

impl<K: Key, V: PartialEq> PartialEq for VecMap<K, V> {
    /// Two maps are equal when they hold the same keys with equal values,
    /// in whatever order.
    fn eq(&self, other: &Self) -> (r: bool) {
        proof {
            use_type_invariant(self);
            use_type_invariant(other);
            self.lemma_entries_distinct();
        }
        if self.keys.len() != other.keys.len() {
            return false;
        }
        let ghost entries = self.entries();
        let mut i: usize = 0;
        while i < self.keys.len()
            invariant
                i <= self.keys@.len(),
                self.keys@.len() == self.values@.len(),
                entries == self.entries(),
                distinct_keys(entries),
                forall|j: int|
                    0 <= j < i ==> other@.contains_key((#[trigger] entries[j]).0) && (
                    V::obeys_eq_spec() ==> entries[j].1.eq_spec(&other@[entries[j].0])),
            decreases self.keys@.len() - i,
        {
            match other.get(&self.keys[i]) {
                None => {
                    proof {
                        lemma_as_map_at(entries, i as int);
                        assert(self@.contains_key(entries[i as int].0));
                    }
                    return false;
                },
                Some(value) => {
                    if !(self.values[i] == *value) {
                        proof {
                            lemma_as_map_at(entries, i as int);
                            let k = entries[i as int].0;
                            assert(entries[i as int].1 == self.values@[i as int]);
                            assert(self@.contains_key(k) && self@[k] == self.values@[i as int]);
                        }
                        return false;
                    }
                },
            }
            i += 1;
        }
        proof {
            assert forall|k: K| self@.contains_key(k) implies other@.contains_key(k) && (
            V::obeys_eq_spec() ==> (#[trigger] self@[k]).eq_spec(&other@[k])) by {
                let p = position_of(entries, k);
                lemma_as_map_at(entries, p);
            }
        }
        true
    }
}

impl<K: Key, V: PartialEq> PartialEqSpecImpl for VecMap<K, V> {
    open spec fn obeys_eq_spec() -> bool {
        V::obeys_eq_spec()
    }

    open spec fn eq_spec(&self, other: &Self) -> bool {
        &&& self.entries().len() == other.entries().len()
        &&& forall|k: K|
            self@.contains_key(k) ==> other@.contains_key(k) && (#[trigger] self@[k]).eq_spec(
                &other@[k],
            )
    }
}

impl<K: Key, V: Eq> Eq for VecMap<K, V> {

}

/// The map that results from inserting `entries` into `m`, first entry first.
pub open spec fn inserted_all<K, V>(m: Map<K, V>, entries: Seq<(K, V)>) -> Map<K, V>
    decreases entries.len(),
{
    if entries.len() == 0 {
        m
    } else {
        inserted_all(m, entries.drop_last()).insert(entries.last().0, entries.last().1)
    }
}

} // verus!
