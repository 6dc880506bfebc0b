//! A map keyed by strings, kept as a list of entries whose keys are pairwise distinct.
//!
//! The view of a [`StrMap`] is a mathematical `Map` from character sequences to values.

use crate::text::str_eq;
use vstd::prelude::*;

verus! {

/// Whether some entry of `entries` is stored under `key`.
pub open spec fn has_key<V>(entries: Seq<(String, V)>, key: Seq<char>) -> bool {
    exists|i: int| 0 <= i < entries.len() && (#[trigger] entries[i]).0@ == key
}

/// An index at which `key` is stored, if there is one.
pub open spec fn slot_of<V>(entries: Seq<(String, V)>, key: Seq<char>) -> int {
    choose|i: int| 0 <= i < entries.len() && (#[trigger] entries[i]).0@ == key
}

/// No two entries share a key.
pub open spec fn distinct_keys<V>(entries: Seq<(String, V)>) -> bool {
    forall|i: int, j: int|
        0 <= i < j < entries.len() ==> (#[trigger] entries[i]).0@ != (#[trigger] entries[j]).0@
}

/// The map that a list of entries stands for.
pub open spec fn as_map<V>(entries: Seq<(String, V)>) -> Map<Seq<char>, V> {
    Map::new(|key: Seq<char>| has_key(entries, key), |key: Seq<char>| entries[slot_of(entries, key)].1)
}

/// With distinct keys, the entry at index `i` is what the map holds under its key.
pub proof fn lemma_as_map_at<V>(entries: Seq<(String, V)>, i: int)
    requires
        distinct_keys(entries),
        0 <= i < entries.len(),
    ensures
        as_map(entries).contains_key(entries[i].0@),
        as_map(entries)[entries[i].0@] == entries[i].1,
        slot_of(entries, entries[i].0@) == i,
{
    let j = slot_of(entries, entries[i].0@);
    assert(j == i);
}

/// Appending an entry under a fresh key inserts it into the map.
pub proof fn lemma_as_map_push<V>(entries: Seq<(String, V)>, key: String, value: V)
    requires
        distinct_keys(entries),
        !has_key(entries, key@),
    ensures
        distinct_keys(entries.push((key, value))),
        as_map(entries.push((key, value))) == as_map(entries).insert(key@, value),
{
    let grown = entries.push((key, value));
    assert forall|k: Seq<char>| has_key(grown, k) <==> (k == key@ || has_key(entries, k)) by {
        if k == key@ {
            assert(grown[entries.len() as int].0@ == k);
        }
        if has_key(entries, k) {
            let i = slot_of(entries, k);
            assert(grown[i] == entries[i]);
        }
    }
    assert forall|k: Seq<char>| has_key(grown, k) implies #[trigger] as_map(grown)[k] == as_map(
        entries,
    ).insert(key@, value)[k] by {
        if k == key@ {
            lemma_as_map_at(grown, entries.len() as int);
        } else {
            let i = slot_of(entries, k);
            lemma_as_map_at(grown, i);
        }
    }
}

/// Taking the entry at index `i` out removes its key from the map.
pub proof fn lemma_as_map_remove<V>(entries: Seq<(String, V)>, i: int)
    requires
        distinct_keys(entries),
        0 <= i < entries.len(),
    ensures
        distinct_keys(entries.remove(i)),
        as_map(entries.remove(i)) == as_map(entries).remove(entries[i].0@),
{
    let rest = entries.remove(i);
    let gone = entries[i].0@;
    assert forall|a: int| 0 <= a < rest.len() implies #[trigger] rest[a] == entries[if a < i {
        a
    } else {
        a + 1
    }] by {}
    assert forall|k: Seq<char>| has_key(rest, k) <==> (k != gone && has_key(entries, k)) by {
        if k != gone && has_key(entries, k) {
            let a0 = slot_of(entries, k);
            let a = if a0 < i { a0 } else { a0 - 1 };
            assert(rest[a] == entries[a0]);
        }
    }
    assert forall|k: Seq<char>| has_key(rest, k) implies #[trigger] as_map(rest)[k] == as_map(
        entries,
    ).remove(gone)[k] by {
        let a = slot_of(rest, k);
        let a0 = if a < i { a } else { a + 1 };
        lemma_as_map_at(rest, a);
        lemma_as_map_at(entries, a0);
    }
}

/// With distinct keys, the map has as many keys as there are entries.
pub proof fn lemma_as_map_len<V>(entries: Seq<(String, V)>)
    requires
        distinct_keys(entries),
    ensures
        as_map(entries).dom().finite(),
        as_map(entries).dom().len() == entries.len(),
    decreases entries.len(),
{
    if entries.len() == 0 {
        assert(as_map(entries).dom() =~= Set::<Seq<char>>::empty());
    } else {
        let front = entries.drop_last();
        let last = entries.last();
        lemma_as_map_len(front);
        lemma_as_map_push(front, last.0, last.1);
        assert(front.push((last.0, last.1)) =~= entries);
    }
}

/// A map from strings to values of type `V`.
pub struct StrMap<V> {
    entries: Vec<(String, V)>,
}

impl<V> View for StrMap<V> {
    type V = Map<Seq<char>, V>;

    closed spec fn view(&self) -> Map<Seq<char>, V> {
        as_map(self.entries@)
    }
}

impl<V> StrMap<V> {
    #[verifier::type_invariant]
    spec fn inv(self) -> bool {
        distinct_keys(self.entries@)
    }

    /// The empty map.
    pub fn new() -> (map: Self)
        ensures
            map@ == Map::<Seq<char>, V>::empty(),
    {
        let map = StrMap { entries: Vec::new() };
        map
    }

    /// Moves the entries out and leaves the map empty.
    fn take_entries(&mut self) -> (entries: Vec<(String, V)>)
        ensures
            entries == old(self).entries,
            final(self).entries@.len() == 0,
    {
        let mut entries: Vec<(String, V)> = Vec::new();
        core::mem::swap(&mut self.entries, &mut entries);
        entries
    }

    /// The index of the entry stored under `key`.
    fn position(&self, key: &str) -> (found: Option<usize>)
        ensures
            match found {
                Some(i) => i < self.entries.len() && self.entries[i as int].0@ == key@,
                None => !has_key(self.entries@, key@),
            },
    {
        let mut i: usize = 0;
        while i < self.entries.len()
            invariant
                i <= self.entries.len(),
                forall|j: int| 0 <= j < i ==> (#[trigger] self.entries[j]).0@ != key@,
            decreases self.entries.len() - i,
        {
            if str_eq(self.entries[i].0.as_str(), key) {
                return Some(i);
            }
            i += 1;
        }
        None
    }

    /// Whether `key` has a value.
    pub fn contains_key(&self, key: &str) -> (present: bool)
        ensures
            present == self@.contains_key(key@),
    {
        self.position(key).is_some()
    }

    /// The value stored under `key`.
    pub fn get(&self, key: &str) -> (value: Option<&V>)
        ensures
            match value {
                Some(v) => self@.contains_key(key@) && *v == self@[key@],
                None => !self@.contains_key(key@),
            },
    {
        proof {
            use_type_invariant(self);
        }
        match self.position(key) {
            Some(i) => {
                proof {
                    lemma_as_map_at(self.entries@, i as int);
                }
                Some(&self.entries[i].1)
            },
            None => None,
        }
    }

    /// Stores `value` under `key` and hands back what was stored there before.
    pub fn insert(&mut self, key: String, value: V) -> (previous: Option<V>)
        ensures
            final(self)@ == old(self)@.insert(key@, value),
            previous == if old(self)@.contains_key(key@) {
                Some(old(self)@[key@])
            } else {
                None::<V>
            },
    {
        proof {
            use_type_invariant(&*self);
        }
        let previous = self.remove(key.as_str());
        proof {
            use_type_invariant(&*self);
            assert(!self@.contains_key(key@));
            lemma_as_map_push(self.entries@, key, value);
        }
        let mut entries = self.take_entries();
        entries.push((key, value));
        self.entries = entries;
        previous
    }

    /// Takes the value stored under `key` out of the map.
    pub fn remove(&mut self, key: &str) -> (taken: Option<V>)
        ensures
            final(self)@ == old(self)@.remove(key@),
            taken == if old(self)@.contains_key(key@) {
                Some(old(self)@[key@])
            } else {
                None::<V>
            },
    {
        proof {
            use_type_invariant(&*self);
        }
        match self.position(key) {
            Some(i) => {
                proof {
                    lemma_as_map_at(self.entries@, i as int);
                    lemma_as_map_remove(self.entries@, i as int);
                }
                let mut entries = self.take_entries();
                let entry = entries.remove(i);
                self.entries = entries;
                Some(entry.1)
            },
            None => {
                None
            },
        }
    }

    /// Whether the map holds no entry.
    pub fn is_empty(&self) -> (empty: bool)
        ensures
            empty == self@.is_empty(),
    {
        proof {
            use_type_invariant(self);
            lemma_as_map_len(self.entries@);
            if self.entries@.len() > 0 {
                lemma_as_map_at(self.entries@, 0);
            }
        }
        self.entries.len() == 0
    }

    /// The number of keys.
    pub fn len(&self) -> (count: usize)
        ensures
            self@.dom().finite(),
            count == self@.dom().len(),
    {
        proof {
            use_type_invariant(self);
            lemma_as_map_len(self.entries@);
        }
        self.entries.len()
    }
}

} // verus!
