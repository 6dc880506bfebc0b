//! A set of pairs of strings, kept as a list without repetition.
//!
//! A connection keeps the `(topic, session)` pairs that it is subscribed to in such a set.

use crate::text::str_eq;
use vstd::prelude::*;

verus! {

/// A pair of character sequences.
pub type Pair = (Seq<char>, Seq<char>);

/// The characters of a stored pair.
pub open spec fn pair_view(entry: (String, String)) -> Pair {
    (entry.0@, entry.1@)
}

/// Whether `entries` holds `pair`.
pub open spec fn has_pair(entries: Seq<(String, String)>, pair: Pair) -> bool {
    exists|i: int| 0 <= i < entries.len() && pair_view(#[trigger] entries[i]) == pair
}

/// No pair occurs twice.
pub open spec fn distinct_pairs(entries: Seq<(String, String)>) -> bool {
    forall|i: int, j: int|
        0 <= i < j < entries.len() ==> pair_view(#[trigger] entries[i]) != pair_view(
            #[trigger] entries[j],
        )
}

/// The set that a list of pairs stands for.
pub open spec fn as_set(entries: Seq<(String, String)>) -> Set<Pair> {
    Set::new(|pair: Pair| has_pair(entries, pair))
}

/// Appending a pair that is not yet held inserts it into the set.
pub proof fn lemma_as_set_push(entries: Seq<(String, String)>, entry: (String, String))
    requires
        distinct_pairs(entries),
        !has_pair(entries, pair_view(entry)),
    ensures
        distinct_pairs(entries.push(entry)),
        as_set(entries.push(entry)) == as_set(entries).insert(pair_view(entry)),
{
    let grown = entries.push(entry);
    assert forall|p: Pair| has_pair(grown, p) <==> (p == pair_view(entry) || has_pair(
        entries,
        p,
    )) by {
        if p == pair_view(entry) {
            assert(pair_view(grown[entries.len() as int]) == p);
        }
        if has_pair(entries, p) {
            let i = choose|i: int| 0 <= i < entries.len() && pair_view(#[trigger] entries[i]) == p;
            assert(grown[i] == entries[i]);
        }
    }
}

/// Taking the pair at index `i` out removes it from the set.
pub proof fn lemma_as_set_remove(entries: Seq<(String, String)>, i: int)
    requires
        distinct_pairs(entries),
        0 <= i < entries.len(),
    ensures
        distinct_pairs(entries.remove(i)),
        as_set(entries.remove(i)) == as_set(entries).remove(pair_view(entries[i])),
{
    let rest = entries.remove(i);
    let gone = pair_view(entries[i]);
    assert forall|p: Pair| has_pair(rest, p) <==> (p != gone && has_pair(entries, p)) by {
        if p != gone && has_pair(entries, p) {
            let a0 = choose|a: int| 0 <= a < entries.len() && pair_view(#[trigger] entries[a])
                == p;
            let a = if a0 < i { a0 } else { a0 - 1 };
            assert(rest[a] == entries[a0]);
        }
    }
}

/// Without repetition, the set has as many members as the list has entries.
pub proof fn lemma_as_set_len(entries: Seq<(String, String)>)
    requires
        distinct_pairs(entries),
    ensures
        as_set(entries).finite(),
        as_set(entries).len() == entries.len(),
    decreases entries.len(),
{
    if entries.len() == 0 {
        assert(as_set(entries) =~= Set::<Pair>::empty());
    } else {
        let front = entries.drop_last();
        let last = entries.last();
        lemma_as_set_len(front);
        lemma_as_set_push(front, last);
        assert(front.push(last) =~= entries);
    }
}

/// A set of pairs of strings.
pub struct PairSet {
    entries: Vec<(String, String)>,
}

impl View for PairSet {
    type V = Set<Pair>;

    closed spec fn view(&self) -> Set<Pair> {
        as_set(self.entries@)
    }
}

impl PairSet {
    #[verifier::type_invariant]
    spec fn inv(self) -> bool {
        distinct_pairs(self.entries@)
    }

    /// The empty set.
    pub fn new() -> (set: Self)
        ensures
            set@ == Set::<Pair>::empty(),
    {
        let set = PairSet { entries: Vec::new() };
        set
    }

    /// Moves the entries out and leaves the set empty.
    fn take_entries(&mut self) -> (entries: Vec<(String, String)>)
        ensures
            entries == old(self).entries,
            final(self).entries@.len() == 0,
    {
        let mut entries: Vec<(String, String)> = Vec::new();
        core::mem::swap(&mut self.entries, &mut entries);
        entries
    }

    /// The index at which the pair is held.
    fn position(&self, first: &str, second: &str) -> (found: Option<usize>)
        ensures
            match found {
                Some(i) => i < self.entries.len() && pair_view(self.entries[i as int]) == (
                    first@,
                    second@,
                ),
                None => !has_pair(self.entries@, (first@, second@)),
            },
    {
        let mut i: usize = 0;
        while i < self.entries.len()
            invariant
                i <= self.entries.len(),
                forall|j: int|
                    0 <= j < i ==> pair_view(#[trigger] self.entries[j]) != (first@, second@),
            decreases self.entries.len() - i,
        {
            if str_eq(self.entries[i].0.as_str(), first) && str_eq(
                self.entries[i].1.as_str(),
                second,
            ) {
                return Some(i);
            }
            i += 1;
        }
        None
    }

    /// Whether the set holds the pair.
    pub fn contains(&self, first: &str, second: &str) -> (held: bool)
        ensures
            held == self@.contains((first@, second@)),
    {
        self.position(first, second).is_some()
    }

    /// Puts the pair into the set.
    pub fn insert(&mut self, first: String, second: String)
        ensures
            final(self)@ == old(self)@.insert((first@, second@)),
    {
        proof {
            use_type_invariant(&*self);
        }
        if self.position(first.as_str(), second.as_str()).is_none() {
            proof {
                lemma_as_set_push(self.entries@, (first, second));
            }
            let mut entries = self.take_entries();
            entries.push((first, second));
            self.entries = entries;
        }
    }

    /// Takes the pair out of the set.
    pub fn remove(&mut self, first: &str, second: &str)
        ensures
            final(self)@ == old(self)@.remove((first@, second@)),
    {
        proof {
            use_type_invariant(&*self);
        }
        match self.position(first, second) {
            Some(i) => {
                proof {
                    lemma_as_set_remove(self.entries@, i as int);
                }
                let mut entries = self.take_entries();
                let _ = entries.remove(i);
                self.entries = entries;
            },
            None => {},
        }
    }

    /// Takes some pair out of the set and hands it over; `None` where the set is empty.
    pub fn pop(&mut self) -> (taken: Option<(String, String)>)
        ensures
            match taken {
                Some(entry) => old(self)@.contains(pair_view(entry)) && final(self)@ == old(
                    self,
                )@.remove(pair_view(entry)),
                None => old(self)@ == Set::<Pair>::empty() && final(self)@ == old(self)@,
            },
            old(self)@.finite(),
            final(self)@.len() == if taken is Some {
                old(self)@.len() - 1
            } else {
                0
            },
    {
        proof {
            use_type_invariant(&*self);
            lemma_as_set_len(self.entries@);
        }
        if self.entries.len() == 0 {
            None
        } else {
            let last = self.entries.len() - 1;
            proof {
                lemma_as_set_remove(self.entries@, last as int);
                lemma_as_set_len(self.entries@.remove(last as int));
            }
            let mut entries = self.take_entries();
            let entry = entries.remove(last);
            self.entries = entries;
            Some(entry)
        }
    }

    /// The number of pairs held.
    pub fn len(&self) -> (count: usize)
        ensures
            self@.finite(),
            count == self@.len(),
    {
        proof {
            use_type_invariant(self);
            lemma_as_set_len(self.entries@);
        }
        self.entries.len()
    }

    /// The pairs held, in no particular order.
    pub fn to_vec(&self) -> (pairs: Vec<(String, String)>)
        ensures
            as_set(pairs@) == self@,
            distinct_pairs(pairs@),
    {
        proof {
            use_type_invariant(self);
        }
        let mut pairs: Vec<(String, String)> = Vec::new();
        let mut i: usize = 0;
        while i < self.entries.len()
            invariant
                i <= self.entries.len(),
                pairs@.len() == i,
                forall|j: int| 0 <= j < i ==> pair_view(#[trigger] pairs@[j]) == pair_view(
                    self.entries@[j],
                ),
            decreases self.entries.len() - i,
        {
            pairs.push((self.entries[i].0.clone(), self.entries[i].1.clone()));
            i += 1;
        }
        proof {
            assert forall|p: Pair| has_pair(pairs@, p) <==> has_pair(self.entries@, p) by {
                if has_pair(self.entries@, p) {
                    let j = choose|j: int| 0 <= j < self.entries@.len() && pair_view(
                        #[trigger] self.entries@[j],
                    ) == p;
                    assert(pair_view(pairs@[j]) == p);
                }
            }
        }
        pairs
    }
}

} // verus!
