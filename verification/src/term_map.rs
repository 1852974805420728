//! A small map from terms to records that remembers the order in which the
//! terms came in.

use vstd::prelude::*;
use crate::text::str_eq;

verus! {

/// One term with its record.
struct Entry<V> {
    term: String,
    value: V,
}

/// A map keyed by term. A term occurs at most once; the entries stay in the
/// order in which their terms were first inserted.
pub struct TermMap<V> {
    entries: Vec<Entry<V>>,
}

impl<V> View for TermMap<V> {
    type V = Map<Seq<char>, V>;

    closed spec fn view(&self) -> Map<Seq<char>, V> {
        Map::new(
            |k: Seq<char>| self.terms().contains(k),
            |k: Seq<char>| self.entries@[self.terms().index_of(k)].value,
        )
    }
}

impl<V> TermMap<V> {
    #[verifier::type_invariant]
    spec fn distinct(&self) -> bool {
        self.terms().no_duplicates()
    }

    /// The terms of the map, in the order of their first insertion.
    pub closed spec fn terms(&self) -> Seq<Seq<char>> {
        Seq::new(self.entries@.len(), |i: int| self.entries@[i].term@)
    }

    /// An empty map.
    pub fn new() -> (r: Self)
        ensures
            r@ == Map::<Seq<char>, V>::empty(),
            r.terms() == Seq::<Seq<char>>::empty(),
    {
        let r = TermMap { entries: Vec::new() };
        r
    }

    /// The number of terms. The terms are distinct, and they are the keys of
    /// the map.
    pub fn len(&self) -> (r: usize)
        ensures
            r == self.terms().len(),
            r == self@.dom().len(),
            self@.dom().finite(),
            self@.dom() == self.terms().to_set(),
            self.terms().no_duplicates(),
    {
        proof {
            use_type_invariant(self);
            self.terms().unique_seq_to_set();
            vstd::seq_lib::seq_to_set_is_finite(self.terms());
        }
        self.entries.len()
    }

    /// Whether the map holds no term.
    pub fn is_empty(&self) -> (r: bool)
        ensures
            r == (self.terms().len() == 0),
    {
        self.entries.len() == 0
    }

    /// Where `term` stands among the terms, if it is a key.
    pub fn position(&self, term: &str) -> (r: Option<usize>)
        ensures
            match r {
                Some(i) => i < self.terms().len() && self.terms()[i as int] == term@
                    && self@.contains_key(term@),
                None => !self@.contains_key(term@),
            },
    {
        let mut i: usize = 0;
        while i < self.entries.len()
            invariant
                i <= self.entries.len(),
                forall|j: int| 0 <= j < i ==> self.terms()[j] != term@,
            decreases self.entries.len() - i,
        {
            if str_eq(self.entries[i].term.as_str(), term) {
                assert(self.terms()[i as int] == term@);
                return Some(i);
            }
            i += 1;
        }
        None
    }

    /// Whether `term` is a key.
    pub fn contains_key(&self, term: &str) -> (r: bool)
        ensures
            r == self@.contains_key(term@),
    {
        self.position(term).is_some()
    }

    /// The record of `term`, if it is a key.
    pub fn get(&self, term: &str) -> (r: Option<&V>)
        ensures
            match r {
                Some(v) => self@.contains_key(term@) && *v == self@[term@],
                None => !self@.contains_key(term@),
            },
    {
        match self.position(term) {
            Some(i) => {
                proof {
                    use_type_invariant(self);
                    lemma_index_of(self.terms(), term@, i as int);
                }
                Some(&self.entries[i].value)
            },
            None => None,
        }
    }

    /// The term at position `i`.
    pub fn term_at(&self, i: usize) -> (r: &String)
        requires
            i < self.terms().len(),
        ensures
            r@ == self.terms()[i as int],
    {
        &self.entries[i].term
    }

    /// The record of the term at position `i`.
    pub fn value_at(&self, i: usize) -> (r: &V)
        requires
            i < self.terms().len(),
        ensures
            self@.contains_key(self.terms()[i as int]),
            *r == self@[self.terms()[i as int]],
    {
        proof {
            use_type_invariant(self);
            lemma_index_of(self.terms(), self.terms()[i as int], i as int);
        }
        &self.entries[i].value
    }

    /// Gives `term` the record `value`: a new term goes behind the others, a
    /// known one keeps its place.
    pub fn insert(&mut self, term: String, value: V)
        ensures
            final(self)@ == old(self)@.insert(term@, value),
            final(self).terms() == if old(self)@.contains_key(term@) {
                old(self).terms()
            } else {
                old(self).terms().push(term@)
            },
    {
        proof {
            use_type_invariant(&*self);
        }
        let ghost before = self.terms();
        let found = self.position(term.as_str());
        let mut entries: Vec<Entry<V>> = Vec::new();
        std::mem::swap(&mut entries, &mut self.entries);
        let ghost after;
        match found {
            Some(i) => {
                entries[i].value = value;
                proof {
                    after = before;
                }
            },
            None => {
                entries.push(Entry { term, value });
                proof {
                    after = before.push(term@);
                }
            },
        }
        assert(Seq::new(entries@.len(), |i: int| entries@[i].term@) =~= after);
        self.entries = entries;
        proof {
            let goal = old(self)@.insert(term@, value);
            assert forall|k: Seq<char>| self@.contains_key(k) <==> goal.contains_key(k) by {
                if after.contains(k) {
                    let i = after.index_of(k);
                    if i < before.len() {
                        assert(before[i] == k);
                    }
                }
                if before.contains(k) {
                    let i = before.index_of(k);
                    assert(after[i] == k);
                }
                if k == term@ && found is None {
                    assert(after[before.len() as int] == k);
                }
            }
        }
    }
}

/// In a sequence without duplicates an element is found where it stands.
proof fn lemma_index_of(terms: Seq<Seq<char>>, k: Seq<char>, i: int)
    requires
        terms.no_duplicates(),
        0 <= i < terms.len(),
        terms[i] == k,
    ensures
        terms.contains(k),
        terms.index_of(k) == i,
{
}

} // verus!
