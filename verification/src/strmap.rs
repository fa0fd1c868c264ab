//! A key/value mapping with text keys, unique keys and a stable entry order.
//!
//! Documents carry their named declarations in such a mapping; the entry
//! order is the document's own and survives migration, so the mapping is a
//! sequence of pairs with pairwise-distinct keys rather than a hash table.

use vstd::prelude::*;

verus! {

/// A mapping from text keys to values with pairwise-distinct keys.
pub struct StrMap<V> {
    entries: Vec<(String, V)>,
}

/// Pairwise-distinct keys.
pub open spec fn distinct_keys<V>(s: Seq<(Seq<char>, V)>) -> bool {
    forall|i: int, j: int| 0 <= i < j < s.len() ==> s[i].0 != s[j].0
}

/// Inserting one pair: an existing key keeps its place and takes the new
/// value; a new key is appended.
pub open spec fn spec_insert<V>(s: Seq<(Seq<char>, V)>, k: Seq<char>, v: V) -> Seq<(Seq<char>, V)> {
    if exists|i: int| 0 <= i < s.len() && s[i].0 == k {
        let i = choose|i: int| 0 <= i < s.len() && s[i].0 == k;
        s.update(i, (k, v))
    } else {
        s.push((k, v))
    }
}

impl<V> StrMap<V> {
    /// The mapping's entries, in order, with keys as character sequences.
    pub closed spec fn model(self) -> Seq<(Seq<char>, V)> {
        Seq::new(self.entries@.len(), |i: int| (self.entries@[i].0@, self.entries@[i].1))
    }

    /// Well-formed: the keys are pairwise distinct.
    pub open spec fn wf(self) -> bool {
        distinct_keys(self.model())
    }

    /// The empty mapping.
    pub fn new() -> (r: StrMap<V>)
        ensures
            r.model() == Seq::<(Seq<char>, V)>::empty(),
            r.wf(),
    {
        let r = StrMap { entries: Vec::new() };
        proof {
            assert(r.model() =~= Seq::<(Seq<char>, V)>::empty());
        }
        r
    }

    /// The number of entries.
    pub fn len(&self) -> (n: usize)
        ensures
            n == self.model().len(),
    {
        self.entries.len()
    }

    /// Inserts a pair; an existing key keeps its place and takes the new
    /// value, so of two entries with one key the later one wins.
    pub fn insert(&mut self, k: String, v: V)
        requires
            old(self).wf(),
        ensures
            final(self).model() == spec_insert(old(self).model(), k@, v),
            final(self).wf(),
    {
        let ghost om = old(self).model();
        let mut i: usize = 0;
        while i < self.entries.len()
            invariant
                0 <= i <= self.entries@.len(),
                om == old(self).model(),
                self.model() == om,
                distinct_keys(om),
                om.len() == self.entries@.len(),
                forall|j: int| 0 <= j < om.len()
                    ==> om[j] == (self.entries@[j].0@, self.entries@[j].1),
                forall|j: int| 0 <= j < i ==> om[j].0 != k@,
            decreases self.entries@.len() - i,
        {
            if self.entries[i].0 == k {
                proof {
                    assert(om[i as int].0 == k@);
                    assert(exists|n: int| 0 <= n < om.len() && om[n].0 == k@);
                    let n = choose|n: int| 0 <= n < om.len() && om[n].0 == k@;
                    assert(om[n].0 == om[i as int].0);
                    assert(n == i);
                }
                self.entries.set(i, (k, v));
                proof {
                    assert(self.model() =~= om.update(i as int, (k@, v)));
                    let n = choose|n: int| 0 <= n < om.len() && om[n].0 == k@;
                    assert(n == i);
                    assert(spec_insert(om, k@, v) == om.update(i as int, (k@, v)));
                }
                return ;
            }
            i = i + 1;
        }
        self.entries.push((k, v));
        proof {
            assert(forall|n: int| 0 <= n < om.len() ==> om[n].0 != k@);
            assert(self.model() =~= om.push((k@, v)));
        }
    }

    /// The value under a key, if any.
    pub fn get<'a>(&'a self, k: &String) -> (r: Option<&'a V>)
        requires
            self.wf(),
        ensures
            match r {
                Some(v) => exists|i: int|
                    0 <= i < self.model().len() && self.model()[i] == (k@, *v),
                None => forall|i: int|
                    0 <= i < self.model().len() ==> self.model()[i].0 != k@,
            },
    {
        let mut i: usize = 0;
        while i < self.entries.len()
            invariant
                0 <= i <= self.entries@.len(),
                self.model().len() == self.entries@.len(),
                forall|j: int| 0 <= j < self.model().len()
                    ==> self.model()[j] == (self.entries@[j].0@, self.entries@[j].1),
                forall|j: int| 0 <= j < i ==> self.model()[j].0 != k@,
            decreases self.entries@.len() - i,
        {
            if self.entries[i].0 == *k {
                proof {
                    assert(self.model()[i as int] == (k@, self.entries@[i as int].1));
                }
                return Some(&self.entries[i].1);
            }
            i = i + 1;
        }
        None
    }

    /// Hands the entries out, in order.
    pub fn into_entries(self) -> (r: Vec<(String, V)>)
        ensures
            r@.len() == self.model().len(),
            forall|i: int| 0 <= i < r@.len()
                ==> (#[trigger] r@[i].0@, r@[i].1) == self.model()[i],
    {
        self.entries
    }

    /// A borrowed walk over the entries, in order.
    pub fn entries(&self) -> (r: &Vec<(String, V)>)
        ensures
            r@.len() == self.model().len(),
            forall|i: int| 0 <= i < r@.len()
                ==> (#[trigger] r@[i].0@, r@[i].1) == self.model()[i],
    {
        &self.entries
    }
}

} // verus!
