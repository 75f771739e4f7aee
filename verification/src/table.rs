//! An insertion-ordered table keyed by 64-bit identifiers, abstracted as a
//! finite map. It is the in-memory realisation of the entity-store contract:
//! point lookup, insert returning the previous record, remove, and indexed
//! access to the entries for scans.

use vstd::prelude::*;

verus! {

/// Whether every key occurs at most once in the entry sequence.
pub open spec fn unique_keys<V>(s: Seq<(u64, V)>) -> bool {
    forall|i: int, j: int|
        #![trigger s[i], s[j]]
        0 <= i < j < s.len() ==> s[i].0 != s[j].0
}

/// Whether some entry of `s` carries the key `k`.
pub open spec fn has_key<V>(s: Seq<(u64, V)>, k: u64) -> bool {
    exists|i: int| 0 <= i < s.len() && (#[trigger] s[i]).0 == k
}

/// An index of `s` whose entry carries the key `k` (unique when keys are).
pub open spec fn index_for<V>(s: Seq<(u64, V)>, k: u64) -> int {
    choose|i: int| 0 <= i < s.len() && (#[trigger] s[i]).0 == k
}

/// The entry sequence abstracted as a map from key to stored value.
pub open spec fn seq_to_map<V>(s: Seq<(u64, V)>) -> Map<u64, V> {
    Map::new(|k: u64| has_key(s, k), |k: u64| s[index_for(s, k)].1)
}

/// With unique keys, any entry `(k, v)` of `s` is what the map holds at `k`.
pub proof fn lemma_value_at<V>(s: Seq<(u64, V)>, i: int)
    requires
        unique_keys(s),
        0 <= i < s.len(),
    ensures
        seq_to_map(s).contains_key(s[i].0),
        seq_to_map(s)[s[i].0] == s[i].1,
{
    let k = s[i].0;
    assert(has_key(s, k));
    let j = index_for(s, k);
    assert(0 <= j < s.len() && s[j].0 == k);
    if i != j {
        assert(s[i].0 != s[j].0);
    }
}

proof fn lemma_push_fresh<V>(s: Seq<(u64, V)>, k: u64, v: V)
    requires
        unique_keys(s),
        !has_key(s, k),
    ensures
        unique_keys(s.push((k, v))),
        seq_to_map(s.push((k, v))) == seq_to_map(s).insert(k, v),
{
    let s2 = s.push((k, v));
    assert forall|i: int, j: int| 0 <= i < j < s2.len() implies (#[trigger] s2[i]).0
        != (#[trigger] s2[j]).0 by {
        if j < s.len() {
            assert(s2[i] == s[i] && s2[j] == s[j]);
        } else {
            assert(s2[j].0 == k && s2[i] == s[i]);
        }
    }
    let m1 = seq_to_map(s2);
    let m2 = seq_to_map(s).insert(k, v);
    assert forall|q: u64| m1.contains_key(q) implies m2.contains_key(q) && m1[q] == m2[q] by {
        let i = index_for(s2, q);
        assert(0 <= i < s2.len() && s2[i].0 == q);
        lemma_value_at(s2, i);
        if i < s.len() {
            assert(s2[i] == s[i]);
            lemma_value_at(s, i);
        } else {
            assert(q == k && s2[i].1 == v);
        }
    }
    assert forall|q: u64| m2.contains_key(q) implies m1.contains_key(q) by {
        if q == k {
            assert(s2[s.len() as int].0 == k);
        } else {
            let i = index_for(s, q);
            assert(0 <= i < s.len() && s[i].0 == q);
            assert(s2[i].0 == q);
        }
    }
    assert(m1 =~= m2);
}

proof fn lemma_remove_entry<V>(s: Seq<(u64, V)>, i: int)
    requires
        unique_keys(s),
        0 <= i < s.len(),
    ensures
        unique_keys(s.remove(i)),
        !has_key(s.remove(i), s[i].0),
        seq_to_map(s.remove(i)) == seq_to_map(s).remove(s[i].0),
{
    let k = s[i].0;
    let s2 = s.remove(i);
    assert forall|p: int, q: int| 0 <= p < q < s2.len() implies (#[trigger] s2[p]).0
        != (#[trigger] s2[q]).0 by {
        let p0: int = if p < i { p } else { p + 1 };
        let q0: int = if q < i { q } else { q + 1 };
        assert(s2[p] == s[p0] && s2[q] == s[q0]);
    }
    assert forall|j: int| 0 <= j < s2.len() implies (#[trigger] s2[j]).0 != k by {
        let j0: int = if j < i { j } else { j + 1 };
        assert(s2[j] == s[j0]);
        assert(s[j0].0 != s[i].0);
    }
    let m1 = seq_to_map(s2);
    let m2 = seq_to_map(s).remove(k);
    assert forall|q: u64| m1.contains_key(q) implies m2.contains_key(q) && m1[q] == m2[q] by {
        let j = index_for(s2, q);
        assert(0 <= j < s2.len() && s2[j].0 == q);
        lemma_value_at(s2, j);
        let j0: int = if j < i { j } else { j + 1 };
        assert(s2[j] == s[j0]);
        lemma_value_at(s, j0);
    }
    assert forall|q: u64| m2.contains_key(q) implies m1.contains_key(q) by {
        let j = index_for(s, q);
        assert(0 <= j < s.len() && s[j].0 == q && j != i);
        let j2: int = if j < i { j } else { j - 1 };
        assert(s2[j2] == s[j]);
    }
    assert(m1 =~= m2);
}

/// An insertion-ordered key-value table with unique 64-bit keys.
pub struct Table<V> {
    entries: Vec<(u64, V)>,
}

impl<V> View for Table<V> {
    type V = Map<u64, V>;

    open spec fn view(&self) -> Map<u64, V> {
        seq_to_map(self.entries_seq())
    }
}

impl<V> Table<V> {
    /// The entries in insertion order, oldest first.
    pub closed spec fn entries_seq(&self) -> Seq<(u64, V)> {
        self.entries@
    }

    /// Every key occurs at most once; established by `new` and preserved by
    /// every mutation.
    pub closed spec fn wf(&self) -> bool {
        unique_keys(self.entries@)
    }

    /// Each entry of the sequence is what the map view holds at its key, and
    /// each key of the map view is carried by some entry.
    pub proof fn lemma_entries_view(&self)
        requires
            self.wf(),
        ensures
            forall|i: int|
                0 <= i < self.entries_seq().len() ==> self@.contains_key(
                    (#[trigger] self.entries_seq()[i]).0,
                ) && self@[self.entries_seq()[i].0] == self.entries_seq()[i].1,
            forall|k: u64|
                #[trigger] self@.contains_key(k) ==> exists|i: int|
                    0 <= i < self.entries_seq().len() && #[trigger] self.entries_seq()[i] == (
                    k,
                    self@[k],
                    ),
    {
        let s = self.entries_seq();
        assert forall|i: int| 0 <= i < s.len() implies self@.contains_key((#[trigger] s[i]).0)
            && self@[s[i].0] == s[i].1 by {
            lemma_value_at(s, i);
        }
        assert forall|k: u64| #[trigger] self@.contains_key(k) implies exists|i: int|
            0 <= i < s.len() && #[trigger] s[i] == (k, self@[k]) by {
            let i = index_for(s, k);
            assert(0 <= i < s.len() && s[i].0 == k);
            lemma_value_at(s, i);
            assert(s[i] == (k, self@[k]));
        }
    }

    /// An empty table.
    pub fn new() -> (t: Self)
        ensures
            t.wf(),
            t@ == Map::<u64, V>::empty(),
            t.entries_seq() == Seq::<(u64, V)>::empty(),
    {
        let t = Table { entries: Vec::new() };
        proof {
            assert(t@ =~= Map::<u64, V>::empty());
        }
        t
    }

    /// The number of entries.
    pub fn len(&self) -> (n: usize)
        ensures
            n == self.entries_seq().len(),
    {
        self.entries.len()
    }

    /// The entry at position `i` in insertion order.
    pub fn entry_at(&self, i: usize) -> (r: (u64, &V))
        requires
            i < self.entries_seq().len(),
        ensures
            (r.0, *r.1) == self.entries_seq()[i as int],
    {
        let e = &self.entries[i];
        (e.0, &e.1)
    }

    fn find(&self, id: u64) -> (r: Option<usize>)
        ensures
            match r {
                Some(i) => i < self.entries_seq().len() && self.entries_seq()[i as int].0 == id,
                None => !has_key(self.entries_seq(), id),
            },
    {
        let n = self.entries.len();
        for i in 0..n
            invariant
                n == self.entries@.len(),
                forall|j: int| 0 <= j < i ==> (#[trigger] self.entries@[j]).0 != id,
        {
            if self.entries[i].0 == id {
                return Some(i);
            }
        }
        None
    }

    /// Whether a record is stored under `id`.
    pub fn contains(&self, id: u64) -> (r: bool)
        ensures
            r == self@.contains_key(id),
    {
        self.find(id).is_some()
    }

    /// Point lookup; absence is not an error at this layer.
    pub fn get(&self, id: u64) -> (r: Option<&V>)
        requires
            self.wf(),
        ensures
            match r {
                Some(v) => self@.contains_key(id) && *v == self@[id],
                None => !self@.contains_key(id),
            },
    {
        match self.find(id) {
            Some(i) => {
                proof {
                    lemma_value_at(self.entries@, i as int);
                }
                Some(&self.entries[i].1)
            },
            None => None,
        }
    }

    /// Stores `value` under `id` and hands back the record previously stored
    /// there, if any, so a caller can tell an update from a creation.
    pub fn insert(&mut self, id: u64, value: V) -> (prev: Option<V>)
        requires
            old(self).wf(),
        ensures
            final(self).wf(),
            final(self)@ == old(self)@.insert(id, value),
            match prev {
                Some(p) => old(self)@.contains_key(id) && p == old(self)@[id],
                None => !old(self)@.contains_key(id),
            },
    {
        let ghost s0 = self.entries@;
        match self.find(id) {
            Some(i) => {
                proof {
                    lemma_value_at(s0, i as int);
                    lemma_remove_entry(s0, i as int);
                    lemma_push_fresh(s0.remove(i as int), id, value);
                    assert(seq_to_map(s0).remove(id).insert(id, value) =~= seq_to_map(s0).insert(
                        id,
                        value,
                    ));
                }
                let old_entry = self.entries.remove(i);
                self.entries.push((id, value));
                Some(old_entry.1)
            },
            None => {
                proof {
                    lemma_push_fresh(s0, id, value);
                }
                self.entries.push((id, value));
                None
            },
        }
    }

    /// Removes the record stored under `id`, handing it back if it existed.
    pub fn remove(&mut self, id: u64) -> (prev: Option<V>)
        requires
            old(self).wf(),
        ensures
            final(self).wf(),
            final(self)@ == old(self)@.remove(id),
            match prev {
                Some(p) => old(self)@.contains_key(id) && p == old(self)@[id],
                None => !old(self)@.contains_key(id),
            },
    {
        let ghost s0 = self.entries@;
        match self.find(id) {
            Some(i) => {
                proof {
                    lemma_value_at(s0, i as int);
                    lemma_remove_entry(s0, i as int);
                }
                let old_entry = self.entries.remove(i);
                Some(old_entry.1)
            },
            None => {
                proof {
                    assert(self@ =~= self@.remove(id));
                }
                None
            },
        }
    }
}

} // verus!
