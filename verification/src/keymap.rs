//! Insertion-ordered map from path-like string keys to resources.
//!
//! The registry never replaces or removes a single entry (replacement is an
//! explicit non-goal of the design), so a resource's position in the map is
//! stable for as long as the map lives and serves as its interned identity:
//! other resources refer to it by that index.

use vstd::prelude::*;

verus! {

/// An insertion-ordered association of unique string keys with values.
pub struct KeyMap<V> {
    entries: Vec<(String, V)>,
}

impl<V> View for KeyMap<V> {
    type V = Seq<(Seq<char>, V)>;

    closed spec fn view(&self) -> Seq<(Seq<char>, V)> {
        Seq::new(self.entries@.len(), |i: int| (self.entries@[i].0@, self.entries@[i].1))
    }
}

/// Whether some entry of `m` has key `k`.
pub open spec fn spec_contains_key<V>(m: Seq<(Seq<char>, V)>, k: Seq<char>) -> bool {
    exists|i: int| 0 <= i < m.len() && m[i].0 == k
}

/// The position of the entry with key `k` (meaningful when the key is
/// present and keys are unique).
pub open spec fn spec_index_of<V>(m: Seq<(Seq<char>, V)>, k: Seq<char>) -> int {
    choose|i: int| 0 <= i < m.len() && m[i].0 == k
}

/// The value stored under key `k` (meaningful when the key is present and
/// keys are unique).
pub open spec fn spec_value_of<V>(m: Seq<(Seq<char>, V)>, k: Seq<char>) -> V {
    m[spec_index_of(m, k)].1
}

/// Appending an entry under a different key leaves a present key's value
/// unchanged.
pub proof fn lemma_value_of_push<V>(m: Seq<(Seq<char>, V)>, k: Seq<char>, x: (Seq<char>, V))
    requires
        forall|i: int, j: int| 0 <= i < j < m.len() ==> m[i].0 != m[j].0,
        spec_contains_key(m, k),
        x.0 != k,
    ensures
        spec_contains_key(m.push(x), k),
        spec_value_of(m.push(x), k) == spec_value_of(m, k),
{
    let i1 = spec_index_of(m, k);
    lemma_index_of_in_range(m, k);
    assert(m.push(x)[i1] == m[i1]);
    assert(spec_contains_key(m.push(x), k));
    let i2 = spec_index_of(m.push(x), k);
    lemma_index_of_in_range(m.push(x), k);
    if i2 == m.len() {
        assert(m.push(x)[i2] == x);
    } else {
        assert(m.push(x)[i2] == m[i2]);
        assert(i1 == i2);
    }
}

/// When a key is present, its position is in range and holds that key.
pub proof fn lemma_index_of_in_range<V>(m: Seq<(Seq<char>, V)>, k: Seq<char>)
    requires
        spec_contains_key(m, k),
    ensures
        0 <= spec_index_of(m, k) < m.len(),
        m[spec_index_of(m, k)].0 == k,
{
    let i = choose|i: int| 0 <= i < m.len() && m[i].0 == k;
    assert(0 <= i < m.len() && m[i].0 == k);
}

impl<V> KeyMap<V> {
    /// All keys are pairwise distinct.
    pub open spec fn wf(&self) -> bool {
        forall|i: int, j: int|
            0 <= i < j < self@.len() ==> self@[i].0 != self@[j].0
    }

    /// An empty map.
    pub fn new() -> (r: KeyMap<V>)
        ensures
            r@ == Seq::<(Seq<char>, V)>::empty(),
            r.wf(),
    {
        let r = KeyMap { entries: Vec::new() };
        proof {
            assert(r@ =~= Seq::<(Seq<char>, V)>::empty());
        }
        r
    }

    /// Number of entries.
    pub fn len(&self) -> (r: usize)
        ensures
            r == self@.len(),
    {
        self.entries.len()
    }

    /// Remove every entry.
    pub fn clear(&mut self)
        ensures
            final(self)@ == Seq::<(Seq<char>, V)>::empty(),
            final(self).wf(),
    {
        self.entries.clear();
        proof {
            assert(self@ =~= Seq::<(Seq<char>, V)>::empty());
        }
    }

    /// The position of `key`, or `None` when no entry has it.
    pub fn index_of(&self, key: &String) -> (r: Option<usize>)
        ensures
            match r {
                Some(i) => i < self@.len() && self@[i as int].0 == key@
                    && (self.wf() ==> i == spec_index_of(self@, key@)),
                None => !spec_contains_key(self@, key@),
            },
    {
        let n = self.entries.len();
        let mut i: usize = 0;
        while i < n
            invariant
                n == self@.len(),
                i <= n,
                forall|j: int| 0 <= j < i ==> self@[j].0 != key@,
            decreases n - i,
        {
            if self.entries[i].0 == *key {
                return Some(i);
            }
            i = i + 1;
        }
        None
    }

    /// Whether an entry with `key` is present.
    pub fn contains_key(&self, key: &String) -> (r: bool)
        ensures
            r == spec_contains_key(self@, key@),
    {
        self.index_of(key).is_some()
    }

    /// The value stored under `key`, if any.
    pub fn get(&self, key: &String) -> (r: Option<&V>)
        ensures
            match r {
                Some(v) => spec_contains_key(self@, key@)
                    && (self.wf() ==> *v == spec_value_of(self@, key@)),
                None => !spec_contains_key(self@, key@),
            },
    {
        match self.index_of(key) {
            Some(i) => Some(&self.entries[i].1),
            None => None,
        }
    }

    /// The value at position `i`.
    pub fn value_at(&self, i: usize) -> (r: &V)
        requires
            i < self@.len(),
        ensures
            *r == self@[i as int].1,
    {
        &self.entries[i].1
    }

    /// The key at position `i`.
    pub fn key_at(&self, i: usize) -> (r: &String)
        requires
            i < self@.len(),
        ensures
            r@ == self@[i as int].0,
    {
        &self.entries[i].0
    }

    /// Append a new entry; the key must not be present yet.
    pub fn insert(&mut self, key: String, value: V)
        requires
            old(self).wf(),
            !spec_contains_key(old(self)@, key@),
        ensures
            final(self)@ == old(self)@.push((key@, value)),
            final(self).wf(),
    {
        let ghost prev = self@;
        self.entries.push((key, value));
        proof {
            assert(self@ =~= prev.push((key@, value)));
        }
    }
}

} // verus!
