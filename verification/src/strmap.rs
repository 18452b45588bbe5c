//! An insertion-ordered map keyed by strings.

use vstd::prelude::*;
use crate::text::same_text;

verus! {

/// No two entries of `s` have keys with the same characters.
pub open spec fn keys_distinct<V>(s: Seq<(String, V)>) -> bool {
    forall|i: int, j: int| 0 <= i < j < s.len() ==> s[i].0@ != s[j].0@
}

/// Some entry of `s` has key `k`.
pub open spec fn has_key<V>(s: Seq<(String, V)>, k: Seq<char>) -> bool {
    exists|i: int| 0 <= i < s.len() && s[i].0@ == k
}

/// The position of an entry with key `k` (meaningful when `has_key(s, k)`).
pub open spec fn key_index<V>(s: Seq<(String, V)>, k: Seq<char>) -> int {
    choose|i: int| 0 <= i < s.len() && s[i].0@ == k
}

/// The value stored under `k`, if any.
pub open spec fn lookup<V>(s: Seq<(String, V)>, k: Seq<char>) -> Option<V> {
    if has_key(s, k) {
        Some(s[key_index(s, k)].1)
    } else {
        None
    }
}

/// The entries after storing `v` under `k`: an entry with that key is replaced in place,
/// otherwise the pair is appended.
pub open spec fn insert_entry<V>(s: Seq<(String, V)>, k: String, v: V) -> Seq<(String, V)> {
    if has_key(s, k@) {
        s.update(key_index(s, k@), (k, v))
    } else {
        s.push((k, v))
    }
}

/// The entries after removing the entry with key `k`, if there is one.
pub open spec fn remove_entry<V>(s: Seq<(String, V)>, k: Seq<char>) -> Seq<(String, V)> {
    if has_key(s, k) {
        s.remove(key_index(s, k))
    } else {
        s
    }
}

/// The entries after inserting each pair of `pairs`, in order, into `s`.
pub open spec fn insert_all<V>(s: Seq<(String, V)>, pairs: Seq<(String, V)>) -> Seq<(String, V)>
    decreases pairs.len(),
{
    if pairs.len() == 0 {
        s
    } else {
        insert_entry(insert_all(s, pairs.drop_last()), pairs.last().0, pairs.last().1)
    }
}

/// With distinct keys, the entry found for a key is the one at any position holding it.
pub proof fn lemma_key_index_unique<V>(s: Seq<(String, V)>, i: int)
    requires
        keys_distinct(s),
        0 <= i < s.len(),
    ensures
        has_key(s, s[i].0@),
        key_index(s, s[i].0@) == i,
        lookup(s, s[i].0@) == Some(s[i].1),
{
    assert(has_key(s, s[i].0@));
}

/// Inserting keeps keys distinct.
pub proof fn lemma_insert_distinct<V>(s: Seq<(String, V)>, k: String, v: V)
    requires
        keys_distinct(s),
    ensures
        keys_distinct(insert_entry(s, k, v)),
{
    if has_key(s, k@) {
        let idx = key_index(s, k@);
        assert forall|i: int, j: int| 0 <= i < j < insert_entry(s, k, v).len() implies
            insert_entry(s, k, v)[i].0@ != insert_entry(s, k, v)[j].0@ by {
            assert(s[idx].0@ == k@);
        }
    }
}

/// Removing keeps keys distinct.
pub proof fn lemma_remove_distinct<V>(s: Seq<(String, V)>, k: Seq<char>)
    requires
        keys_distinct(s),
    ensures
        keys_distinct(remove_entry(s, k)),
{
    if has_key(s, k) {
        let idx = key_index(s, k);
        let r = s.remove(idx);
        assert forall|i: int, j: int| 0 <= i < j < r.len() implies r[i].0@ != r[j].0@ by {
            let i0 = if i < idx { i } else { i + 1 };
            let j0 = if j < idx { j } else { j + 1 };
            assert(r[i] == s[i0]);
            assert(r[j] == s[j0]);
        }
    }
}

/// Reading a key after storing a value under it gives that value; every other key reads as
/// before.
pub proof fn law_lookup_after_insert<V>(s: Seq<(String, V)>, k: String, v: V, q: Seq<char>)
    requires
        keys_distinct(s),
    ensures
        lookup(insert_entry(s, k, v), q) == if q == k@ {
            Some(v)
        } else {
            lookup(s, q)
        },
{
    lemma_insert_distinct(s, k, v);
    let t = insert_entry(s, k, v);
    if has_key(s, k@) {
        let idx = key_index(s, k@);
        lemma_key_index_unique(t, idx);
        if q != k@ {
            if has_key(s, q) {
                let j = key_index(s, q);
                assert(t[j] == s[j]);
                lemma_key_index_unique(t, j);
                lemma_key_index_unique(s, j);
            } else {
                assert forall|i: int| 0 <= i < t.len() implies t[i].0@ != q by {
                    if i != idx {
                        assert(t[i] == s[i]);
                    }
                }
            }
        }
    } else {
        let last = t.len() - 1;
        lemma_key_index_unique(t, last);
        if q != k@ {
            if has_key(s, q) {
                let j = key_index(s, q);
                assert(t[j] == s[j]);
                lemma_key_index_unique(t, j);
                lemma_key_index_unique(s, j);
            } else {
                assert forall|i: int| 0 <= i < t.len() implies t[i].0@ != q by {
                    if i != last {
                        assert(t[i] == s[i]);
                    }
                }
            }
        }
    }
}

/// After removing a key it reads as absent; every other key reads as before.
pub proof fn law_lookup_after_remove<V>(s: Seq<(String, V)>, k: Seq<char>, q: Seq<char>)
    requires
        keys_distinct(s),
    ensures
        lookup(remove_entry(s, k), q) == if q == k {
            None
        } else {
            lookup(s, q)
        },
{
    lemma_remove_distinct(s, k);
    let t = remove_entry(s, k);
    if has_key(s, k) {
        let idx = key_index(s, k);
        if q == k {
            assert forall|i: int| 0 <= i < t.len() implies t[i].0@ != q by {
                let i0 = if i < idx { i } else { i + 1 };
                assert(t[i] == s[i0]);
            }
        } else if has_key(s, q) {
            let j = key_index(s, q);
            lemma_key_index_unique(s, j);
            assert(j != idx);
            let j2 = if j < idx { j } else { j - 1 };
            assert(t[j2] == s[j]);
            lemma_key_index_unique(t, j2);
        } else {
            assert forall|i: int| 0 <= i < t.len() implies t[i].0@ != q by {
                let i0 = if i < idx { i } else { i + 1 };
                assert(t[i] == s[i0]);
            }
        }
    }
}

/// Inserting keeps keys distinct, pair after pair.
pub proof fn lemma_insert_all_distinct<V>(s: Seq<(String, V)>, pairs: Seq<(String, V)>)
    requires
        keys_distinct(s),
    ensures
        keys_distinct(insert_all(s, pairs)),
    decreases pairs.len(),
{
    if pairs.len() > 0 {
        lemma_insert_all_distinct(s, pairs.drop_last());
        lemma_insert_distinct(insert_all(s, pairs.drop_last()), pairs.last().0, pairs.last().1);
    }
}

/// After inserting a list of pairs, a key the list holds reads as the list's last value for
/// it; every other key reads as before.
pub proof fn law_lookup_after_insert_all<V>(s: Seq<(String, V)>, pairs: Seq<(String, V)>, q: Seq<char>)
    requires
        keys_distinct(s),
        keys_distinct(pairs),
    ensures
        lookup(insert_all(s, pairs), q) == if has_key(pairs, q) {
            lookup(pairs, q)
        } else {
            lookup(s, q)
        },
    decreases pairs.len(),
{
    if pairs.len() > 0 {
        let init = pairs.drop_last();
        let last = pairs.last();
        assert(keys_distinct(init));
        lemma_insert_all_distinct(s, init);
        law_lookup_after_insert(insert_all(s, init), last.0, last.1, q);
        law_lookup_after_insert_all(s, init, q);
        let n = pairs.len() - 1;
        lemma_key_index_unique(pairs, n);
        if q != last.0@ {
            if has_key(init, q) {
                let j = key_index(init, q);
                lemma_key_index_unique(init, j);
                assert(pairs[j] == init[j]);
                lemma_key_index_unique(pairs, j);
            } else {
                assert forall|i: int| 0 <= i < pairs.len() implies pairs[i].0@ != q by {
                    if i < n {
                        assert(pairs[i] == init[i]);
                    }
                }
            }
        }
    }
}

/// A map from strings to values that keeps its entries in insertion order and holds at most
/// one entry per key.
#[derive(Debug)]
pub struct StringMap<V> {
    entries: Vec<(String, V)>,
}

impl<V> View for StringMap<V> {
    type V = Seq<(String, V)>;

    closed spec fn view(&self) -> Seq<(String, V)> {
        self.entries@
    }
}

impl<V> StringMap<V> {
    #[verifier::type_invariant]
    spec fn well_formed(self) -> bool {
        keys_distinct(self.entries@)
    }

    /// An empty map.
    pub fn new() -> (m: Self)
        ensures
            m@ == Seq::<(String, V)>::empty(),
    {
        StringMap { entries: Vec::new() }
    }

    /// A map holding `pairs` inserted in order; a later pair replaces an earlier pair with the
    /// same key.
    pub fn from_pairs(pairs: Vec<(String, V)>) -> (m: Self)
        ensures
            m@ == insert_all(Seq::<(String, V)>::empty(), pairs@),
            keys_distinct(m@),
    {
        let ghost all = pairs@;
        let mut m = StringMap::new();
        let mut rest = pairs;
        let total = rest.len();
        let mut n: usize = 0;
        while rest.len() > 0
            invariant
                total == all.len(),
                n + rest@.len() == all.len(),
                rest@ == all.skip(n as int),
                m@ == insert_all(Seq::<(String, V)>::empty(), all.take(n as int)),
            decreases rest@.len(),
        {
            let (k, v) = rest.remove(0);
            assert(rest@ =~= all.skip(n + 1));
            proof {
                assert(all.take(n + 1).drop_last() =~= all.take(n as int));
            }
            m.insert(k, v);
            n = n + 1;
        }
        assert(all.take(n as int) =~= all);
        proof {
            use_type_invariant(&m);
        }
        m
    }

    fn position(&self, key: &str) -> (r: Option<usize>)
        ensures
            match r {
                Some(i) => i < self@.len() && self@[i as int].0@ == key@,
                None => !has_key(self@, key@),
            },
    {
        let mut i: usize = 0;
        while i < self.entries.len()
            invariant
                i <= self.entries@.len(),
                forall|j: int| 0 <= j < i ==> self.entries@[j].0@ != key@,
            decreases self.entries@.len() - i,
        {
            if same_text(self.entries[i].0.as_str(), key) {
                return Some(i);
            }
            i = i + 1;
        }
        None
    }

    /// Stores `value` under `key`, replacing an entry with the same key in place.
    pub fn insert(&mut self, key: String, value: V)
        ensures
            final(self)@ == insert_entry(old(self)@, key, value),
            keys_distinct(final(self)@),
    {
        proof {
            use_type_invariant(&*self);
            lemma_insert_distinct(self@, key, value);
        }
        match self.position(key.as_str()) {
            Some(i) => {
                proof {
                    lemma_key_index_unique(self@, i as int);
                }
                let mut entries = Vec::new();
                std::mem::swap(&mut entries, &mut self.entries);
                entries.set(i, (key, value));
                self.entries = entries;
            },
            None => {
                let mut entries = Vec::new();
                std::mem::swap(&mut entries, &mut self.entries);
                entries.push((key, value));
                self.entries = entries;
            },
        }
    }

    /// The value stored under `key`, if any.
    pub fn get(&self, key: &str) -> (r: Option<&V>)
        ensures
            match r {
                Some(v) => lookup(self@, key@) == Some(*v),
                None => lookup(self@, key@) is None,
            },
    {
        proof {
            use_type_invariant(self);
        }
        match self.position(key) {
            Some(i) => {
                proof {
                    lemma_key_index_unique(self@, i as int);
                }
                Some(&self.entries[i].1)
            },
            None => None,
        }
    }

    /// Whether an entry has key `key`.
    pub fn contains_key(&self, key: &str) -> (r: bool)
        ensures
            r == has_key(self@, key@),
    {
        self.position(key).is_some()
    }

    /// Removes the entry with key `key`, if any.
    pub fn remove(&mut self, key: &str)
        ensures
            final(self)@ == remove_entry(old(self)@, key@),
            keys_distinct(final(self)@),
    {
        proof {
            use_type_invariant(&*self);
            lemma_remove_distinct(self@, key@);
        }
        match self.position(key) {
            Some(i) => {
                proof {
                    lemma_key_index_unique(self@, i as int);
                }
                let mut entries = Vec::new();
                std::mem::swap(&mut entries, &mut self.entries);
                entries.remove(i);
                self.entries = entries;
            },
            None => {},
        }
    }

    /// Number of entries.
    pub fn len(&self) -> (n: usize)
        ensures
            n == self@.len(),
    {
        self.entries.len()
    }

    /// Whether the map has no entry.
    pub fn is_empty(&self) -> (b: bool)
        ensures
            b == (self@.len() == 0),
    {
        self.entries.len() == 0
    }

    /// The entries, in insertion order.
    pub fn entries(&self) -> (r: &[(String, V)])
        ensures
            r@ == self@,
            keys_distinct(r@),
    {
        proof {
            use_type_invariant(self);
        }
        self.entries.as_slice()
    }

    /// The entries, in insertion order, by value.
    pub fn into_entries(self) -> (r: Vec<(String, V)>)
        ensures
            r@ == self@,
            keys_distinct(r@),
    {
        proof {
            use_type_invariant(&self);
        }
        self.entries
    }
}

impl<V: Clone> Clone for StringMap<V> {
    /// A copy with the same keys in the same order; each value is cloned.
    fn clone(&self) -> (r: Self)
        ensures
            r@.len() == self@.len(),
            forall|i: int|
                0 <= i < self@.len() ==> (#[trigger] r@[i]).0 == self@[i].0 && cloned::<V>(
                    self@[i].1,
                    r@[i].1,
                ),
    {
        proof {
            use_type_invariant(self);
        }
        let mut entries: Vec<(String, V)> = Vec::new();
        let mut i: usize = 0;
        while i < self.entries.len()
            invariant
                i <= self.entries@.len(),
                keys_distinct(self.entries@),
                entries@.len() == i,
                forall|j: int|
                    0 <= j < i ==> (#[trigger] entries@[j]).0 == self.entries@[j].0 && cloned::<V>(
                        self.entries@[j].1,
                        entries@[j].1,
                    ),
            decreases self.entries@.len() - i,
        {
            let key = self.entries[i].0.clone();
            let value = self.entries[i].1.clone();
            entries.push((key, value));
            i = i + 1;
        }
        StringMap { entries }
    }
}

} // verus!
