//! The ordered association list that backs the maps of this module: entries
//! keep their insertion order, a new key is appended at the end, and removing
//! an entry moves the last entry into its slot.

use vstd::prelude::*;

verus! {

/// A key that can be compared in executable code with the same meaning as `==`
/// in specifications.
pub trait MapKey: Copy {
    fn same(&self, other: &Self) -> (same: bool)
        ensures
            same == (*self == *other),
    ;
}

impl MapKey for usize {
    fn same(&self, other: &Self) -> (same: bool) {
        *self == *other
    }
}

impl MapKey for u64 {
    fn same(&self, other: &Self) -> (same: bool) {
        *self == *other
    }
}

impl MapKey for u128 {
    fn same(&self, other: &Self) -> (same: bool) {
        *self == *other
    }
}

/// The position of the first entry of `s` whose key is `k`.
pub open spec fn key_index<K, V>(s: Seq<(K, V)>, k: K) -> Option<int>
    decreases s.len(),
{
    if s.len() == 0 {
        None
    } else if s[0].0 == k {
        Some(0)
    } else {
        match key_index(s.drop_first(), k) {
            Some(i) => Some(i + 1),
            None => None,
        }
    }
}

/// No two entries of `s` share a key.
pub open spec fn keys_distinct<K, V>(s: Seq<(K, V)>) -> bool {
    forall|i: int, j: int| 0 <= i < j < s.len() ==> s[i].0 != s[j].0
}

/// The keys of `s`, in order.
pub open spec fn keys_of<K, V>(s: Seq<(K, V)>) -> Seq<K> {
    s.map_values(|e: (K, V)| e.0)
}

/// The value stored under `k`, if any.
pub open spec fn lookup<K, V>(s: Seq<(K, V)>, k: K) -> Option<V> {
    match key_index(s, k) {
        Some(i) => Some(s[i].1),
        None => None,
    }
}

/// Stores `v` under `k`: in place when `k` is present, at the end otherwise.
pub open spec fn insert_entry<K, V>(s: Seq<(K, V)>, k: K, v: V) -> Seq<(K, V)> {
    match key_index(s, k) {
        Some(i) => s.update(i, (k, v)),
        None => s.push((k, v)),
    }
}

/// Removes the entry of `k`, moving the last entry into its slot.
pub open spec fn remove_entry<K, V>(s: Seq<(K, V)>, k: K) -> Seq<(K, V)> {
    match key_index(s, k) {
        Some(i) => s.update(i, s.last()).drop_last(),
        None => s,
    }
}

pub proof fn lemma_key_index<K, V>(s: Seq<(K, V)>, k: K)
    ensures
        key_index(s, k) matches Some(i) ==> 0 <= i < s.len() && s[i].0 == k && forall|j: int|
            0 <= j < i ==> s[j].0 != k,
        key_index(s, k) is None ==> forall|j: int| 0 <= j < s.len() ==> s[j].0 != k,
    decreases s.len(),
{
    if s.len() > 0 && s[0].0 != k {
        lemma_key_index(s.drop_first(), k);
        assert forall|j: int| 1 <= j < s.len() implies s[j] == s.drop_first()[j - 1] by {}
        if key_index(s, k) is None {
            assert forall|j: int| 0 <= j < s.len() implies s[j].0 != k by {
                if j > 0 {
                    assert(s[j] == s.drop_first()[j - 1]);
                }
            }
        }
    }
}

/// `key_index` is characterized by being the first match.
pub proof fn lemma_key_index_first<K, V>(s: Seq<(K, V)>, k: K, i: int)
    requires
        0 <= i < s.len(),
        s[i].0 == k,
        forall|j: int| 0 <= j < i ==> s[j].0 != k,
    ensures
        key_index(s, k) == Some(i),
{
    lemma_key_index(s, k);
}

/// Under distinct keys, an entry at position `i` is found by its key.
pub proof fn lemma_key_index_distinct<K, V>(s: Seq<(K, V)>, i: int)
    requires
        keys_distinct(s),
        0 <= i < s.len(),
    ensures
        key_index(s, s[i].0) == Some(i),
{
    lemma_key_index_first(s, s[i].0, i);
}

/// Searching the values' views finds the same position as searching the values.
pub proof fn lemma_key_index_map<K, V, W>(s: Seq<(K, V)>, f: spec_fn((K, V)) -> (K, W), k: K)
    requires
        forall|e: (K, V)| #[trigger] f(e).0 == e.0,
    ensures
        key_index(s.map_values(f), k) == key_index(s, k),
{
    lemma_key_index(s, k);
    lemma_key_index(s.map_values(f), k);
    let t = s.map_values(f);
    assert forall|j: int| 0 <= j < s.len() implies t[j].0 == s[j].0 by {
        assert(f(s[j]).0 == s[j].0);
    }
}

/// Insertion and removal keep keys distinct.
pub proof fn lemma_keys_distinct_preserved<K, V>(s: Seq<(K, V)>, k: K, v: V)
    requires
        keys_distinct(s),
    ensures
        keys_distinct(insert_entry(s, k, v)),
        keys_distinct(remove_entry(s, k)),
{
    lemma_key_index(s, k);
    let t = insert_entry(s, k, v);
    match key_index(s, k) {
        Some(i) => {
            assert forall|a: int, b: int| 0 <= a < b < t.len() implies t[a].0 != t[b].0 by {
                assert(s[a].0 != s[b].0);
            }
            let r = remove_entry(s, k);
            assert forall|a: int, b: int| 0 <= a < b < r.len() implies r[a].0 != r[b].0 by {
                let aa = if a == i { s.len() - 1 } else { a };
                let bb = if b == i { s.len() - 1 } else { b };
                assert(r[a] == s[aa]);
                assert(r[b] == s[bb]);
            }
        },
        None => {},
    }
}

/// Reading a key after storing a value under it gives that value; reading
/// another key gives what it gave before.
pub proof fn lemma_lookup_insert<K, V>(s: Seq<(K, V)>, k: K, v: V, other: K)
    ensures
        lookup(insert_entry(s, k, v), k) == Some(v),
        other != k ==> lookup(insert_entry(s, k, v), other) == lookup(s, other),
{
    lemma_key_index(s, k);
    lemma_key_index(s, other);
    let t = insert_entry(s, k, v);
    lemma_key_index(t, k);
    lemma_key_index(t, other);
    match key_index(s, k) {
        Some(i) => {
            lemma_key_index_first(t, k, i);
            if other != k {
                match key_index(s, other) {
                    Some(j) => lemma_key_index_first(t, other, j),
                    None => {},
                }
            }
        },
        None => {
            lemma_key_index_first(t, k, s.len() as int);
            if other != k {
                match key_index(s, other) {
                    Some(j) => lemma_key_index_first(t, other, j),
                    None => {},
                }
            }
        },
    }
}

/// Reading a key after removing it gives nothing; reading another key gives
/// what it gave before. (Keys are distinct in every map.)
pub proof fn lemma_lookup_remove<K, V>(s: Seq<(K, V)>, k: K, other: K)
    requires
        keys_distinct(s),
    ensures
        lookup(remove_entry(s, k), k) is None,
        other != k ==> lookup(remove_entry(s, k), other) == lookup(s, other),
{
    lemma_key_index(s, k);
    lemma_key_index(s, other);
    let r = remove_entry(s, k);
    lemma_key_index(r, k);
    lemma_key_index(r, other);
    match key_index(s, k) {
        Some(i) => {
            let last = s.len() - 1;
            assert forall|a: int| 0 <= a < r.len() implies r[a] == s[if a == i { last } else { a }] by {}
            assert forall|a: int| 0 <= a < r.len() implies r[a].0 != k by {
                if a == i {
                    assert(s[last].0 != s[i].0 || last == i);
                }
            }
            if other != k {
                match key_index(s, other) {
                    Some(j) => {
                        let jj = if j == last { i } else { j };
                        assert(r[jj] == s[j]);
                        assert forall|a: int| 0 <= a < r.len() && r[a].0 == other implies a == jj by {
                            let aa = if a == i { last } else { a };
                            assert(s[aa].0 == other);
                        }
                        lemma_key_index_first(r, other, jj);
                    },
                    None => {
                        assert forall|a: int| 0 <= a < r.len() implies r[a].0 != other by {
                            let aa = if a == i { last } else { a };
                            assert(r[a] == s[aa]);
                        }
                    },
                }
            }
        },
        None => {},
    }
}

/// The position of the first entry whose key is `k`.
pub fn find_key<K: MapKey, V>(entries: &Vec<(K, V)>, k: K) -> (index: Option<usize>)
    ensures
        index matches Some(i) ==> key_index(entries@, k) == Some(i as int) && i < entries@.len(),
        index is None ==> key_index(entries@, k) is None,
{
    let mut i: usize = 0;
    while i < entries.len()
        invariant
            i <= entries@.len(),
            forall|j: int| 0 <= j < i ==> entries@[j].0 != k,
        decreases entries@.len() - i,
    {
        if entries[i].0.same(&k) {
            proof {
                lemma_key_index_first(entries@, k, i as int);
            }
            return Some(i);
        }
        i = i + 1;
    }
    proof {
        lemma_key_index(entries@, k);
    }
    None
}

/// Stores `v` under `k` (see `insert_entry`).
pub fn insert_in<K: MapKey, V>(entries: &mut Vec<(K, V)>, k: K, v: V)
    ensures
        final(entries)@ == insert_entry(old(entries)@, k, v),
{
    match find_key(entries, k) {
        Some(i) => {
            entries.set(i, (k, v));
        },
        None => {
            entries.push((k, v));
        },
    }
}

/// Removes the entry of `k` (see `remove_entry`), returning its value.
pub fn remove_in<K: MapKey, V>(entries: &mut Vec<(K, V)>, k: K) -> (removed: Option<V>)
    ensures
        final(entries)@ == remove_entry(old(entries)@, k),
        removed == lookup(old(entries)@, k),
{
    match find_key(entries, k) {
        Some(i) => {
            let (_, v) = entries.swap_remove(i);
            Some(v)
        },
        None => None,
    }
}

} // verus!
