//! A set of copyable values that remembers insertion order.

use vstd::prelude::*;

use super::assoc::MapKey;

verus! {

/// The position of the first occurrence of `v` in `s`.
pub open spec fn first_index<V>(s: Seq<V>, v: V) -> Option<int>
    decreases s.len(),
{
    if s.len() == 0 {
        None
    } else if s[0] == v {
        Some(0)
    } else {
        match first_index(s.drop_first(), v) {
            Some(i) => Some(i + 1),
            None => None,
        }
    }
}

/// Removes `v` from `s`, moving the last value into its slot.
pub open spec fn set_remove<V>(s: Seq<V>, v: V) -> Seq<V> {
    match first_index(s, v) {
        Some(i) => s.update(i, s.last()).drop_last(),
        None => s,
    }
}

/// Adds `v` at the end of `s` unless it is already there.
pub open spec fn set_add<V>(s: Seq<V>, v: V) -> Seq<V> {
    if s.contains(v) {
        s
    } else {
        s.push(v)
    }
}

pub proof fn lemma_first_index<V>(s: Seq<V>, v: V)
    ensures
        first_index(s, v) matches Some(i) ==> 0 <= i < s.len() && s[i] == v && forall|j: int|
            0 <= j < i ==> s[j] != v,
        first_index(s, v) is None ==> !s.contains(v),
    decreases s.len(),
{
    if s.len() > 0 && s[0] != v {
        lemma_first_index(s.drop_first(), v);
        assert forall|j: int| 1 <= j < s.len() implies s[j] == s.drop_first()[j - 1] by {}
        if first_index(s, v) is None {
            assert forall|j: int| 0 <= j < s.len() implies s[j] != v by {
                if j > 0 {
                    assert(s[j] == s.drop_first()[j - 1]);
                }
            }
        }
    }
}

/// After adding a value, the set has it, and every value it had before.
pub proof fn lemma_set_add_has<V>(s: Seq<V>, v: V, other: V)
    ensures
        set_add(s, v).contains(v),
        s.contains(other) ==> set_add(s, v).contains(other),
{
    if !s.contains(v) {
        assert(s.push(v)[s.len() as int] == v);
        if s.contains(other) {
            let j = choose|j: int| 0 <= j < s.len() && s[j] == other;
            assert(s.push(v)[j] == other);
        }
    }
}

/// After removing a value, the set no longer has it, and has every other
/// value it had before. (No value occurs twice in a set.)
pub proof fn lemma_set_remove_has<V>(s: Seq<V>, v: V, other: V)
    requires
        forall|i: int, j: int| 0 <= i < j < s.len() ==> s[i] != s[j],
    ensures
        !set_remove(s, v).contains(v),
        other != v ==> (set_remove(s, v).contains(other) == s.contains(other)),
{
    lemma_first_index(s, v);
    match first_index(s, v) {
        Some(i) => {
            let last = s.len() - 1;
            let r = set_remove(s, v);
            assert forall|a: int| 0 <= a < r.len() implies r[a] == s[if a == i { last } else { a }] by {}
            assert forall|a: int| 0 <= a < r.len() implies r[a] != v by {}
            if other != v && s.contains(other) {
                let j = choose|j: int| 0 <= j < s.len() && s[j] == other;
                let jj = if j == last { i } else { j };
                assert(r[jj] == other);
            }
        },
        None => {},
    }
}

/// A set of copyable values, kept in insertion order; deleting a value moves
/// the last value into its slot.
#[derive(Clone, Debug, PartialEq, Eq, Hash)]
pub struct WystSet<V> {
    items: Vec<V>,
}

impl<V: MapKey> View for WystSet<V> {
    type V = Seq<V>;

    closed spec fn view(&self) -> Seq<V> {
        self.items@
    }
}

impl<V: MapKey> WystSet<V> {
    pub fn empty() -> (set: Self)
        ensures
            set@ == Seq::<V>::empty(),
    {
        WystSet { items: Vec::new() }
    }

    pub fn len(&self) -> (len: usize)
        ensures
            len == self@.len(),
    {
        self.items.len()
    }

    /// The `i`-th value in insertion order.
    pub fn at(&self, i: usize) -> (value: V)
        requires
            i < self@.len(),
        ensures
            value == self@[i as int],
    {
        self.items[i]
    }

    /// The values in insertion order.
    pub fn iter(&self) -> (values: Vec<V>)
        ensures
            values@ == self@,
    {
        let mut values: Vec<V> = Vec::new();
        let mut i: usize = 0;
        while i < self.items.len()
            invariant
                i <= self.items@.len(),
                values@ == self.items@.subrange(0, i as int),
            decreases self.items@.len() - i,
        {
            values.push(self.items[i]);
            i = i + 1;
        }
        assert(self.items@.subrange(0, i as int) =~= self.items@);
        values
    }

    fn position(&self, value: V) -> (index: Option<usize>)
        ensures
            index matches Some(i) ==> first_index(self@, value) == Some(i as int) && i < self@.len(),
            index is None ==> first_index(self@, value) is None,
    {
        let mut i: usize = 0;
        while i < self.items.len()
            invariant
                i <= self.items@.len(),
                forall|j: int| 0 <= j < i ==> self.items@[j] != value,
            decreases self.items@.len() - i,
        {
            if self.items[i].same(&value) {
                proof {
                    lemma_first_index(self@, value);
                }
                return Some(i);
            }
            i = i + 1;
        }
        proof {
            lemma_first_index(self@, value);
        }
        None
    }

    /// Adds `value`; a value already present keeps its position.
    pub fn add(&mut self, value: V)
        ensures
            final(self)@ == set_add(old(self)@, value),
    {
        proof {
            lemma_first_index(self@, value);
        }
        if self.position(value).is_none() {
            self.items.push(value);
        }
    }

    /// Removes `value`, if present.
    pub fn delete(&mut self, value: V)
        ensures
            final(self)@ == set_remove(old(self)@, value),
    {
        if let Some(i) = self.position(value) {
            self.items.swap_remove(i);
        }
    }

    pub fn has(&self, value: V) -> (present: bool)
        ensures
            present == self@.contains(value),
    {
        proof {
            lemma_first_index(self@, value);
        }
        self.position(value).is_some()
    }
}

} // verus!
