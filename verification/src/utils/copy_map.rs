//! A map from copyable keys to copyable values that remembers insertion order.

use vstd::prelude::*;

use super::assoc::{find_key, insert_entry, insert_in, lookup, remove_entry, remove_in, MapKey};

verus! {

/// A map from copyable keys to copyable values. Entries keep their insertion
/// order; deleting an entry moves the last entry into its slot.
#[derive(Clone, Debug, PartialEq, Eq, Hash)]
pub struct WystCopyMap<K, V> {
    inner: Vec<(K, V)>,
}

impl<K: MapKey, V: Copy> View for WystCopyMap<K, V> {
    type V = Seq<(K, V)>;

    closed spec fn view(&self) -> Seq<(K, V)> {
        self.inner@
    }
}

impl<K: MapKey, V: Copy> WystCopyMap<K, V> {
    pub fn empty() -> (map: Self)
        ensures
            map@ == Seq::<(K, V)>::empty(),
    {
        WystCopyMap { inner: Vec::new() }
    }

    pub fn len(&self) -> (len: usize)
        ensures
            len == self@.len(),
    {
        self.inner.len()
    }

    /// The key of the `i`-th entry in insertion order.
    pub fn key_at(&self, i: usize) -> (key: K)
        requires
            i < self@.len(),
        ensures
            key == self@[i as int].0,
    {
        self.inner[i].0
    }

    /// The value of the `i`-th entry in insertion order.
    pub fn value_at(&self, i: usize) -> (value: V)
        requires
            i < self@.len(),
        ensures
            value == self@[i as int].1,
    {
        self.inner[i].1
    }

    /// The entries in insertion order.
    pub fn iter(&self) -> (entries: Vec<(K, V)>)
        ensures
            entries@ == self@,
    {
        let mut entries: Vec<(K, V)> = Vec::new();
        let mut i: usize = 0;
        while i < self.inner.len()
            invariant
                i <= self.inner@.len(),
                entries@ == self.inner@.subrange(0, i as int),
            decreases self.inner@.len() - i,
        {
            entries.push(self.inner[i]);
            i = i + 1;
        }
        assert(self.inner@.subrange(0, i as int) =~= self.inner@);
        entries
    }

    pub fn get(&self, key: K) -> (value: Option<V>)
        ensures
            value == lookup(self@, key),
    {
        match find_key(&self.inner, key) {
            Some(i) => Some(self.inner[i].1),
            None => None,
        }
    }

    /// A reference to the value stored under `key`, if any.
    pub fn get_entry(&self, key: K) -> (value: Option<&V>)
        ensures
            value matches Some(v) ==> lookup(self@, key) == Some(*v),
            value is None ==> lookup(self@, key) is None,
    {
        match find_key(&self.inner, key) {
            Some(i) => Some(&self.inner[i].1),
            None => None,
        }
    }

    /// The entry of `key`, for reading.
    pub fn entry(&self, key: K) -> (entry: CopyMapEntry<'_, K, V>)
        ensures
            match entry {
                CopyMapEntry::Occupied(o) => *o.map == *self && o.key == key && lookup(self@, key) is Some,
                CopyMapEntry::Vacant(v) => *v.map == *self && v.key == key && lookup(self@, key) is None,
            },
    {
        match self.get_entry(key) {
            Some(_) => CopyMapEntry::occupied(self, key),
            None => CopyMapEntry::vacant(self, key),
        }
    }

    /// The entry of `key`, for changing.
    pub fn entry_mut(&mut self, key: K) -> (entry: CopyMapEntryMut<'_, K, V>)
        ensures
            match entry {
                CopyMapEntryMut::Occupied(o) => *o.map == *old(self) && *final(o.map) == *final(self)
                    && o.key == key && lookup(old(self)@, key) is Some,
                CopyMapEntryMut::Vacant(v) => *v.map == *old(self) && *final(v.map) == *final(self)
                    && v.key == key && lookup(old(self)@, key) is None,
            },
    {
        match self.get_entry(key) {
            Some(_) => CopyMapEntryMut::occupied(self, key),
            None => CopyMapEntryMut::vacant(self, key),
        }
    }

    pub fn insert(&mut self, key: K, value: V)
        ensures
            final(self)@ == insert_entry(old(self)@, key, value),
    {
        insert_in(&mut self.inner, key, value);
    }

    /// Removes the entry of `key` and returns its value, if there was one.
    pub fn delete(&mut self, key: K) -> (removed: Option<V>)
        ensures
            final(self)@ == remove_entry(old(self)@, key),
            removed == lookup(old(self)@, key),
    {
        remove_in(&mut self.inner, key)
    }
}

/// The entry of a key that has a value, for changing.
pub struct OccupiedCopyMapEntryMut<'map, K, V> {
    pub map: &'map mut WystCopyMap<K, V>,
    pub key: K,
}

/// The entry of a key that has no value, for changing.
pub struct VacantCopyMapEntryMut<'map, K, V> {
    pub map: &'map mut WystCopyMap<K, V>,
    pub key: K,
}

/// The entry of a key, for changing.
pub enum CopyMapEntryMut<'map, K, V> {
    Occupied(OccupiedCopyMapEntryMut<'map, K, V>),
    Vacant(VacantCopyMapEntryMut<'map, K, V>),
}

impl<'map, K: MapKey, V: Copy> CopyMapEntryMut<'map, K, V> {
    pub fn occupied(map: &'map mut WystCopyMap<K, V>, key: K) -> (entry: CopyMapEntryMut<'map, K, V>)
        ensures
            entry matches CopyMapEntryMut::Occupied(o) && *o.map == *old(map) && *final(o.map)
                == *final(map) && o.key == key,
    {
        CopyMapEntryMut::Occupied(OccupiedCopyMapEntryMut { map, key })
    }

    pub fn vacant(map: &'map mut WystCopyMap<K, V>, key: K) -> (entry: CopyMapEntryMut<'map, K, V>)
        ensures
            entry matches CopyMapEntryMut::Vacant(v) && *v.map == *old(map) && *final(v.map)
                == *final(map) && v.key == key,
    {
        CopyMapEntryMut::Vacant(VacantCopyMapEntryMut { map, key })
    }

    /// Replaces the value by what `update` makes of it, and returns what
    /// `update` extracts; nothing happens to a vacant entry.
    pub fn extract<U, F: FnOnce(V) -> (V, U)>(self, update: F) -> (extracted: Option<U>)
        requires
            self matches CopyMapEntryMut::Occupied(o) ==> lookup((*o.map)@, o.key) is Some,
            forall|v: V| #[trigger] update.requires((v,)),
        ensures
            match self {
                CopyMapEntryMut::Occupied(o) => exists|r: (V, U)|
                    #[trigger] update.ensures((lookup((*o.map)@, o.key).unwrap(),), r) && extracted == Some(r.1)
                        && (*final(o.map))@ == insert_entry((*o.map)@, o.key, r.0),
                CopyMapEntryMut::Vacant(v) => extracted is None && *final(v.map) == *v.map,
            },
    {
        match self {
            CopyMapEntryMut::Occupied(occupied) => Some(occupied.extract(update)),
            CopyMapEntryMut::Vacant(_) => None,
        }
    }

    /// Updates the value; a vacant entry first gets the value that `create`
    /// makes.
    pub fn upsert<C: FnOnce() -> V, F: FnOnce(V) -> V>(self, create: C, update: F)
        requires
            self matches CopyMapEntryMut::Occupied(o) ==> lookup((*o.map)@, o.key) is Some,
            create.requires(()),
            forall|v: V| #[trigger] update.requires((v,)),
        ensures
            match self {
                CopyMapEntryMut::Occupied(o) => exists|r: V|
                    #[trigger] update.ensures((lookup((*o.map)@, o.key).unwrap(),), r)
                        && (*final(o.map))@ == insert_entry((*o.map)@, o.key, r),
                CopyMapEntryMut::Vacant(v) => exists|c: V, r: V|
                    #[trigger] create.ensures((), c) && #[trigger] update.ensures((c,), r)
                        && (*final(v.map))@ == insert_entry((*v.map)@, v.key, r),
            },
    {
        match self {
            CopyMapEntryMut::Occupied(occupied) => {
                let value = occupied.get_value();
                let updated = update(value);
                occupied.insert(updated);
            },
            CopyMapEntryMut::Vacant(vacant) => {
                let created = create();
                let updated = update(created);
                vacant.insert(updated);
            },
        }
    }

    /// Stores `value` under the entry's key.
    pub fn insert(self, value: V)
        ensures
            match self {
                CopyMapEntryMut::Occupied(o) => (*final(o.map))@ == insert_entry((*o.map)@, o.key, value),
                CopyMapEntryMut::Vacant(v) => (*final(v.map))@ == insert_entry((*v.map)@, v.key, value),
            },
    {
        match self {
            CopyMapEntryMut::Occupied(o) => o.insert(value),
            CopyMapEntryMut::Vacant(v) => v.insert(value),
        }
    }

    /// Removes the entry's key, returning its value, if any.
    pub fn delete(self) -> (removed: Option<V>)
        ensures
            match self {
                CopyMapEntryMut::Occupied(o) => (*final(o.map))@ == remove_entry((*o.map)@, o.key)
                    && removed == lookup((*o.map)@, o.key),
                CopyMapEntryMut::Vacant(v) => removed is None && *final(v.map) == *v.map,
            },
    {
        match self {
            CopyMapEntryMut::Occupied(o) => o.delete(),
            CopyMapEntryMut::Vacant(_) => None,
        }
    }

    /// The value of the entry's key, if any.
    pub fn get(self) -> (value: Option<V>)
        requires
            self matches CopyMapEntryMut::Occupied(o) ==> lookup((*o.map)@, o.key) is Some,
        ensures
            match self {
                CopyMapEntryMut::Occupied(o) => value == lookup((*o.map)@, o.key) && *final(o.map) == *o.map,
                CopyMapEntryMut::Vacant(v) => value is None && *final(v.map) == *v.map,
            },
    {
        match self {
            CopyMapEntryMut::Occupied(o) => Some(o.get()),
            CopyMapEntryMut::Vacant(v) => v.get(),
        }
    }
}

impl<'map, K: MapKey, V: Copy> OccupiedCopyMapEntryMut<'map, K, V> {
    pub fn insert(self, value: V)
        ensures
            (*final(self.map))@ == insert_entry((*old(self.map))@, self.key, value),
    {
        self.map.insert(self.key, value)
    }

    fn get_value(&self) -> (value: V)
        requires
            lookup((*self.map)@, self.key) is Some,
        ensures
            value == lookup((*old(self.map))@, self.key).unwrap(),
    {
        self.map.get(self.key).unwrap()
    }

    /// Replaces the value by what `update` makes of it, and returns what
    /// `update` extracts.
    pub fn extract<U, F: FnOnce(V) -> (V, U)>(self, update: F) -> (extracted: U)
        requires
            lookup((*self.map)@, self.key) is Some,
            forall|v: V| #[trigger] update.requires((v,)),
        ensures
            exists|r: (V, U)|
                #[trigger] update.ensures((lookup((*old(self.map))@, self.key).unwrap(),), r) && extracted
                    == r.1 && (*final(self.map))@ == insert_entry((*old(self.map))@, self.key, r.0),
    {
        let value = self.get_value();
        let (updated, extracted) = update(value);
        let key = self.key;
        self.map.insert(key, updated);
        extracted
    }

    pub fn delete(self) -> (removed: Option<V>)
        ensures
            (*final(self.map))@ == remove_entry((*old(self.map))@, self.key),
            removed == lookup((*old(self.map))@, self.key),
    {
        self.map.delete(self.key)
    }

    pub fn get(self) -> (value: V)
        requires
            lookup((*self.map)@, self.key) is Some,
        ensures
            value == lookup((*old(self.map))@, self.key).unwrap(),
            *final(self.map) == *old(self.map),
    {
        self.map.get(self.key).unwrap()
    }
}

impl<'map, K: MapKey, V: Copy> VacantCopyMapEntryMut<'map, K, V> {
    pub fn insert(self, value: V)
        ensures
            (*final(self.map))@ == insert_entry((*old(self.map))@, self.key, value),
    {
        self.map.insert(self.key, value)
    }

    pub fn get(self) -> (value: Option<V>)
        ensures
            value is None,
            *final(self.map) == *old(self.map),
    {
        None
    }
}

/// The entry of a key that has a value, for reading.
pub struct OccupiedCopyMapEntry<'map, K, V> {
    pub map: &'map WystCopyMap<K, V>,
    pub key: K,
}

/// The entry of a key that has no value, for reading.
pub struct VacantCopyMapEntry<'map, K, V> {
    pub map: &'map WystCopyMap<K, V>,
    pub key: K,
}

/// The entry of a key, for reading.
pub enum CopyMapEntry<'map, K, V> {
    Occupied(OccupiedCopyMapEntry<'map, K, V>),
    Vacant(VacantCopyMapEntry<'map, K, V>),
}

impl<'map, K: MapKey, V: Copy> CopyMapEntry<'map, K, V> {
    pub fn occupied(map: &'map WystCopyMap<K, V>, key: K) -> (entry: CopyMapEntry<'map, K, V>)
        ensures
            entry matches CopyMapEntry::Occupied(o) && *o.map == *map && o.key == key,
    {
        CopyMapEntry::Occupied(OccupiedCopyMapEntry { map, key })
    }

    pub fn vacant(map: &'map WystCopyMap<K, V>, key: K) -> (entry: CopyMapEntry<'map, K, V>)
        ensures
            entry matches CopyMapEntry::Vacant(v) && *v.map == *map && v.key == key,
    {
        CopyMapEntry::Vacant(VacantCopyMapEntry { map, key })
    }

    /// The value of the entry's key, if any.
    pub fn get(self) -> (value: Option<V>)
        requires
            self matches CopyMapEntry::Occupied(o) ==> lookup(o.map@, o.key) is Some,
        ensures
            match self {
                CopyMapEntry::Occupied(o) => value == lookup(o.map@, o.key),
                CopyMapEntry::Vacant(_) => value is None,
            },
    {
        match self {
            CopyMapEntry::Occupied(o) => Some(*o.get()),
            CopyMapEntry::Vacant(v) => v.get(),
        }
    }
}

impl<'map, K: MapKey, V: Copy> OccupiedCopyMapEntry<'map, K, V> {
    pub fn get(self) -> (value: &'map V)
        requires
            lookup(self.map@, self.key) is Some,
        ensures
            lookup(self.map@, self.key) == Some(*value),
    {
        self.map.get_entry(self.key).unwrap()
    }
}

impl<'map, K: MapKey, V: Copy> VacantCopyMapEntry<'map, K, V> {
    pub fn get(self) -> (value: Option<V>)
        ensures
            value is None,
    {
        None
    }
}

} // verus!
