//! A map from copyable keys to arbitrary values that remembers insertion order.

use vstd::prelude::*;

use super::assoc::{
    find_key, insert_entry, insert_in, key_index, lemma_key_index, lemma_key_index_map, lookup, remove_entry,
    remove_in, MapKey,
};

verus! {

/// A map from copyable keys to values. Entries keep their insertion order;
/// deleting an entry moves the last entry into its slot.
#[derive(Clone, Debug, PartialEq, Eq, Hash)]
pub struct WystMap<K, V> {
    inner: Vec<(K, V)>,
}

/// The view of one entry: the key with the view of its value.
pub open spec fn entry_view<K, V: View>(e: (K, V)) -> (K, V::V) {
    (e.0, e.1@)
}

impl<K: MapKey, V: View> View for WystMap<K, V> {
    type V = Seq<(K, V::V)>;

    closed spec fn view(&self) -> Seq<(K, V::V)> {
        self.inner@.map_values(|e: (K, V)| entry_view(e))
    }
}

impl<K: MapKey, V: View> WystMap<K, V> {
    proof fn lemma_view(&self, k: K)
        ensures
            self@.len() == self.inner@.len(),
            forall|i: int|
                0 <= i < self.inner@.len() ==> #[trigger] self@[i] == entry_view(self.inner@[i]),
            key_index(self@, k) == key_index(self.inner@, k),
    {
        lemma_key_index_map(self.inner@, |e: (K, V)| entry_view(e), k);
    }

    pub fn empty() -> (map: Self)
        ensures
            map@ == Seq::<(K, V::V)>::empty(),
    {
        let map = WystMap { inner: Vec::new() };
        assert(map@ =~= Seq::<(K, V::V)>::empty());
        map
    }

    pub fn len(&self) -> (len: usize)
        ensures
            len == self@.len(),
    {
        proof {
            self.lemma_view(arbitrary());
        }
        self.inner.len()
    }

    /// The key of the `i`-th entry in insertion order.
    pub fn key_at(&self, i: usize) -> (key: K)
        requires
            i < self@.len(),
        ensures
            key == self@[i as int].0,
    {
        proof {
            self.lemma_view(arbitrary());
        }
        self.inner[i].0
    }

    /// The value of the `i`-th entry in insertion order.
    pub fn value_at(&self, i: usize) -> (value: &V)
        requires
            i < self@.len(),
        ensures
            value@ == self@[i as int].1,
    {
        proof {
            self.lemma_view(arbitrary());
        }
        &self.inner[i].1
    }

    /// The position of the entry of `key`, if there is one.
    pub fn find(&self, key: K) -> (index: Option<usize>)
        ensures
            index matches Some(i) ==> key_index(self@, key) == Some(i as int) && i < self@.len(),
            index is None ==> key_index(self@, key) is None,
    {
        proof {
            self.lemma_view(key);
        }
        find_key(&self.inner, key)
    }

    pub fn get(&self, key: K) -> (value: Option<&V>)
        ensures
            value matches Some(v) ==> lookup(self@, key) == Some(v@),
            value is None ==> lookup(self@, key) is None,
    {
        proof {
            self.lemma_view(key);
        }
        match find_key(&self.inner, key) {
            Some(i) => Some(&self.inner[i].1),
            None => None,
        }
    }

    /// Replaces the value of the `i`-th entry, keeping its key and position.
    pub fn set_value_at(&mut self, i: usize, value: V)
        requires
            i < old(self)@.len(),
        ensures
            final(self)@ == old(self)@.update(i as int, (old(self)@[i as int].0, value@)),
    {
        proof {
            old(self).lemma_view(arbitrary());
        }
        let key = self.inner[i].0;
        self.inner.set(i, (key, value));
        proof {
            self.lemma_view(arbitrary());
        }
        assert(self@ =~= old(self)@.update(i as int, (old(self)@[i as int].0, value@)));
    }

    /// Takes the value of the `i`-th entry out of the map, leaving `placeholder`
    /// in its place.
    pub fn replace_value_at(&mut self, i: usize, placeholder: V) -> (value: V)
        requires
            i < old(self)@.len(),
        ensures
            value@ == old(self)@[i as int].1,
            final(self)@ == old(self)@.update(i as int, (old(self)@[i as int].0, placeholder@)),
    {
        proof {
            old(self).lemma_view(arbitrary());
        }
        let (key, value) = self.inner.remove(i);
        self.inner.insert(i, (key, placeholder));
        proof {
            self.lemma_view(arbitrary());
        }
        assert(self@ =~= old(self)@.update(i as int, (old(self)@[i as int].0, placeholder@)));
        value
    }

    pub fn insert(&mut self, key: K, value: V)
        ensures
            final(self)@ == insert_entry(old(self)@, key, value@),
    {
        proof {
            old(self).lemma_view(key);
        }
        let ghost v = value@;
        insert_in(&mut self.inner, key, value);
        proof {
            self.lemma_view(key);
            lemma_key_index(old(self).inner@, key);
            let expected = insert_entry(old(self)@, key, v);
            assert(self@.len() == expected.len());
            assert forall|j: int| 0 <= j < self@.len() implies self@[j] == expected[j] by {
                assert(self@[j] == entry_view(self.inner@[j]));
                if j < old(self).inner@.len() {
                    assert(old(self)@[j] == entry_view(old(self).inner@[j]));
                }
            }
            assert(self@ =~= expected);
        }
    }

    pub fn delete(&mut self, key: K)
        ensures
            final(self)@ == remove_entry(old(self)@, key),
    {
        proof {
            old(self).lemma_view(key);
        }
        let _ = remove_in(&mut self.inner, key);
        proof {
            self.lemma_view(key);
            lemma_key_index(old(self).inner@, key);
            let expected = remove_entry(old(self)@, key);
            assert(self@.len() == expected.len());
            assert forall|j: int| 0 <= j < self@.len() implies self@[j] == expected[j] by {
                assert(self@[j] == entry_view(self.inner@[j]));
                assert(old(self)@[j] == entry_view(old(self).inner@[j]));
                let n = old(self).inner@.len() - 1;
                assert(old(self)@[n] == entry_view(old(self).inner@[n]));
            }
            assert(self@ =~= expected);
        }
    }
}

impl<K: MapKey, V: View> WystMap<K, V> {
    /// Lets `f` change the value of the `i`-th entry in place.
    pub fn update_at<U, F: FnOnce(&mut V) -> U>(&mut self, i: usize, f: F) -> (u: U)
        requires
            i < old(self)@.len(),
            forall|r: &mut V| #[trigger] f.requires((r,)),
        ensures
            exists|r: &mut V|
                (*r)@ == old(self)@[i as int].1 && #[trigger] f.ensures((r,), u) && final(self)@ == old(
                    self,
                )@.update(i as int, (old(self)@[i as int].0, (*final(r))@)),
    {
        proof {
            old(self).lemma_view(arbitrary());
        }
        let (key, mut value) = self.inner.remove(i);
        let u = f(&mut value);
        self.inner.insert(i, (key, value));
        proof {
            self.lemma_view(arbitrary());
        }
        assert(self@ =~= old(self)@.update(i as int, (old(self)@[i as int].0, value@)));
        u
    }
}

impl<K: MapKey, V: View> WystMap<K, V> {
    /// A mutable reference to the value stored under `key`, if any.
    pub fn get_mut(&mut self, key: K) -> (value: Option<&mut V>)
        ensures
            match value {
                Some(r) => lookup(old(self)@, key) == Some((*r)@) && final(self)@ == insert_entry(
                    old(self)@,
                    key,
                    (*final(r))@,
                ),
                None => lookup(old(self)@, key) is None && final(self)@ == old(self)@,
            },
    {
        proof {
            old(self).lemma_view(key);
            lemma_key_index(old(self).inner@, key);
        }
        match find_key(&self.inner, key) {
            Some(i) => {
                let entry = &mut self.inner[i];
                Some(&mut entry.1)
            },
            None => None,
        }
    }
}

impl<K: MapKey, V: View> WystMap<K, V> {
    /// The keys with references to their values, in insertion order.
    pub fn iter(&self) -> (entries: Vec<(K, &V)>)
        ensures
            entries@.len() == self@.len(),
            forall|i: int| 0 <= i < self@.len() ==> (#[trigger] entries@[i]).0 == self@[i].0 && entries@[i].1@ == self@[i].1,
    {
        proof {
            self.lemma_view(arbitrary());
        }
        let mut entries: Vec<(K, &V)> = Vec::new();
        let mut i: usize = 0;
        while i < self.inner.len()
            invariant
                i <= self.inner@.len(),
                self@.len() == self.inner@.len(),
                forall|j: int| 0 <= j < self.inner@.len() ==> #[trigger] self@[j] == entry_view(self.inner@[j]),
                entries@.len() == i,
                forall|j: int| 0 <= j < i ==> (#[trigger] entries@[j]).0 == self@[j].0 && entries@[j].1@ == self@[j].1,
            decreases self.inner@.len() - i,
        {
            let entry = &self.inner[i];
            entries.push((entry.0, &entry.1));
            i = i + 1;
        }
        entries
    }

    /// The entry of `key`, for reading.
    pub fn entry(&self, key: K) -> (entry: MapEntry<'_, K, V>)
        ensures
            match entry {
                MapEntry::Occupied(o) => *o.map == *self && o.key == key && lookup(self@, key) is Some,
                MapEntry::Vacant(v) => *v.map == *self && v.key == key && lookup(self@, key) is None,
            },
    {
        match self.get(key) {
            Some(_) => MapEntry::occupied(self, key),
            None => MapEntry::vacant(self, key),
        }
    }

    /// The entry of `key`, for changing.
    pub fn entry_mut(&mut self, key: K) -> (entry: MapEntryMut<'_, K, V>)
        ensures
            match entry {
                MapEntryMut::Occupied(o) => *o.map == *old(self) && *final(o.map) == *final(self) && o.key
                    == key && lookup(old(self)@, key) is Some,
                MapEntryMut::Vacant(v) => *v.map == *old(self) && *final(v.map) == *final(self) && v.key
                    == key && lookup(old(self)@, key) is None,
            },
    {
        let present = self.get(key).is_some();
        if present {
            MapEntryMut::occupied(self, key)
        } else {
            MapEntryMut::vacant(self, key)
        }
    }
}

/// The entry of a key that has a value, for changing.
pub struct OccupiedMapEntryMut<'map, K, V> {
    pub map: &'map mut WystMap<K, V>,
    pub key: K,
}

/// The entry of a key that has no value, for changing.
pub struct VacantMapEntryMut<'map, K, V> {
    pub map: &'map mut WystMap<K, V>,
    pub key: K,
}

/// The entry of a key, for changing.
pub enum MapEntryMut<'map, K, V> {
    Occupied(OccupiedMapEntryMut<'map, K, V>),
    Vacant(VacantMapEntryMut<'map, K, V>),
}

impl<'map, K: MapKey, V: View> MapEntryMut<'map, K, V> {
    pub fn occupied(map: &'map mut WystMap<K, V>, key: K) -> (entry: MapEntryMut<'map, K, V>)
        ensures
            entry matches MapEntryMut::Occupied(o) && *o.map == *old(map) && *final(o.map)
                == *final(map) && o.key == key,
    {
        MapEntryMut::Occupied(OccupiedMapEntryMut { map, key })
    }

    pub fn vacant(map: &'map mut WystMap<K, V>, key: K) -> (entry: MapEntryMut<'map, K, V>)
        ensures
            entry matches MapEntryMut::Vacant(v) && *v.map == *old(map) && *final(v.map)
                == *final(map) && v.key == key,
    {
        MapEntryMut::Vacant(VacantMapEntryMut { map, key })
    }

    /// Lets `extract` change the value in place and returns what it gives
    /// back; nothing happens to a vacant entry.
    pub fn extract<U, F: FnOnce(&mut V) -> U>(self, extract: F) -> (extracted: Option<U>)
        requires
            self matches MapEntryMut::Occupied(o) ==> lookup((*o.map)@, o.key) is Some,
            forall|r: &mut V| #[trigger] extract.requires((r,)),
        ensures
            match self {
                MapEntryMut::Occupied(o) => exists|r: &mut V, u: U|
                    (*r)@ == lookup((*o.map)@, o.key).unwrap() && #[trigger] extract.ensures((r,), u)
                        && extracted == Some(u) && (*final(o.map))@ == insert_entry(
                        (*o.map)@,
                        o.key,
                        (*final(r))@,
                    ),
                MapEntryMut::Vacant(v) => extracted is None && *final(v.map) == *v.map,
            },
    {
        match self {
            MapEntryMut::Occupied(OccupiedMapEntryMut { map, key }) => {
                proof {
                    lemma_key_index(map@, key);
                }
                let i = map.find(key).unwrap();
                Some(map.update_at(i, extract))
            },
            MapEntryMut::Vacant(_) => None,
        }
    }

    /// Lets `update` change the value in place; a vacant entry first gets the
    /// value that `create` makes.
    pub fn upsert<C: FnOnce() -> V, F: FnOnce(&mut V)>(self, create: C, update: F)
        requires
            self matches MapEntryMut::Occupied(o) ==> lookup((*o.map)@, o.key) is Some,
            create.requires(()),
            forall|r: &mut V| #[trigger] update.requires((r,)),
        ensures
            match self {
                MapEntryMut::Occupied(o) => exists|r: &mut V|
                    (*r)@ == lookup((*o.map)@, o.key).unwrap() && #[trigger] update.ensures((r,), ())
                        && (*final(o.map))@ == insert_entry((*o.map)@, o.key, (*final(r))@),
                MapEntryMut::Vacant(v) => exists|c: V, r: &mut V|
                    #[trigger] create.ensures((), c) && *r == c && #[trigger] update.ensures((r,), ())
                        && (*final(v.map))@ == insert_entry((*v.map)@, v.key, (*final(r))@),
            },
    {
        match self {
            MapEntryMut::Occupied(OccupiedMapEntryMut { map, key }) => {
                proof {
                    lemma_key_index(map@, key);
                }
                let i = map.find(key).unwrap();
                map.update_at(i, update);
            },
            MapEntryMut::Vacant(vacant) => {
                let mut value = create();
                update(&mut value);
                vacant.insert(value);
            },
        }
    }

    /// Stores `value` under the entry's key.
    pub fn insert(self, value: V)
        ensures
            match self {
                MapEntryMut::Occupied(o) => (*final(o.map))@ == insert_entry((*o.map)@, o.key, value@),
                MapEntryMut::Vacant(v) => (*final(v.map))@ == insert_entry((*v.map)@, v.key, value@),
            },
    {
        match self {
            MapEntryMut::Occupied(o) => o.insert(value),
            MapEntryMut::Vacant(v) => v.insert(value),
        }
    }

    /// Removes the entry's key.
    pub fn delete(self)
        ensures
            match self {
                MapEntryMut::Occupied(o) => (*final(o.map))@ == remove_entry((*o.map)@, o.key),
                MapEntryMut::Vacant(v) => *final(v.map) == *v.map,
            },
    {
        match self {
            MapEntryMut::Occupied(o) => o.delete(),
            MapEntryMut::Vacant(_) => {},
        }
    }

    /// The value of the entry's key, if any.
    pub fn get(self) -> (value: Option<&'map V>)
        requires
            self matches MapEntryMut::Occupied(o) ==> lookup((*o.map)@, o.key) is Some,
        ensures
            match self {
                MapEntryMut::Occupied(o) => value is Some && lookup((*o.map)@, o.key) == Some((*value.unwrap())@)
                    && (*final(o.map))@ == (*o.map)@,
                MapEntryMut::Vacant(v) => value is None && *final(v.map) == *v.map,
            },
    {
        match self {
            MapEntryMut::Occupied(o) => {
                let ghost map = *o.map;
                let ghost key = o.key;
                let value: &'map mut V = o.get();
                proof {
                    lemma_key_index(map@, key);
                }
                let shared: &'map V = value;
                Some(shared)
            },
            MapEntryMut::Vacant(v) => v.get(),
        }
    }
}

impl<'map, K: MapKey, V: View> OccupiedMapEntryMut<'map, K, V> {
    pub fn insert(self, value: V)
        ensures
            (*final(self.map))@ == insert_entry((*old(self.map))@, self.key, value@),
    {
        self.map.insert(self.key, value)
    }

    /// Lets `extract` change the value in place and returns what it gives
    /// back.
    pub fn extract<U, F: FnOnce(&mut V) -> U>(&mut self, extract: F) -> (extracted: U)
        requires
            lookup((*old(self).map)@, old(self).key) is Some,
            forall|r: &mut V| #[trigger] extract.requires((r,)),
        ensures
            final(self).key == old(self).key,
            exists|r: &mut V|
                (*r)@ == lookup((*old(self).map)@, old(self).key).unwrap() && #[trigger] extract.ensures(
                    (r,),
                    extracted,
                ) && (*final(self).map)@ == insert_entry(
                    (*old(self).map)@,
                    old(self).key,
                    (*final(r))@,
                ),
    {
        proof {
            lemma_key_index(self.map@, self.key);
        }
        let i = self.map.find(self.key).unwrap();
        self.map.update_at(i, extract)
    }

    pub fn delete(self)
        ensures
            (*final(self.map))@ == remove_entry((*old(self.map))@, self.key),
    {
        self.map.delete(self.key)
    }

    /// A mutable reference to the value.
    pub fn get(self) -> (value: &'map mut V)
        requires
            lookup((*self.map)@, self.key) is Some,
        ensures
            lookup((*old(self.map))@, self.key) == Some((*value)@),
            (*final(self.map))@ == insert_entry((*old(self.map))@, self.key, (*final(value))@),
    {
        self.map.get_mut(self.key).unwrap()
    }
}

impl<'map, K: MapKey, V: View> VacantMapEntryMut<'map, K, V> {
    pub fn insert(self, value: V)
        ensures
            (*final(self.map))@ == insert_entry((*old(self.map))@, self.key, value@),
    {
        self.map.insert(self.key, value)
    }

    pub fn get(self) -> (value: Option<&'map V>)
        ensures
            value is None,
            *final(self.map) == *old(self.map),
    {
        None
    }
}

/// The entry of a key that has a value, for reading.
pub struct OccupiedMapEntry<'map, K, V> {
    pub map: &'map WystMap<K, V>,
    pub key: K,
}

/// The entry of a key that has no value, for reading.
pub struct VacantMapEntry<'map, K, V> {
    pub map: &'map WystMap<K, V>,
    pub key: K,
}

/// The entry of a key, for reading.
pub enum MapEntry<'map, K, V> {
    Occupied(OccupiedMapEntry<'map, K, V>),
    Vacant(VacantMapEntry<'map, K, V>),
}

impl<'map, K: MapKey, V: View> MapEntry<'map, K, V> {
    pub fn occupied(map: &'map WystMap<K, V>, key: K) -> (entry: MapEntry<'map, K, V>)
        ensures
            entry matches MapEntry::Occupied(o) && *o.map == *map && o.key == key,
    {
        MapEntry::Occupied(OccupiedMapEntry { map, key })
    }

    pub fn vacant(map: &'map WystMap<K, V>, key: K) -> (entry: MapEntry<'map, K, V>)
        ensures
            entry matches MapEntry::Vacant(v) && *v.map == *map && v.key == key,
    {
        MapEntry::Vacant(VacantMapEntry { map, key })
    }

    /// The value of the entry's key, if any.
    pub fn get(self) -> (value: Option<&'map V>)
        requires
            self matches MapEntry::Occupied(o) ==> lookup(o.map@, o.key) is Some,
        ensures
            match self {
                MapEntry::Occupied(o) => value matches Some(v) && lookup(o.map@, o.key) == Some(v@),
                MapEntry::Vacant(_) => value is None,
            },
    {
        match self {
            MapEntry::Occupied(o) => Some(o.get()),
            MapEntry::Vacant(v) => v.get(),
        }
    }
}

impl<'map, K: MapKey, V: View> OccupiedMapEntry<'map, K, V> {
    pub fn get(self) -> (value: &'map V)
        requires
            lookup(self.map@, self.key) is Some,
        ensures
            lookup(self.map@, self.key) == Some(value@),
    {
        self.map.get(self.key).unwrap()
    }
}

impl<'map, K: MapKey, V: View> VacantMapEntry<'map, K, V> {
    pub fn get(self) -> (value: Option<&'map V>)
        ensures
            value is None,
    {
        None
    }
}

} // verus!
