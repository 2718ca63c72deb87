//! The place of one key in a map, which either has an entry or has none yet.

use crate::key::{key_of, Type};
use crate::map::SingletonMap;
use crate::model::{contains, ensured, lemma_inserted, lookup, with_value};
use vstd::pervasive::unreached;
use vstd::prelude::*;

verus! {

/// The place of one key in a map: occupied when the map has an entry of the
/// key, vacant when it has none. It holds the map until it is used up.
pub struct Entry<'a, V> {
    /// The map that the place belongs to.
    pub map: &'a mut SingletonMap<V>,
    /// The key whose place this is.
    pub key: Type,
}

impl<'a, V> Entry<'a, V> {
    /// The value of the entry, after `default` is stored in a vacant place.
    /// An occupied place keeps its value, and `default` is dropped.
    pub fn or_insert(self, default: V) -> (r: &'a mut V)
        requires
            self.map.wf(),
        ensures
            final(self.map).wf(),
            lookup(ensured(old(self.map)@, self.key, default), self.key) == Some(*r),
            final(self.map)@ == with_value(
                ensured(old(self.map)@, self.key, default),
                self.key,
                *final(r),
            ),
    {
        let map = self.map;
        let key = self.key;
        proof {
            map.lemma_distinct();
            lemma_inserted(map@, key, default);
        }
        if !map.has_key(key) {
            map.insert_key(key, default);
        }
        match map.get_key_mut(key) {
            Some(v) => v,
            None => unreached(),
        }
    }

    /// The value of the entry, after what `default` returns is stored in a
    /// vacant place. `default` is called only for a vacant place.
    pub fn or_insert_with<F: FnOnce() -> V>(self, default: F) -> (r: &'a mut V)
        requires
            self.map.wf(),
            !contains(self.map@, self.key) ==> default.requires(()),
        ensures
            final(self.map).wf(),
            contains(old(self.map)@, self.key) ==> lookup(old(self.map)@, self.key) == Some(*r)
                && final(self.map)@ == with_value(old(self.map)@, self.key, *final(r)),
            !contains(old(self.map)@, self.key) ==> default.ensures((), *r) && final(self.map)@
                == with_value(old(self.map)@.push((self.key, *r)), self.key, *final(r)),
    {
        let map = self.map;
        let key = self.key;
        proof {
            map.lemma_distinct();
        }
        if !map.has_key(key) {
            let value = default();
            proof {
                lemma_inserted(map@, key, value);
            }
            map.insert_key(key, value);
        }
        match map.get_key_mut(key) {
            Some(v) => v,
            None => unreached(),
        }
    }

    /// Changes the value of an occupied place by `f`, and leaves a vacant
    /// place as it is.
    pub fn and_modify<F: FnOnce(&mut V)>(self, f: F) -> (r: Self)
        requires
            self.map.wf(),
            forall|v: &mut V| lookup(self.map@, self.key) == Some(*v) ==> f.requires((v,)),
        ensures
            r.key == self.key,
            r.map.wf(),
            *final(r.map) == *final(self.map),
            match lookup(old(self.map)@, self.key) {
                Some(before) => exists|v: &mut V|
                    *v == before && #[trigger] f.ensures((v,), ()) && r.map@ == with_value(
                        old(self.map)@,
                        self.key,
                        *final(v),
                    ),
                None => r.map@ == old(self.map)@,
            },
    {
        match self.map.get_key_mut(self.key) {
            Some(v) => {
                f(v);
            },
            None => {},
        }
        self
    }
}

impl<'a, V: Default> Entry<'a, V> {
    /// The value of the entry, after the default value of `V` is stored in a
    /// vacant place.
    pub fn or_default(self) -> (r: &'a mut V)
        requires
            self.map.wf(),
        ensures
            final(self.map).wf(),
            contains(old(self.map)@, self.key) ==> lookup(old(self.map)@, self.key) == Some(*r)
                && final(self.map)@ == with_value(old(self.map)@, self.key, *final(r)),
            !contains(old(self.map)@, self.key) ==> V::default.ensures((), *r) && final(self.map)@
                == with_value(old(self.map)@.push((self.key, *r)), self.key, *final(r)),
    {
        let map = self.map;
        let key = self.key;
        proof {
            map.lemma_distinct();
        }
        if !map.has_key(key) {
            let value = V::default();
            proof {
                lemma_inserted(map@, key, value);
            }
            map.insert_key(key, value);
        }
        match map.get_key_mut(key) {
            Some(v) => v,
            None => unreached(),
        }
    }
}

impl<V> SingletonMap<V> {
    /// The place of `key` in the map.
    pub fn entry_key(&mut self, key: Type) -> (r: Entry<'_, V>)
        requires
            old(self).wf(),
        ensures
            r.key == key,
            *r.map == *old(self),
            *final(r.map) == *final(self),
    {
        Entry { map: self, key }
    }

    /// The place of the key of the type `K` in the map. An entry that is
    /// made there gets the key described by `description`.
    pub fn entry<K: 'static>(&mut self, description: &'static str) -> (r: Entry<'_, V>)
        requires
            old(self).wf(),
        ensures
            key_of::<K>(r.key),
            r.key.name() == description@,
            *r.map == *old(self),
            *final(r.map) == *final(self),
    {
        let key = Type::of::<K>(description);
        self.entry_key(key)
    }
}

impl<V: Default> SingletonMap<V> {
    /// The value under `key`, after the default value of `V` is stored under
    /// a key without an entry.
    pub fn get_or_insert_default_key(&mut self, key: Type) -> (r: &mut V)
        requires
            old(self).wf(),
        ensures
            final(self).wf(),
            contains(old(self)@, key) ==> lookup(old(self)@, key) == Some(*r) && final(self)@
                == with_value(old(self)@, key, *final(r)),
            !contains(old(self)@, key) ==> V::default.ensures((), *r) && final(self)@
                == with_value(old(self)@.push((key, *r)), key, *final(r)),
    {
        self.entry_key(key).or_default()
    }

    /// The value under the key of the type `K`, after the default value of
    /// `V` is stored under a key without an entry. A new entry gets the key
    /// described by `description`.
    pub fn get_or_insert_default<K: 'static>(&mut self, description: &'static str) -> (r: &mut V)
        requires
            old(self).wf(),
        ensures
            final(self).wf(),
            exists|key: Type|
                {
                    &&& key_of::<K>(key)
                    &&& key.name() == description@
                    &&& #[trigger] contains(old(self)@, key) ==> lookup(old(self)@, key) == Some(
                        *r,
                    ) && final(self)@ == with_value(old(self)@, key, *final(r))
                    &&& !contains(old(self)@, key) ==> V::default.ensures((), *r) && final(self)@
                        == with_value(old(self)@.push((key, *r)), key, *final(r))
                },
    {
        let key = Type::of::<K>(description);
        self.get_or_insert_default_key(key)
    }
}

} // verus!
