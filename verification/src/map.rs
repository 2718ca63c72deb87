//! A map from types to values of one type, in the order of insertion.

use crate::key::{key_of, Type};
use crate::model::{
    contains, distinct, identities, inserted, lemma_contains_identity,
    lemma_distinct_identities, lemma_place, lookup, names_of, removed, with_value,
};
use crate::order::{
    index_capacity, index_clear, index_clone, index_insert, index_new, index_order,
    index_position, index_reserve, index_shift_remove, index_shrink_to, index_shrink_to_fit,
    index_try_reserve, index_with_capacity,
};
use crate::room::{vec_capacity, vec_shrink_to, vec_shrink_to_fit};
use indexmap::IndexSet;
use std::any::TypeId;
use std::hash::RandomState;
use vstd::prelude::*;

verus! {

/// Why room for more entries could not be set aside.
#[derive(Debug)]
pub enum ReserveError {
    /// The index of the keys could not grow.
    Index(indexmap::TryReserveError),
    /// The storage of the entries could not grow.
    Entries(std::collections::TryReserveError),
}

impl ReserveError {
    /// What the map reports when its index was asked to grow: the index's
    /// failure as the map's own, its success as success.
    pub fn of_index(outcome: Result<(), indexmap::TryReserveError>) -> (r: Result<
        (),
        ReserveError,
    >)
        ensures
            r == (match outcome {
                Ok(()) => Ok::<(), ReserveError>(()),
                Err(e) => Err(ReserveError::Index(e)),
            }),
    {
        match outcome {
            Ok(()) => Ok(()),
            Err(e) => Err(ReserveError::Index(e)),
        }
    }

    /// What the map reports when the storage of its entries was asked to
    /// grow: the storage's failure as the map's own, its success as success.
    pub fn of_entries(outcome: Result<(), std::collections::TryReserveError>) -> (r: Result<
        (),
        ReserveError,
    >)
        ensures
            r == (match outcome {
                Ok(()) => Ok::<(), ReserveError>(()),
                Err(e) => Err(ReserveError::Entries(e)),
            }),
    {
        match outcome {
            Ok(()) => Ok(()),
            Err(e) => Err(ReserveError::Entries(e)),
        }
    }
}

/// A map that has types as its keys and stores one value of type `V` under
/// each. Its entries keep the order in which their keys were first inserted.
#[derive(Debug)]
pub struct SingletonMap<V> {
    index: IndexSet<TypeId, RandomState>,
    keys: Vec<Type>,
    values: Vec<V>,
}

impl<V> View for SingletonMap<V> {
    type V = Seq<(Type, V)>;

    closed spec fn view(&self) -> Seq<(Type, V)> {
        Seq::new(self.keys@.len(), |i: int| (self.keys@[i], self.values@[i]))
    }
}

impl<V> SingletonMap<V> {
    /// The invariant of the map: its index and its entries agree, and no
    /// two entries have the same key.
    pub closed spec fn wf(&self) -> bool {
        &&& self.keys@.len() == self.values@.len()
        &&& index_order(self.index) == self.keys@.map_values(|k: Type| k.identity())
        &&& index_order(self.index).no_duplicates()
    }

    proof fn lemma_view(&self)
        requires
            self.wf(),
        ensures
            self@.len() == self.keys@.len(),
            identities(self@) == index_order(self.index),
            distinct(self@),
            forall|i: int|
                0 <= i < self@.len() ==> #[trigger] self@[i] == (self.keys@[i], self.values@[i]),
    {
        assert(identities(self@) =~= index_order(self.index));
        lemma_distinct_identities(self@);
    }

    /// In a well-formed map no two entries have the same key.
    pub proof fn lemma_distinct(&self)
        requires
            self.wf(),
        ensures
            distinct(self@),
    {
        self.lemma_view();
    }

    /// A map without entries.
    #[must_use]
    pub fn new() -> (r: Self)
        ensures
            r.wf(),
            r@ == Seq::<(Type, V)>::empty(),
    {
        let r = SingletonMap { index: index_new(), keys: Vec::new(), values: Vec::new() };
        assert(r.keys@.map_values(|k: Type| k.identity()) =~= Seq::<TypeId>::empty());
        assert(r@ =~= Seq::<(Type, V)>::empty());
        r
    }

    /// A map without entries, with room for at least `capacity` of them.
    #[must_use]
    pub fn with_capacity(capacity: usize) -> (r: Self)
        ensures
            r.wf(),
            r@ == Seq::<(Type, V)>::empty(),
    {
        let r = SingletonMap {
            index: index_with_capacity(capacity),
            keys: Vec::with_capacity(capacity),
            values: Vec::with_capacity(capacity),
        };
        assert(r.keys@.map_values(|k: Type| k.identity()) =~= Seq::<TypeId>::empty());
        assert(r@ =~= Seq::<(Type, V)>::empty());
        r
    }

    /// The number of entries that the map can hold without allocating.
    #[must_use]
    pub fn capacity(&self) -> (r: usize)
        requires
            self.wf(),
        ensures
            r >= self@.len(),
    {
        proof {
            self.lemma_view();
        }
        let mut least: usize = index_capacity(&self.index);
        let of_keys: usize = vec_capacity(&self.keys);
        let of_values: usize = vec_capacity(&self.values);
        if of_keys < least {
            least = of_keys;
        }
        if of_values < least {
            least = of_values;
        }
        least
    }

    /// The number of entries.
    #[must_use]
    pub fn len(&self) -> (r: usize)
        requires
            self.wf(),
        ensures
            r == self@.len(),
    {
        self.keys.len()
    }

    /// Whether the map has no entries.
    #[must_use]
    pub fn is_empty(&self) -> (r: bool)
        requires
            self.wf(),
        ensures
            r == (self@.len() == 0),
    {
        self.keys.len() == 0
    }

    /// Takes all entries out.
    pub fn clear(&mut self)
        requires
            old(self).wf(),
        ensures
            final(self).wf(),
            final(self)@ == Seq::<(Type, V)>::empty(),
    {
        index_clear(&mut self.index);
        self.keys.clear();
        self.values.clear();
        assert(self.keys@.map_values(|k: Type| k.identity()) =~= Seq::<TypeId>::empty());
        assert(self@ =~= Seq::<(Type, V)>::empty());
    }

    /// Sets room aside for at least `additional` more entries.
    pub fn reserve(&mut self, additional: usize)
        requires
            old(self).wf(),
        ensures
            final(self).wf(),
            final(self)@ == old(self)@,
    {
        index_reserve(&mut self.index, additional);
        self.keys.reserve(additional);
        self.values.reserve(additional);
    }

    /// Tries to set room aside for at least `additional` more entries, first
    /// in the index, then in the storage of the entries, and reports the
    /// first of them that cannot grow. The entries stay as they are, whether
    /// that succeeds or not.
    pub fn try_reserve(&mut self, additional: usize) -> (r: Result<(), ReserveError>)
        requires
            old(self).wf(),
        ensures
            final(self).wf(),
            final(self)@ == old(self)@,
    {
        match ReserveError::of_index(index_try_reserve(&mut self.index, additional)) {
            Err(e) => {
                return Err(e);
            },
            Ok(()) => {},
        }
        match ReserveError::of_entries(self.keys.try_reserve(additional)) {
            Err(e) => {
                return Err(e);
            },
            Ok(()) => {},
        }
        ReserveError::of_entries(self.values.try_reserve(additional))
    }

    /// Gives back as much of the spare room as possible.
    pub fn shrink_to_fit(&mut self)
        requires
            old(self).wf(),
        ensures
            final(self).wf(),
            final(self)@ == old(self)@,
    {
        index_shrink_to_fit(&mut self.index);
        vec_shrink_to_fit(&mut self.keys);
        vec_shrink_to_fit(&mut self.values);
    }

    /// Gives back spare room, but keeps room for `min_capacity` entries.
    pub fn shrink_to(&mut self, min_capacity: usize)
        requires
            old(self).wf(),
        ensures
            final(self).wf(),
            final(self)@ == old(self)@,
    {
        index_shrink_to(&mut self.index, min_capacity);
        vec_shrink_to(&mut self.keys, min_capacity);
        vec_shrink_to(&mut self.values, min_capacity);
    }

    /// Whether there is an entry of `key`.
    #[must_use]
    pub fn has_key(&self, key: Type) -> (r: bool)
        requires
            self.wf(),
        ensures
            r == contains(self@, key),
    {
        proof {
            self.lemma_view();
            lemma_contains_identity(self@, key);
        }
        index_position(&self.index, key.as_id()).is_some()
    }

    /// What is stored under `key`, if anything.
    #[must_use]
    pub fn get_key(&self, key: Type) -> (r: Option<&V>)
        requires
            self.wf(),
        ensures
            match r {
                Some(v) => lookup(self@, key) == Some(*v),
                None => lookup(self@, key) is None,
            },
    {
        proof {
            self.lemma_view();
            lemma_contains_identity(self@, key);
        }
        match index_position(&self.index, key.as_id()) {
            Some(i) => {
                proof {
                    lemma_place(self@, key, i as int);
                }
                Some(&self.values[i])
            },
            None => None,
        }
    }

    /// Access to what is stored under `key`, if anything, to change it in
    /// place. The entry keeps its key and its place.
    pub fn get_key_mut(&mut self, key: Type) -> (r: Option<&mut V>)
        requires
            old(self).wf(),
        ensures
            final(self).wf(),
            match r {
                Some(v) => lookup(old(self)@, key) == Some(*v) && final(self)@ == with_value(
                    old(self)@,
                    key,
                    *final(v),
                ),
                None => lookup(old(self)@, key) is None && final(self)@ == old(self)@,
            },
    {
        proof {
            self.lemma_view();
            lemma_contains_identity(self@, key);
        }
        match index_position(&self.index, key.as_id()) {
            Some(i) => {
                proof {
                    lemma_place(self@, key, i as int);
                }
                Some(&mut self.values[i])
            },
            None => None,
        }
    }

    /// Stores `value` under `key` and gives what was stored there before.
    /// An entry of the key keeps its place and its key; a new entry goes to
    /// the end.
    pub fn insert_key(&mut self, key: Type, value: V) -> (r: Option<V>)
        requires
            old(self).wf(),
        ensures
            final(self).wf(),
            final(self)@ == inserted(old(self)@, key, value),
            r == lookup(old(self)@, key),
    {
        proof {
            self.lemma_view();
            lemma_contains_identity(self@, key);
        }
        let (i, fresh) = index_insert(&mut self.index, key.to_id());
        if fresh {
            self.keys.push(key);
            self.values.push(value);
            proof {
                assert(self.keys@.map_values(|k: Type| k.identity()) =~= index_order(self.index));
                assert(self@ =~= old(self)@.push((key, value)));
            }
            None
        } else {
            proof {
                lemma_place(self@, key, i as int);
            }
            let mut value = value;
            std::mem::swap(&mut self.values[i], &mut value);
            proof {
                assert(self@ =~= old(self)@.update(
                    i as int,
                    (old(self)@[i as int].0, self.values@[i as int]),
                ));
            }
            Some(value)
        }
    }

    /// Takes the entry of `key` out and gives what was stored there. The
    /// entries behind it move up by one and keep their order.
    pub fn remove_key(&mut self, key: Type) -> (r: Option<V>)
        requires
            old(self).wf(),
        ensures
            final(self).wf(),
            final(self)@ == removed(old(self)@, key),
            r == lookup(old(self)@, key),
    {
        proof {
            self.lemma_view();
            lemma_contains_identity(self@, key);
        }
        match index_shift_remove(&mut self.index, key.as_id()) {
            Some(i) => {
                proof {
                    lemma_place(self@, key, i as int);
                }
                self.keys.remove(i);
                let value = self.values.remove(i);
                proof {
                    assert(self.keys@.map_values(|k: Type| k.identity()) =~= index_order(
                        self.index,
                    ));
                    old(self)@.remove_ensures(i as int);
                    index_order(old(self).index).remove_ensures(i as int);
                    assert(self@ =~= old(self)@.remove(i as int));
                    assert(index_order(self.index).no_duplicates());
                }
                Some(value)
            },
            None => None,
        }
    }

    /// The entry at place `i` in the order of insertion, if there is one.
    #[must_use]
    pub fn get_index(&self, i: usize) -> (r: Option<(&Type, &V)>)
        requires
            self.wf(),
        ensures
            match r {
                Some(e) => i < self@.len() && (*e.0, *e.1) == self@[i as int],
                None => i >= self@.len(),
            },
    {
        proof {
            self.lemma_view();
        }
        if i < self.keys.len() {
            Some((&self.keys[i], &self.values[i]))
        } else {
            None
        }
    }

    /// The entry at place `i` in the order of insertion, if there is one,
    /// with access to its value to change it in place.
    pub fn get_index_mut(&mut self, i: usize) -> (r: Option<(&Type, &mut V)>)
        requires
            old(self).wf(),
        ensures
            final(self).wf(),
            match r {
                Some(e) => i < old(self)@.len() && (*e.0, *e.1) == old(self)@[i as int]
                    && final(self)@ == old(self)@.update(i as int, (*e.0, *final(e.1))),
                None => i >= old(self)@.len() && final(self)@ == old(self)@,
            },
    {
        proof {
            self.lemma_view();
        }
        if i < self.keys.len() {
            Some((&self.keys[i], &mut self.values[i]))
        } else {
            None
        }
    }

    /// Whether some key of the map has the description `name`.
    /// Descriptions are not unique, and keys made without one have none.
    #[must_use]
    pub fn contains_type_name(&self, name: &str) -> (r: bool)
        requires
            self.wf(),
        ensures
            r == names_of(self@).contains(name@),
    {
        proof {
            names_of(self@).index_of_first_ensures(name@);
        }
        self.get_type_by_name(name).is_some()
    }

    /// The first key of the map, in the order of insertion, that has the
    /// description `name`.
    #[must_use]
    pub fn get_type_by_name(&self, name: &str) -> (r: Option<&Type>)
        requires
            self.wf(),
        ensures
            match r {
                Some(k) => match names_of(self@).index_of_first(name@) {
                    Some(i) => 0 <= i < self@.len() && *k == self@[i].0,
                    None => false,
                },
                None => !names_of(self@).contains(name@),
            },
    {
        proof {
            self.lemma_view();
        }
        let n: usize = self.keys.len();
        let mut i: usize = 0;
        while i < n
            invariant
                self.wf(),
                n == self.keys@.len(),
                n == self@.len(),
                i <= n,
                forall|j: int| 0 <= j < self@.len() ==> #[trigger] self@[j] == (self.keys@[j], self.values@[j]),
                forall|j: int| 0 <= j < i ==> names_of(self@)[j] != name@,
            decreases n - i,
        {
            if self.keys[i].is_named(name) {
                proof {
                    assert(names_of(self@)[i as int] == name@);
                    names_of(self@).index_of_first_ensures(name@);
                }
                return Some(&self.keys[i]);
            }
            i += 1;
        }
        None
    }

    /// Stores `value` under the key of the type `K` and gives what was
    /// stored there before. A new entry gets the key described by
    /// `description`; an entry of the key keeps the key that it has.
    pub fn insert<K: 'static>(&mut self, description: &'static str, value: V) -> (r: Option<V>)
        requires
            old(self).wf(),
        ensures
            final(self).wf(),
            exists|key: Type|
                key_of::<K>(key) && key.name() == description@ && final(self)@
                    == #[trigger] inserted(old(self)@, key, value) && r == lookup(
                    old(self)@,
                    key,
                ),
    {
        let key = Type::of::<K>(description);
        self.insert_key(key, value)
    }

    /// What is stored under the key of the type `K`, if anything.
    #[must_use]
    pub fn get<K: 'static>(&self) -> (r: Option<&V>)
        requires
            self.wf(),
        ensures
            exists|key: Type|
                key_of::<K>(key) && match #[trigger] lookup(self@, key) {
                    Some(v) => r == Some(&v),
                    None => r is None,
                },
    {
        let key = Type::of::<K>("");
        let r = self.get_key(key);
        proof {
            assert(key_of::<K>(key) && match lookup(self@, key) {
                Some(v) => r == Some(&v),
                None => r is None,
            });
        }
        r
    }

    /// Access to what is stored under the key of the type `K`, if anything,
    /// to change it in place.
    pub fn get_mut<K: 'static>(&mut self) -> (r: Option<&mut V>)
        requires
            old(self).wf(),
        ensures
            final(self).wf(),
            exists|key: Type|
                key_of::<K>(key) && match r {
                    Some(v) => #[trigger] lookup(old(self)@, key) == Some(*v) && final(self)@
                        == with_value(old(self)@, key, *final(v)),
                    None => lookup(old(self)@, key) is None && final(self)@ == old(self)@,
                },
    {
        let key = Type::of::<K>("");
        self.get_key_mut(key)
    }

    /// Takes the entry of the key of the type `K` out and gives what was
    /// stored there.
    pub fn remove<K: 'static>(&mut self) -> (r: Option<V>)
        requires
            old(self).wf(),
        ensures
            final(self).wf(),
            exists|key: Type|
                key_of::<K>(key) && final(self)@ == #[trigger] removed(old(self)@, key) && r
                    == lookup(old(self)@, key),
    {
        let key = Type::of::<K>("");
        self.remove_key(key)
    }

    /// Whether there is an entry of the key of the type `K`.
    #[must_use]
    pub fn contains_key<K: 'static>(&self) -> (r: bool)
        requires
            self.wf(),
        ensures
            exists|key: Type| key_of::<K>(key) && r == #[trigger] contains(self@, key),
    {
        let key = Type::of::<K>("");
        self.has_key(key)
    }
}

impl<V: Default> Default for SingletonMap<V> {
    /// A map without entries.
    fn default() -> (r: Self)
        ensures
            r.wf(),
            r@ == Seq::<(Type, V)>::empty(),
    {
        SingletonMap::new()
    }
}

impl<V: Clone> Clone for SingletonMap<V> {
    /// A map with the same keys in the same order, and under each a clone of
    /// the value.
    fn clone(&self) -> (r: Self)
        ensures
            self.wf() ==> r.wf() && r@.len() == self@.len() && forall|i: int|
                0 <= i < self@.len() ==> (#[trigger] r@[i]).0 == self@[i].0 && cloned(
                    self@[i].1,
                    r@[i].1,
                ),
    {
        let mut keys: Vec<Type> = Vec::new();
        let mut i: usize = 0;
        while i < self.keys.len()
            invariant
                i <= self.keys@.len(),
                keys@ == self.keys@.subrange(0, i as int),
            decreases self.keys@.len() - i,
        {
            keys.push(self.keys[i]);
            assert(keys@ =~= self.keys@.subrange(0, i + 1));
            i += 1;
        }
        assert(keys@ =~= self.keys@);
        let r = SingletonMap { index: index_clone(&self.index), keys, values: self.values.clone() };
        proof {
            if self.wf() {
                self.lemma_view();
                r.lemma_view();
            }
        }
        r
    }
}

} // verus!
