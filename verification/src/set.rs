//! A set that holds at most one value of each type, in the order of
//! insertion. The type of a value is its key.

use crate::casting::{Downcast, IntoBox, LocalAny, SendAny, SyncAny};
use crate::iter::Keys;
use crate::key::{key_of, Type};
use crate::map::{ReserveError, SingletonMap};
use crate::model::{
    contains, distinct, inserted, keys_of, lemma_inserted, lemma_removed, lemma_with_value,
    lookup, place, removed, with_value,
};
use vstd::pervasive::unreached;
use vstd::prelude::*;

verus! {

/// Each handle holds a value of the type that its key stands for.
pub open spec fn matched<A: Downcast>(s: Seq<(Type, A)>) -> bool {
    forall|i: int| 0 <= i < s.len() ==> (#[trigger] s[i]).1.identity() == s[i].0.identity()
}

/// A set of values of different types, at most one of each. The values are
/// stored in handles of the kind `A`, which decides what types the set
/// takes: any type, only types that can be sent to another thread, or only
/// types that can also be shared between threads.
pub struct SingletonSet<A: Downcast = LocalAny> {
    entries: SingletonMap<A>,
}

impl<A: Downcast> View for SingletonSet<A> {
    type V = Seq<(Type, A)>;

    /// The entries of the set: each key with the handle of its value.
    closed spec fn view(&self) -> Seq<(Type, A)> {
        self.entries@
    }
}

impl SingletonSet<LocalAny> {
    /// A set without values, for values of any type. It stays on the thread
    /// that made it.
    #[must_use]
    pub fn new() -> (r: Self)
        ensures
            r.wf(),
            r@ == Seq::<(Type, LocalAny)>::empty(),
    {
        SingletonSet { entries: SingletonMap::new() }
    }

    /// A set without values, for values of any type. It stays on the thread
    /// that made it.
    #[must_use]
    pub fn new_local() -> (r: Self)
        ensures
            r.wf(),
            r@ == Seq::<(Type, LocalAny)>::empty(),
    {
        SingletonSet { entries: SingletonMap::new() }
    }
}

impl SingletonSet<SendAny> {
    /// A set without values, for values that can be sent to another thread,
    /// as the set then can.
    #[must_use]
    pub fn new_shared() -> (r: Self)
        ensures
            r.wf(),
            r@ == Seq::<(Type, SendAny)>::empty(),
    {
        SingletonSet { entries: SingletonMap::new() }
    }
}

impl SingletonSet<SyncAny> {
    /// A set without values, for values that can be sent to another thread
    /// and shared between threads, as the set then can.
    #[must_use]
    pub fn new_unsync() -> (r: Self)
        ensures
            r.wf(),
            r@ == Seq::<(Type, SyncAny)>::empty(),
    {
        SingletonSet { entries: SingletonMap::new() }
    }
}

impl<A: Downcast> SingletonSet<A> {
    /// The invariant of the set: no two entries have the same key, and each
    /// handle holds a value of the type that its key stands for.
    pub closed spec fn wf(&self) -> bool {
        self.entries.wf() && matched(self.entries@)
    }

    /// In a well-formed set no two entries have the same key, and each
    /// handle holds a value of the type of its key.
    pub proof fn lemma_wf(&self)
        requires
            self.wf(),
        ensures
            distinct(self@),
            matched(self@),
    {
        self.entries.lemma_distinct();
    }

    /// The number of values.
    #[must_use]
    pub fn len(&self) -> (r: usize)
        requires
            self.wf(),
        ensures
            r == self@.len(),
    {
        self.entries.len()
    }

    /// Whether the set has no values.
    #[must_use]
    pub fn is_empty(&self) -> (r: bool)
        requires
            self.wf(),
        ensures
            r == (self@.len() == 0),
    {
        self.entries.is_empty()
    }

    /// Takes all values out.
    pub fn clear(&mut self)
        requires
            old(self).wf(),
        ensures
            final(self).wf(),
            final(self)@ == Seq::<(Type, A)>::empty(),
    {
        self.entries.clear();
    }

    /// The number of values that the set can hold without allocating.
    #[must_use]
    pub fn capacity(&self) -> (r: usize)
        requires
            self.wf(),
        ensures
            r >= self@.len(),
    {
        self.entries.capacity()
    }

    /// Sets room aside for at least `additional` more values.
    pub fn reserve(&mut self, additional: usize)
        requires
            old(self).wf(),
        ensures
            final(self).wf(),
            final(self)@ == old(self)@,
    {
        self.entries.reserve(additional);
    }

    /// Tries to set room aside for at least `additional` more values. The
    /// values stay as they are, whether that succeeds or not.
    pub fn try_reserve(&mut self, additional: usize) -> (r: Result<(), ReserveError>)
        requires
            old(self).wf(),
        ensures
            final(self).wf(),
            final(self)@ == old(self)@,
    {
        self.entries.try_reserve(additional)
    }

    /// Gives back as much of the spare room as possible.
    pub fn shrink_to_fit(&mut self)
        requires
            old(self).wf(),
        ensures
            final(self).wf(),
            final(self)@ == old(self)@,
    {
        self.entries.shrink_to_fit();
    }

    /// Gives back spare room, but keeps room for `min_capacity` values.
    pub fn shrink_to(&mut self, min_capacity: usize)
        requires
            old(self).wf(),
        ensures
            final(self).wf(),
            final(self)@ == old(self)@,
    {
        self.entries.shrink_to(min_capacity);
    }

    /// Whether the set has a value under `key`.
    #[must_use]
    pub fn contains_key(&self, key: Type) -> (r: bool)
        requires
            self.wf(),
        ensures
            r == contains(self@, key),
    {
        self.entries.has_key(key)
    }

    /// Whether the set has a value of the type `T`.
    #[must_use]
    pub fn contains<T: 'static>(&self) -> (r: bool)
        requires
            self.wf(),
        ensures
            exists|key: Type| key_of::<T>(key) && r == #[trigger] contains(self@, key),
    {
        let key = Type::of::<T>("");
        let r = self.entries.has_key(key);
        proof {
            assert(r == contains(self@, key));
        }
        r
    }

    /// A walk over the types of the values, in the order of insertion.
    #[must_use]
    pub fn types(&self) -> (r: Keys<'_, A>)
        requires
            self.wf(),
        ensures
            r.wf(),
            r@ == keys_of(self@),
    {
        self.entries.keys()
    }

    /// The handle under `key`, if the set has one.
    #[must_use]
    pub fn get_handle(&self, key: Type) -> (r: Option<&A>)
        requires
            self.wf(),
        ensures
            match r {
                Some(handle) => lookup(self@, key) == Some(*handle) && handle.identity()
                    == key.identity(),
                None => lookup(self@, key) is None,
            },
    {
        proof {
            self.entries.lemma_distinct();
            if contains(self.entries@, key) {
                assert(self.entries@[place(self.entries@, key)].0.same(key));
            }
        }
        self.entries.get_key(key)
    }

    /// Stores a handle under a key of the type of the value that it holds,
    /// and gives the handle that was stored there before.
    fn store(&mut self, key: Type, handle: A) -> (r: Option<A>)
        requires
            old(self).wf(),
            key.identity() == handle.identity(),
        ensures
            final(self).wf(),
            final(self)@ == inserted(old(self)@, key, handle),
            r == lookup(old(self)@, key),
    {
        proof {
            self.entries.lemma_distinct();
            lemma_inserted(self.entries@, key, handle);
            if contains(self.entries@, key) {
                lemma_with_value(self.entries@, key, handle);
            }
        }
        let r = self.entries.insert_key(key, handle);
        proof {
            let before = old(self).entries@;
            let after = self.entries@;
            assert forall|i: int| 0 <= i < after.len() implies (#[trigger] after[i]).1.identity()
                == after[i].0.identity() by {
                if contains(before, key) {
                    let p = place(before, key);
                    if i != p {
                        assert(after[i] == before[i]);
                    }
                } else {
                    if i < before.len() {
                        assert(after[i] == before[i]);
                    }
                }
            }
        }
        r
    }

    /// Stores a handle under the key of the type of the value that it
    /// holds, and gives the handle that was stored there before. A new
    /// entry gets the key described by `description`; an entry of the key
    /// keeps the key that it has.
    pub fn insert_handle(&mut self, description: &'static str, handle: A) -> (r: Option<A>)
        requires
            old(self).wf(),
        ensures
            final(self).wf(),
            exists|key: Type|
                key.identity() == handle.identity() && key.name() == description@ && final(self)@ == #[trigger] inserted(old(self)@, key, handle) && r == lookup(
                    old(self)@,
                    key,
                ),
    {
        let key = Type::from_id(handle.type_id(), description);
        let r = self.store(key, handle);
        proof {
            assert(self@ == inserted(old(self)@, key, handle));
        }
        r
    }

    /// Takes the handle under `key` out of the set. The entries behind it
    /// move up by one and keep their order.
    pub fn remove_handle(&mut self, key: Type) -> (r: Option<A>)
        requires
            old(self).wf(),
        ensures
            final(self).wf(),
            final(self)@ == removed(old(self)@, key),
            r == lookup(old(self)@, key),
            match r {
                Some(handle) => handle.identity() == key.identity(),
                None => true,
            },
    {
        proof {
            self.entries.lemma_distinct();
            lemma_removed(self.entries@, key);
        }
        let r = self.entries.remove_key(key);
        proof {
            let before = old(self).entries@;
            let after = self.entries@;
            if contains(before, key) {
                let p = place(before, key);
                assert(before[p].0.same(key));
                assert forall|i: int| 0 <= i < after.len() implies (#[trigger] after[i]).1.identity()
                    == after[i].0.identity() by {
                    if i < p {
                        assert(after[i] == before[i]);
                    } else {
                        assert(after[i] == before[i + 1]);
                    }
                }
            }
        }
        r
    }

    /// Stores `value` in the set and gives the value of the same type that
    /// was stored before: what the cast to `T` makes of the handle that
    /// stood under the key. A new entry gets the key described by
    /// `description`; an entry of the key keeps the key that it has.
    pub fn insert<T: IntoBox<A>>(&mut self, description: &'static str, value: T) -> (r: Option<T>)
        requires
            old(self).wf(),
        ensures
            final(self).wf(),
            exists|key: Type, handle: A|
                {
                    &&& key_of::<T>(key)
                    &&& key.name() == description@
                    &&& T::into_box.ensures((value,), handle)
                    &&& key.identity() == handle.identity()
                    &&& final(self)@ == #[trigger] inserted(old(self)@, key, handle)
                    &&& match lookup(old(self)@, key) {
                        Some(before) => exists|cast: Result<Box<T>, A>|
                            #[trigger] A::downcast_box::<T>.ensures((before,), cast) && r == (
                            match cast {
                                Ok(boxed) => Some(*boxed),
                                Err(_) => None,
                            }),
                        None => r is None,
                    }
                },
    {
        let key = Type::of::<T>(description);
        let handle = value.into_box();
        match self.store(key, handle) {
            Some(before) => match A::downcast_box::<T>(before) {
                Ok(boxed) => Some(*boxed),
                Err(_) => None,
            },
            None => None,
        }
    }

    /// The value of the type `T`, if the set has one: what the cast to `T`
    /// makes of the handle under the key.
    #[must_use]
    pub fn try_get<T: 'static>(&self) -> (r: Option<&T>)
        requires
            self.wf(),
        ensures
            exists|key: Type|
                key_of::<T>(key) && match #[trigger] lookup(self@, key) {
                    Some(handle) => A::downcast_ref::<T>.ensures((&handle,), r),
                    None => r is None,
                },
    {
        let key = Type::of::<T>("");
        let r = match self.entries.get_key(key) {
            Some(handle) => handle.downcast_ref::<T>(),
            None => None,
        };
        proof {
            assert(key_of::<T>(key) && match lookup(self@, key) {
                Some(handle) => A::downcast_ref::<T>.ensures((&handle,), r),
                None => r is None,
            });
        }
        r
    }

    /// The value of the type `T`, for a caller that knows the set to have
    /// one: what the cast to `T` makes of the handle under the key.
    #[must_use]
    pub fn get<T: 'static>(&self) -> (r: &T)
        requires
            self.wf(),
            forall|key: Type| key_of::<T>(key) ==> contains(self@, key),
        ensures
            exists|key: Type|
                key_of::<T>(key) && match #[trigger] lookup(self@, key) {
                    Some(handle) => A::downcast_ref::<T>.ensures((&handle,), Some(r)),
                    None => false,
                },
    {
        let key = Type::of::<T>("");
        proof {
            self.entries.lemma_distinct();
            assert(key_of::<T>(key));
            assert(contains(self@, key));
            assert(self.entries@[place(self.entries@, key)].0.same(key));
        }
        match self.entries.get_key(key) {
            Some(handle) => {
                let r = handle.downcast_ref::<T>();
                proof {
                    assert(lookup(self@, key) == Some(*handle));
                }
                match r {
                    Some(value) => value,
                    None => unreached(),
                }
            },
            None => unreached(),
        }
    }

    /// The value of the type `T`, if the set has one, to be changed in
    /// place: what the cast to `T` makes of the handle under the key. The
    /// keys and their order stay as they are.
    pub fn get_mut<T: 'static>(&mut self) -> (r: Option<&mut T>)
        requires
            old(self).wf(),
        ensures
            final(self).wf(),
            keys_of(final(self)@) == keys_of(old(self)@),
            exists|key: Type|
                key_of::<T>(key) && match #[trigger] lookup(old(self)@, key) {
                    Some(before) => exists|handle: &mut A|
                        *handle == before && #[trigger] A::downcast_mut::<T>.ensures(
                            (handle,),
                            r,
                        ) && final(self)@ == with_value(old(self)@, key, *final(handle)),
                    None => r is None && final(self)@ == old(self)@,
                },
    {
        let key = Type::of::<T>("");
        proof {
            self.entries.lemma_distinct();
            let before = old(self).entries@;
            assert forall|handle: A| handle.identity() == key.identity() implies matched(
                #[trigger] with_value(before, key, handle),
            ) && keys_of(with_value(before, key, handle)) == keys_of(before) by {
                lemma_with_value(before, key, handle);
                let after = with_value(before, key, handle);
                assert forall|i: int| 0 <= i < after.len() implies (#[trigger] after[i]).1.identity()
                    == after[i].0.identity() by {
                    if contains(before, key) && i == place(before, key) {
                    } else {
                        assert(after[i] == before[i]);
                    }
                }
            }
            if contains(before, key) {
                assert(before[place(before, key)].0.same(key));
            }
            assert(lookup(old(self)@, key) == lookup(before, key));
        }
        match self.entries.get_key_mut(key) {
            Some(handle) => handle.downcast_mut::<T>(),
            None => None,
        }
    }

    /// Takes the value of the type `T` out of the set, if it has one: what
    /// the cast to `T` makes of the handle that stood under the key. The
    /// entries behind it move up by one and keep their order.
    pub fn remove<T: 'static>(&mut self) -> (r: Option<T>)
        requires
            old(self).wf(),
        ensures
            final(self).wf(),
            exists|key: Type|
                {
                    &&& key_of::<T>(key)
                    &&& final(self)@ == #[trigger] removed(old(self)@, key)
                    &&& match lookup(old(self)@, key) {
                        Some(before) => exists|cast: Result<Box<T>, A>|
                            #[trigger] A::downcast_box::<T>.ensures((before,), cast) && r == (
                            match cast {
                                Ok(boxed) => Some(*boxed),
                                Err(_) => None,
                            }),
                        None => r is None,
                    }
                },
    {
        let key = Type::of::<T>("");
        match self.remove_handle(key) {
            Some(handle) => match A::downcast_box::<T>(handle) {
                Ok(boxed) => Some(*boxed),
                Err(_) => None,
            },
            None => None,
        }
    }
}

} // verus!
