//! Walks over the entries of a map, in the order of insertion, from either
//! end.

use crate::key::Type;
use crate::map::SingletonMap;
use crate::model::{keys_of, values_of};
use vstd::prelude::*;

verus! {

/// A walk over the keys of a map.
#[derive(Clone)]
pub struct Keys<'a, V> {
    map: &'a SingletonMap<V>,
    front: usize,
    back: usize,
}

impl<'a, V> View for Keys<'a, V> {
    type V = Seq<Type>;

    /// The keys that the walk has yet to yield, in order.
    closed spec fn view(&self) -> Seq<Type> {
        keys_of(self.map@).subrange(self.front as int, self.back as int)
    }
}

impl<'a, V> Keys<'a, V> {
    /// The invariant of the walk: it lies within its map.
    pub closed spec fn wf(&self) -> bool {
        self.map.wf() && self.front <= self.back <= self.map@.len()
    }

    /// The next key from the front, if any is left.
    pub fn next(&mut self) -> (r: Option<&'a Type>)
        requires
            old(self).wf(),
        ensures
            final(self).wf(),
            match r {
                Some(e) => old(self)@.len() > 0 && *e == old(self)@.first() && final(self)@
                    == old(self)@.drop_first(),
                None => old(self)@.len() == 0 && final(self)@ == old(self)@,
            },
    {
        if self.front < self.back {
            let i = self.front;
            self.front = self.front + 1;
            assert(self@ =~= old(self)@.drop_first());
            match self.map.get_index(i) {
                Some(e) => Some(e.0),
                None => None,
            }
        } else {
            None
        }
    }

    /// The next key from the back, if any is left.
    pub fn next_back(&mut self) -> (r: Option<&'a Type>)
        requires
            old(self).wf(),
        ensures
            final(self).wf(),
            match r {
                Some(e) => old(self)@.len() > 0 && *e == old(self)@.last() && final(self)@
                    == old(self)@.drop_last(),
                None => old(self)@.len() == 0 && final(self)@ == old(self)@,
            },
    {
        if self.front < self.back {
            self.back = self.back - 1;
            assert(self@ =~= old(self)@.drop_last());
            match self.map.get_index(self.back) {
                Some(e) => Some(e.0),
                None => None,
            }
        } else {
            None
        }
    }

    /// The number of keys that are left.
    #[must_use]
    pub fn len(&self) -> (r: usize)
        requires
            self.wf(),
        ensures
            r == self@.len(),
    {
        self.back - self.front
    }

    /// The bounds on the number of keys that are left: both are that
    /// number.
    #[must_use]
    pub fn size_hint(&self) -> (r: (usize, Option<usize>))
        requires
            self.wf(),
        ensures
            r.0 == self@.len(),
            r.1 == Some(r.0),
    {
        let n = self.back - self.front;
        (n, Some(n))
    }

    /// Uses the walk up and gives the number of keys that were left.
    #[must_use]
    pub fn count(self) -> (r: usize)
        requires
            self.wf(),
        ensures
            r == self@.len(),
    {
        self.back - self.front
    }

    /// Uses the walk up and gives the keys that were left, in order.
    #[must_use]
    pub fn collect(self) -> (r: Vec<&'a Type>)
        requires
            self.wf(),
        ensures
            r@.len() == self@.len(),
            forall|i: int| 0 <= i < r@.len() ==> *(#[trigger] r@[i]) == self@[i],
    {
        let mut out: Vec<&'a Type> = Vec::new();
        let mut i: usize = self.front;
        while i < self.back
            invariant
                self.wf(),
                self.front <= i <= self.back,
                out@.len() == i - self.front,
                forall|j: int| 0 <= j < out@.len() ==> *(#[trigger] out@[j]) == self@[j],
            decreases self.back - i,
        {
            match self.map.get_index(i) {
                Some(e) => {
                    out.push(e.0);
                },
                None => {},
            }
            i += 1;
        }
        out
    }
}

/// A walk over the values of a map.
#[derive(Clone)]
pub struct Values<'a, V> {
    map: &'a SingletonMap<V>,
    front: usize,
    back: usize,
}

impl<'a, V> View for Values<'a, V> {
    type V = Seq<V>;

    /// The values that the walk has yet to yield, in order.
    closed spec fn view(&self) -> Seq<V> {
        values_of(self.map@).subrange(self.front as int, self.back as int)
    }
}

impl<'a, V> Values<'a, V> {
    /// The invariant of the walk: it lies within its map.
    pub closed spec fn wf(&self) -> bool {
        self.map.wf() && self.front <= self.back <= self.map@.len()
    }

    /// The next value from the front, if any is left.
    pub fn next(&mut self) -> (r: Option<&'a V>)
        requires
            old(self).wf(),
        ensures
            final(self).wf(),
            match r {
                Some(e) => old(self)@.len() > 0 && *e == old(self)@.first() && final(self)@
                    == old(self)@.drop_first(),
                None => old(self)@.len() == 0 && final(self)@ == old(self)@,
            },
    {
        if self.front < self.back {
            let i = self.front;
            self.front = self.front + 1;
            assert(self@ =~= old(self)@.drop_first());
            match self.map.get_index(i) {
                Some(e) => Some(e.1),
                None => None,
            }
        } else {
            None
        }
    }

    /// The next value from the back, if any is left.
    pub fn next_back(&mut self) -> (r: Option<&'a V>)
        requires
            old(self).wf(),
        ensures
            final(self).wf(),
            match r {
                Some(e) => old(self)@.len() > 0 && *e == old(self)@.last() && final(self)@
                    == old(self)@.drop_last(),
                None => old(self)@.len() == 0 && final(self)@ == old(self)@,
            },
    {
        if self.front < self.back {
            self.back = self.back - 1;
            assert(self@ =~= old(self)@.drop_last());
            match self.map.get_index(self.back) {
                Some(e) => Some(e.1),
                None => None,
            }
        } else {
            None
        }
    }

    /// The number of values that are left.
    #[must_use]
    pub fn len(&self) -> (r: usize)
        requires
            self.wf(),
        ensures
            r == self@.len(),
    {
        self.back - self.front
    }

    /// The bounds on the number of values that are left: both are that
    /// number.
    #[must_use]
    pub fn size_hint(&self) -> (r: (usize, Option<usize>))
        requires
            self.wf(),
        ensures
            r.0 == self@.len(),
            r.1 == Some(r.0),
    {
        let n = self.back - self.front;
        (n, Some(n))
    }

    /// Uses the walk up and gives the number of values that were left.
    #[must_use]
    pub fn count(self) -> (r: usize)
        requires
            self.wf(),
        ensures
            r == self@.len(),
    {
        self.back - self.front
    }

    /// Uses the walk up and gives the values that were left, in order.
    #[must_use]
    pub fn collect(self) -> (r: Vec<&'a V>)
        requires
            self.wf(),
        ensures
            r@.len() == self@.len(),
            forall|i: int| 0 <= i < r@.len() ==> *(#[trigger] r@[i]) == self@[i],
    {
        let mut out: Vec<&'a V> = Vec::new();
        let mut i: usize = self.front;
        while i < self.back
            invariant
                self.wf(),
                self.front <= i <= self.back,
                out@.len() == i - self.front,
                forall|j: int| 0 <= j < out@.len() ==> *(#[trigger] out@[j]) == self@[j],
            decreases self.back - i,
        {
            match self.map.get_index(i) {
                Some(e) => {
                    out.push(e.1);
                },
                None => {},
            }
            i += 1;
        }
        out
    }
}

/// A walk over the entries of a map.
#[derive(Clone)]
pub struct Iter<'a, V> {
    map: &'a SingletonMap<V>,
    front: usize,
    back: usize,
}

impl<'a, V> View for Iter<'a, V> {
    type V = Seq<(Type, V)>;

    /// The entries that the walk has yet to yield, in order.
    closed spec fn view(&self) -> Seq<(Type, V)> {
        self.map@.subrange(self.front as int, self.back as int)
    }
}

impl<'a, V> Iter<'a, V> {
    /// The invariant of the walk: it lies within its map.
    pub closed spec fn wf(&self) -> bool {
        self.map.wf() && self.front <= self.back <= self.map@.len()
    }

    /// The next entry from the front, if any is left.
    pub fn next(&mut self) -> (r: Option<(&'a Type, &'a V)>)
        requires
            old(self).wf(),
        ensures
            final(self).wf(),
            match r {
                Some(e) => old(self)@.len() > 0 && (*e.0, *e.1) == old(self)@.first() && final(self)@
                    == old(self)@.drop_first(),
                None => old(self)@.len() == 0 && final(self)@ == old(self)@,
            },
    {
        if self.front < self.back {
            let i = self.front;
            self.front = self.front + 1;
            assert(self@ =~= old(self)@.drop_first());
            match self.map.get_index(i) {
                Some(e) => Some(e),
                None => None,
            }
        } else {
            None
        }
    }

    /// The next entry from the back, if any is left.
    pub fn next_back(&mut self) -> (r: Option<(&'a Type, &'a V)>)
        requires
            old(self).wf(),
        ensures
            final(self).wf(),
            match r {
                Some(e) => old(self)@.len() > 0 && (*e.0, *e.1) == old(self)@.last() && final(self)@
                    == old(self)@.drop_last(),
                None => old(self)@.len() == 0 && final(self)@ == old(self)@,
            },
    {
        if self.front < self.back {
            self.back = self.back - 1;
            assert(self@ =~= old(self)@.drop_last());
            match self.map.get_index(self.back) {
                Some(e) => Some(e),
                None => None,
            }
        } else {
            None
        }
    }

    /// The number of entries that are left.
    #[must_use]
    pub fn len(&self) -> (r: usize)
        requires
            self.wf(),
        ensures
            r == self@.len(),
    {
        self.back - self.front
    }

    /// The bounds on the number of entries that are left: both are that
    /// number.
    #[must_use]
    pub fn size_hint(&self) -> (r: (usize, Option<usize>))
        requires
            self.wf(),
        ensures
            r.0 == self@.len(),
            r.1 == Some(r.0),
    {
        let n = self.back - self.front;
        (n, Some(n))
    }

    /// Uses the walk up and gives the number of entries that were left.
    #[must_use]
    pub fn count(self) -> (r: usize)
        requires
            self.wf(),
        ensures
            r == self@.len(),
    {
        self.back - self.front
    }

    /// Uses the walk up and gives the entries that were left, in order.
    #[must_use]
    pub fn collect(self) -> (r: Vec<(&'a Type, &'a V)>)
        requires
            self.wf(),
        ensures
            r@.len() == self@.len(),
            forall|i: int| 0 <= i < r@.len() ==> (*(#[trigger] r@[i]).0, *(#[trigger] r@[i]).1) == self@[i],
    {
        let mut out: Vec<(&'a Type, &'a V)> = Vec::new();
        let mut i: usize = self.front;
        while i < self.back
            invariant
                self.wf(),
                self.front <= i <= self.back,
                out@.len() == i - self.front,
                forall|j: int| 0 <= j < out@.len() ==> (*(#[trigger] out@[j]).0, *(#[trigger] out@[j]).1) == self@[j],
            decreases self.back - i,
        {
            match self.map.get_index(i) {
                Some(e) => {
                    out.push(e);
                },
                None => {},
            }
            i += 1;
        }
        out
    }
}

impl<V> SingletonMap<V> {
    /// A walk over the keys, in the order of insertion.
    #[must_use]
    pub fn keys(&self) -> (r: Keys<'_, V>)
        requires
            self.wf(),
        ensures
            r.wf(),
            r@ == keys_of(self@),
    {
        let r = Keys { map: self, front: 0, back: self.len() };
        assert(r@ =~= keys_of(self@));
        r
    }

    /// A walk over the values, in the order of insertion.
    #[must_use]
    pub fn values(&self) -> (r: Values<'_, V>)
        requires
            self.wf(),
        ensures
            r.wf(),
            r@ == values_of(self@),
    {
        let r = Values { map: self, front: 0, back: self.len() };
        assert(r@ =~= values_of(self@));
        r
    }

    /// A walk over the entries, in the order of insertion.
    #[must_use]
    pub fn iter(&self) -> (r: Iter<'_, V>)
        requires
            self.wf(),
        ensures
            r.wf(),
            r@ == self@,
    {
        let r = Iter { map: self, front: 0, back: self.len() };
        assert(r@ =~= self@);
        r
    }
}

/// A walk over the values of a map that lends each value out to be changed
/// in place. It holds the map until it is dropped; the keys and their order
/// stay as they are.
pub struct ValuesMut<'a, V> {
    /// The map that is walked.
    pub map: &'a mut SingletonMap<V>,
    /// The place of the next entry from the front.
    pub front: usize,
    /// The place behind the next entry from the back.
    pub back: usize,
}

impl<'a, V> ValuesMut<'a, V> {
    /// The invariant of the walk: it lies within its map.
    pub open spec fn wf(&self) -> bool {
        self.map.wf() && self.front <= self.back <= self.map@.len()
    }

    /// The values that the walk has yet to yield, in order.
    pub open spec fn remaining(&self) -> Seq<V> {
        values_of(self.map@).subrange(self.front as int, self.back as int)
    }

    /// The next value from the front, if any is left.
    pub fn next(&mut self) -> (r: Option<&mut V>)
        requires
            old(self).wf(),
        ensures
            final(self).wf(),
            *final(final(self).map) == *final(old(self).map),
            final(self).back == old(self).back,
            match r {
                Some(v) => old(self).front < old(self).back && final(self).front == old(self).front + 1 && *v == old(self).map@[old(self).front as int].1 && final(self).map@ == old(self).map@.update(
                    old(self).front as int,
                    (old(self).map@[old(self).front as int].0, *final(v)),
                ),
                None => old(self).front == old(self).back && final(self).front == old(self).front && final(self).map@ == old(self).map@,
            },
    {
        if self.front < self.back {
            let i = self.front;
            self.front = self.front + 1;
            match self.map.get_index_mut(i) {
                Some(e) => Some(e.1),
                None => None,
            }
        } else {
            None
        }
    }

    /// The next value from the back, if any is left.
    pub fn next_back(&mut self) -> (r: Option<&mut V>)
        requires
            old(self).wf(),
        ensures
            final(self).wf(),
            *final(final(self).map) == *final(old(self).map),
            final(self).front == old(self).front,
            match r {
                Some(v) => old(self).front < old(self).back && final(self).back == old(self).back - 1 && *v == old(self).map@[old(self).back - 1].1 && final(self).map@
                    == old(self).map@.update(
                    old(self).back - 1,
                    (old(self).map@[old(self).back - 1].0, *final(v)),
                ),
                None => old(self).front == old(self).back && final(self).back == old(self).back
                    && final(self).map@ == old(self).map@,
            },
    {
        if self.front < self.back {
            self.back = self.back - 1;
            let i = self.back;
            match self.map.get_index_mut(i) {
                Some(e) => Some(e.1),
                None => None,
            }
        } else {
            None
        }
    }

    /// The number of values that are left.
    #[must_use]
    pub fn len(&self) -> (r: usize)
        requires
            self.wf(),
        ensures
            r == self.remaining().len(),
    {
        self.back - self.front
    }

    /// The bounds on the number of values that are left: both are that
    /// number.
    #[must_use]
    pub fn size_hint(&self) -> (r: (usize, Option<usize>))
        requires
            self.wf(),
        ensures
            r.0 == self.remaining().len(),
            r.1 == Some(r.0),
    {
        let n = self.back - self.front;
        (n, Some(n))
    }
}

/// A walk over the entries of a map that lends each value out to be changed
/// in place, beside its key. It holds the map until it is dropped; the keys
/// and their order stay as they are.
pub struct IterMut<'a, V> {
    /// The map that is walked.
    pub map: &'a mut SingletonMap<V>,
    /// The place of the next entry from the front.
    pub front: usize,
    /// The place behind the next entry from the back.
    pub back: usize,
}

impl<'a, V> IterMut<'a, V> {
    /// The invariant of the walk: it lies within its map.
    pub open spec fn wf(&self) -> bool {
        self.map.wf() && self.front <= self.back <= self.map@.len()
    }

    /// The entries that the walk has yet to yield, in order.
    pub open spec fn remaining(&self) -> Seq<(Type, V)> {
        self.map@.subrange(self.front as int, self.back as int)
    }

    /// The next entry from the front, if any is left.
    pub fn next(&mut self) -> (r: Option<(&Type, &mut V)>)
        requires
            old(self).wf(),
        ensures
            final(self).wf(),
            *final(final(self).map) == *final(old(self).map),
            final(self).back == old(self).back,
            match r {
                Some(e) => old(self).front < old(self).back && final(self).front == old(self).front + 1 && (*e.0, *e.1) == old(self).map@[old(self).front as int] && final(self).map@ == old(self).map@.update(old(self).front as int, (*e.0, *final(e.1))),
                None => old(self).front == old(self).back && final(self).front == old(self).front && final(self).map@ == old(self).map@,
            },
    {
        if self.front < self.back {
            let i = self.front;
            self.front = self.front + 1;
            self.map.get_index_mut(i)
        } else {
            None
        }
    }

    /// The next entry from the back, if any is left.
    pub fn next_back(&mut self) -> (r: Option<(&Type, &mut V)>)
        requires
            old(self).wf(),
        ensures
            final(self).wf(),
            *final(final(self).map) == *final(old(self).map),
            final(self).front == old(self).front,
            match r {
                Some(e) => old(self).front < old(self).back && final(self).back == old(self).back - 1 && (*e.0, *e.1) == old(self).map@[old(self).back - 1] && final(self).map@ == old(self).map@.update(old(self).back - 1, (*e.0, *final(e.1))),
                None => old(self).front == old(self).back && final(self).back == old(self).back
                    && final(self).map@ == old(self).map@,
            },
    {
        if self.front < self.back {
            self.back = self.back - 1;
            let i = self.back;
            self.map.get_index_mut(i)
        } else {
            None
        }
    }

    /// The number of entries that are left.
    #[must_use]
    pub fn len(&self) -> (r: usize)
        requires
            self.wf(),
        ensures
            r == self.remaining().len(),
    {
        self.back - self.front
    }

    /// The bounds on the number of entries that are left: both are that
    /// number.
    #[must_use]
    pub fn size_hint(&self) -> (r: (usize, Option<usize>))
        requires
            self.wf(),
        ensures
            r.0 == self.remaining().len(),
            r.1 == Some(r.0),
    {
        let n = self.back - self.front;
        (n, Some(n))
    }
}

impl<V> SingletonMap<V> {
    /// A walk over the values, in the order of insertion, that lends each
    /// out to be changed in place.
    pub fn values_mut(&mut self) -> (r: ValuesMut<'_, V>)
        requires
            old(self).wf(),
        ensures
            r.wf(),
            r.front == 0,
            r.back == old(self)@.len(),
            *r.map == *old(self),
            *final(r.map) == *final(self),
    {
        let back = self.len();
        ValuesMut { map: self, front: 0, back }
    }

    /// A walk over the entries, in the order of insertion, that lends each
    /// value out to be changed in place.
    pub fn iter_mut(&mut self) -> (r: IterMut<'_, V>)
        requires
            old(self).wf(),
        ensures
            r.wf(),
            r.front == 0,
            r.back == old(self)@.len(),
            *r.map == *old(self),
            *final(r.map) == *final(self),
    {
        let back = self.len();
        IterMut { map: self, front: 0, back }
    }
}

} // verus!
