//! The mathematical model of the containers: a sequence of entries, each a
//! key and what is stored under it, in the order of insertion.

use crate::key::Type;
use std::any::TypeId;
use vstd::prelude::*;

verus! {

/// The identities of the keys, entry by entry.
pub open spec fn identities<V>(s: Seq<(Type, V)>) -> Seq<TypeId> {
    s.map_values(|e: (Type, V)| e.0.identity())
}

/// The keys, entry by entry.
pub open spec fn keys_of<V>(s: Seq<(Type, V)>) -> Seq<Type> {
    s.map_values(|e: (Type, V)| e.0)
}

/// The stored values, entry by entry.
pub open spec fn values_of<V>(s: Seq<(Type, V)>) -> Seq<V> {
    s.map_values(|e: (Type, V)| e.1)
}

/// The descriptions of the keys, entry by entry.
pub open spec fn names_of<V>(s: Seq<(Type, V)>) -> Seq<Seq<char>> {
    s.map_values(|e: (Type, V)| e.0.name())
}

/// No two entries have the same key.
pub open spec fn distinct<V>(s: Seq<(Type, V)>) -> bool {
    forall|i: int, j: int|
        0 <= i < j < s.len() ==> !(#[trigger] s[i]).0.same((#[trigger] s[j]).0)
}

/// Whether there is an entry of `key`.
pub open spec fn contains<V>(s: Seq<(Type, V)>, key: Type) -> bool {
    exists|i: int| 0 <= i < s.len() && (#[trigger] s[i]).0.same(key)
}

/// The place of an entry of `key`; among distinct entries, of the one
/// entry of it. It means nothing where the key has no entry.
pub open spec fn place<V>(s: Seq<(Type, V)>, key: Type) -> int {
    choose|i: int| 0 <= i < s.len() && (#[trigger] s[i]).0.same(key)
}

/// Where the entry of `key` stands, if there is one.
pub open spec fn position<V>(s: Seq<(Type, V)>, key: Type) -> Option<int> {
    if contains(s, key) {
        Some(place(s, key))
    } else {
        None
    }
}

/// What is stored under `key`, if anything.
pub open spec fn lookup<V>(s: Seq<(Type, V)>, key: Type) -> Option<V> {
    if contains(s, key) {
        Some(s[place(s, key)].1)
    } else {
        None
    }
}

/// The entries after the value under `key` is replaced by `value`: the entry
/// keeps its place and its key. Without an entry of the key nothing changes.
pub open spec fn with_value<V>(s: Seq<(Type, V)>, key: Type, value: V) -> Seq<(Type, V)> {
    if contains(s, key) {
        s.update(place(s, key), (s[place(s, key)].0, value))
    } else {
        s
    }
}

/// The entries after `value` is stored under `key`: an entry of the key keeps
/// its place and its key and takes the value; otherwise a new entry goes to
/// the end.
pub open spec fn inserted<V>(s: Seq<(Type, V)>, key: Type, value: V) -> Seq<(Type, V)> {
    if contains(s, key) {
        with_value(s, key, value)
    } else {
        s.push((key, value))
    }
}

/// The entries after the entry of `key` is taken out: those behind it move up
/// by one and keep their order.
pub open spec fn removed<V>(s: Seq<(Type, V)>, key: Type) -> Seq<(Type, V)> {
    if contains(s, key) {
        s.remove(place(s, key))
    } else {
        s
    }
}

/// The entries after `default` is stored under `key` unless the key has an
/// entry already.
pub open spec fn ensured<V>(s: Seq<(Type, V)>, key: Type, default: V) -> Seq<(Type, V)> {
    if contains(s, key) {
        s
    } else {
        s.push((key, default))
    }
}

/// Among distinct entries a key has one place: wherever an entry of it is
/// found, that is it.
pub proof fn lemma_place<V>(s: Seq<(Type, V)>, key: Type, i: int)
    requires
        distinct(s),
        0 <= i < s.len(),
        s[i].0.same(key),
    ensures
        contains(s, key),
        place(s, key) == i,
        position(s, key) == Some(i),
        lookup(s, key) == Some(s[i].1),
{
    let p = place(s, key);
    assert(0 <= p < s.len() && s[p].0.same(key));
    if p < i {
        assert(!s[p].0.same(s[i].0));
    } else if i < p {
        assert(!s[i].0.same(s[p].0));
    }
}

/// The entries are distinct exactly when their identities hold no
/// duplicate.
pub proof fn lemma_distinct_identities<V>(s: Seq<(Type, V)>)
    ensures
        distinct(s) == identities(s).no_duplicates(),
{
    let ids = identities(s);
    if distinct(s) {
        assert forall|i: int, j: int|
            0 <= i < ids.len() && 0 <= j < ids.len() && i != j implies ids[i] != ids[j] by {
            if i < j {
                assert(!s[i].0.same(s[j].0));
            } else {
                assert(!s[j].0.same(s[i].0));
            }
        }
    }
    if ids.no_duplicates() {
        assert forall|i: int, j: int| 0 <= i < j < s.len() implies !(#[trigger] s[i]).0.same(
            (#[trigger] s[j]).0,
        ) by {
            assert(ids[i] != ids[j]);
        }
    }
}

/// A key has an entry exactly when its identity is among the identities of
/// the entries.
pub proof fn lemma_contains_identity<V>(s: Seq<(Type, V)>, key: Type)
    ensures
        contains(s, key) == identities(s).contains(key.identity()),
{
    let ids = identities(s);
    if contains(s, key) {
        let i = place(s, key);
        assert(ids[i] == key.identity());
    }
    if ids.contains(key.identity()) {
        let i = choose|i: int| 0 <= i < ids.len() && ids[i] == key.identity();
        assert(s[i].0.same(key));
    }
}

/// Replacing the value under a key changes neither the keys nor their
/// order, and the other values stay.
pub proof fn lemma_with_value<V>(s: Seq<(Type, V)>, key: Type, value: V)
    requires
        distinct(s),
    ensures
        distinct(with_value(s, key, value)),
        keys_of(with_value(s, key, value)) == keys_of(s),
        with_value(s, key, value).len() == s.len(),
        contains(s, key) ==> lookup(with_value(s, key, value), key) == Some(value),
        forall|other: Type|
            contains(with_value(s, key, value), other) == #[trigger] contains(s, other),
        forall|other: Type|
            !other.same(key) ==> #[trigger] lookup(with_value(s, key, value), other) == lookup(
                s,
                other,
            ),
{
    let t = with_value(s, key, value);
    assert(keys_of(t) =~= keys_of(s));
    assert forall|i: int| 0 <= i < s.len() implies (#[trigger] t[i]).0 == s[i].0 by {}
    assert forall|i: int, j: int| 0 <= i < j < t.len() implies !(#[trigger] t[i]).0.same(
        (#[trigger] t[j]).0,
    ) by {
        assert(!s[i].0.same(s[j].0));
    }
    assert forall|other: Type| contains(t, other) == #[trigger] contains(s, other) by {
        if contains(s, other) {
            let i = place(s, other);
            assert(t[i].0.same(other));
        }
        if contains(t, other) {
            let i = place(t, other);
            assert(s[i].0.same(other));
        }
    }
    if contains(s, key) {
        let p = place(s, key);
        assert(t[p].0.same(key));
        lemma_place(t, key, p);
    }
    assert forall|other: Type| !other.same(key) implies #[trigger] lookup(t, other) == lookup(
        s,
        other,
    ) by {
        if contains(s, other) {
            let i = place(s, other);
            assert(t[i].0.same(other));
            lemma_place(t, other, i);
        }
    }
}

/// After a value is stored under a key, the key has an entry with that
/// value; the other keys keep their entries, and the order of the keys that
/// were there stays.
pub proof fn lemma_inserted<V>(s: Seq<(Type, V)>, key: Type, value: V)
    requires
        distinct(s),
    ensures
        distinct(inserted(s, key, value)),
        contains(inserted(s, key, value), key),
        lookup(inserted(s, key, value), key) == Some(value),
        contains(s, key) ==> inserted(s, key, value).len() == s.len() && keys_of(
            inserted(s, key, value),
        ) == keys_of(s),
        !contains(s, key) ==> inserted(s, key, value).len() == s.len() + 1 && keys_of(
            inserted(s, key, value),
        ) == keys_of(s).push(key),
        forall|other: Type|
            !other.same(key) ==> #[trigger] lookup(inserted(s, key, value), other) == lookup(
                s,
                other,
            ),
        forall|other: Type|
            !other.same(key) ==> #[trigger] contains(inserted(s, key, value), other) == contains(
                s,
                other,
            ),
{
    let t = inserted(s, key, value);
    if contains(s, key) {
        lemma_with_value(s, key, value);
    } else {
        assert(keys_of(t) =~= keys_of(s).push(key));
        assert forall|i: int, j: int| 0 <= i < j < t.len() implies !(#[trigger] t[i]).0.same(
            (#[trigger] t[j]).0,
        ) by {
            assert(t[i] == s[i]);
            if j < s.len() {
                assert(t[j] == s[j]);
                assert(!s[i].0.same(s[j].0));
            }
        }
        assert(t[s.len() as int].0.same(key));
        lemma_place(t, key, s.len() as int);
        assert forall|other: Type| !other.same(key) implies #[trigger] contains(t, other)
            == contains(s, other) by {
            if contains(s, other) {
                let i = place(s, other);
                assert(t[i].0.same(other));
            }
            if contains(t, other) {
                let i = place(t, other);
                assert(s[i].0.same(other));
            }
        }
        assert forall|other: Type| !other.same(key) implies #[trigger] lookup(t, other)
            == lookup(s, other) by {
            if contains(s, other) {
                let i = place(s, other);
                assert(t[i] == s[i]);
                lemma_place(t, other, i);
            }
        }
    }
}

/// After the entry of a key is taken out, the key has none; the other keys
/// keep their entries.
pub proof fn lemma_removed<V>(s: Seq<(Type, V)>, key: Type)
    requires
        distinct(s),
    ensures
        distinct(removed(s, key)),
        !contains(removed(s, key), key),
        lookup(removed(s, key), key) is None,
        contains(s, key) ==> removed(s, key).len() == s.len() - 1,
        !contains(s, key) ==> removed(s, key) == s,
        forall|other: Type|
            !other.same(key) ==> #[trigger] lookup(removed(s, key), other) == lookup(s, other),
        forall|other: Type|
            !other.same(key) ==> #[trigger] contains(removed(s, key), other) == contains(
                s,
                other,
            ),
{
    let t = removed(s, key);
    if contains(s, key) {
        let p = place(s, key);
        let from = |j: int|
            if j < p {
                j
            } else {
                j + 1
            };
        assert forall|j: int| 0 <= j < t.len() implies #[trigger] t[j] == s[from(j)] by {}
        assert forall|i: int, j: int| 0 <= i < j < t.len() implies !(#[trigger] t[i]).0.same(
            (#[trigger] t[j]).0,
        ) by {
            assert(t[i] == s[from(i)] && t[j] == s[from(j)]);
            assert(!s[from(i)].0.same(s[from(j)].0));
        }
        assert forall|j: int| 0 <= j < t.len() implies !(#[trigger] t[j]).0.same(key) by {
            assert(t[j] == s[from(j)]);
            if from(j) < p {
                assert(!s[from(j)].0.same(s[p].0));
            } else {
                assert(!s[p].0.same(s[from(j)].0));
            }
        }
        assert forall|other: Type| !other.same(key) implies #[trigger] contains(t, other)
            == contains(s, other) by {
            if contains(s, other) {
                let a = place(s, other);
                let b = if a < p {
                    a
                } else {
                    a - 1
                };
                assert(t[b] == s[from(b)]);
                assert(t[b].0.same(other));
            }
            if contains(t, other) {
                let b = place(t, other);
                assert(t[b] == s[from(b)]);
                assert(s[from(b)].0.same(other));
            }
        }
        assert forall|other: Type| !other.same(key) implies #[trigger] lookup(t, other)
            == lookup(s, other) by {
            if contains(s, other) {
                let a = place(s, other);
                let b = if a < p {
                    a
                } else {
                    a - 1
                };
                assert(t[b] == s[from(b)]);
                lemma_place(t, other, b);
            }
        }
    }
}

} // verus!
