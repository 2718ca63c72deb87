//! What holds of the containers whatever they store, stated over the model
//! that the contracts of their operations speak of.

use crate::key::Type;
use crate::model::{
    contains, distinct, ensured, inserted, keys_of, lemma_inserted, lemma_place, lemma_removed,
    lookup, place, position, removed, with_value,
};
use vstd::prelude::*;

verus! {

/// Keys are told apart by their identity alone: two keys of one type, however
/// they are described, have the same place, entry and presence.
pub proof fn law_same_key<V>(s: Seq<(Type, V)>, a: Type, b: Type)
    requires
        distinct(s),
        a.same(b),
    ensures
        contains(s, a) == contains(s, b),
        position(s, a) == position(s, b),
        lookup(s, a) == lookup(s, b),
{
    if contains(s, a) {
        let i = place(s, a);
        assert(s[i].0.same(b));
        lemma_place(s, b, i);
    }
    if contains(s, b) {
        let i = place(s, b);
        assert(s[i].0.same(a));
        lemma_place(s, a, i);
    }
}

/// Two values stored under two different keys, one after the other, in a map
/// without entries: the map then has two entries, and each key gives its own
/// value.
pub proof fn law_insert_two_keys<V>(k1: Type, k2: Type, v1: V, v2: V)
    requires
        !k1.same(k2),
    ensures
        inserted(inserted(Seq::<(Type, V)>::empty(), k1, v1), k2, v2).len() == 2,
        lookup(inserted(inserted(Seq::<(Type, V)>::empty(), k1, v1), k2, v2), k1) == Some(v1),
        lookup(inserted(inserted(Seq::<(Type, V)>::empty(), k1, v1), k2, v2), k2) == Some(v2),
        keys_of(inserted(inserted(Seq::<(Type, V)>::empty(), k1, v1), k2, v2)) == seq![k1, k2],
{
    let e = Seq::<(Type, V)>::empty();
    lemma_inserted(e, k1, v1);
    let a = inserted(e, k1, v1);
    lemma_inserted(a, k2, v2);
    assert(keys_of(inserted(a, k2, v2)) =~= seq![k1, k2]);
}

/// A value stored under a key that has an entry replaces the value of that
/// entry, and what was there before is what the map gave for the key; the
/// keys and their order stay.
pub proof fn law_insert_replaces<V>(s: Seq<(Type, V)>, key: Type, v1: V, v2: V)
    requires
        distinct(s),
    ensures
        lookup(inserted(s, key, v1), key) == Some(v1),
        lookup(inserted(inserted(s, key, v1), key, v2), key) == Some(v2),
        inserted(inserted(s, key, v1), key, v2).len() == inserted(s, key, v1).len(),
        keys_of(inserted(inserted(s, key, v1), key, v2)) == keys_of(inserted(s, key, v1)),
{
    lemma_inserted(s, key, v1);
    lemma_inserted(inserted(s, key, v1), key, v2);
}

/// Taking the entry of a key out leaves the other entries as they were and
/// in the order in which they stood.
pub proof fn law_remove_keeps_order<V>(s: Seq<(Type, V)>, key: Type)
    requires
        distinct(s),
        contains(s, key),
    ensures
        0 <= place(s, key) < s.len(),
        removed(s, key) == s.remove(place(s, key)),
        forall|i: int|
            0 <= i < place(s, key) ==> (#[trigger] removed(s, key)[i]) == s[i],
        forall|i: int|
            place(s, key) <= i < s.len() - 1 ==> (#[trigger] removed(s, key)[i]) == s[i + 1],
{
}

/// Three values stored under three different keys in a map without entries,
/// and the entry of the second taken out: the first and the third key are
/// left, in that order.
pub proof fn law_remove_middle_of_three<V>(k1: Type, k2: Type, k3: Type, v1: V, v2: V, v3: V)
    requires
        !k1.same(k2),
        !k1.same(k3),
        !k2.same(k3),
    ensures
        keys_of(
            removed(
                inserted(inserted(inserted(Seq::<(Type, V)>::empty(), k1, v1), k2, v2), k3, v3),
                k2,
            ),
        ) == seq![k1, k3],
{
    let e = Seq::<(Type, V)>::empty();
    lemma_inserted(e, k1, v1);
    let a = inserted(e, k1, v1);
    lemma_inserted(a, k2, v2);
    let b = inserted(a, k2, v2);
    lemma_inserted(b, k3, v3);
    let c = inserted(b, k3, v3);
    assert(keys_of(b) =~= seq![k1, k2]);
    assert(keys_of(c) =~= seq![k1, k2, k3]);
    assert(c[1].0 == keys_of(c)[1]);
    lemma_place(c, k2, 1);
    assert(keys_of(c.remove(1)) =~= seq![k1, k3]);
}

/// A key has an entry from the moment a value is stored under it until its
/// entry is taken out: not in a map without entries, not after the entry is
/// taken out, and always in between.
pub proof fn law_contains_between<V>(s: Seq<(Type, V)>, key: Type, value: V)
    requires
        distinct(s),
    ensures
        !contains(Seq::<(Type, V)>::empty(), key),
        contains(inserted(s, key, value), key),
        !contains(removed(s, key), key),
        !contains(removed(inserted(s, key, value), key), key),
{
    lemma_inserted(s, key, value);
    lemma_removed(s, key);
    lemma_removed(inserted(s, key, value), key);
}

/// Filling a place with a default a second time changes nothing: the first
/// default, or the value that was there before it, stays under the key.
pub proof fn law_ensured_once<V>(s: Seq<(Type, V)>, key: Type, d1: V, d2: V)
    requires
        distinct(s),
    ensures
        ensured(ensured(s, key, d1), key, d2) == ensured(s, key, d1),
        contains(s, key) ==> lookup(ensured(ensured(s, key, d1), key, d2), key) == lookup(s, key),
        !contains(s, key) ==> lookup(ensured(ensured(s, key, d1), key, d2), key) == Some(d1),
        distinct(ensured(s, key, d1)),
{
    lemma_inserted(s, key, d1);
    if !contains(s, key) {
        assert(ensured(s, key, d1) == inserted(s, key, d1));
    }
}

/// A value that is lent out and handed back as it was leaves the entries as
/// they were.
pub proof fn law_unchanged_value<V>(s: Seq<(Type, V)>, key: Type)
    requires
        contains(s, key),
    ensures
        with_value(s, key, lookup(s, key).unwrap()) == s,
{
    assert(with_value(s, key, lookup(s, key).unwrap()) =~= s);
}

} // verus!
