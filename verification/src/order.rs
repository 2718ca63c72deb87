//! The hashed, ordered index of the containers: an `indexmap::IndexSet` of
//! type identities. Verus does not read the set; what it holds is named by
//! [`index_order`], and each call into it stands behind a function whose
//! contract is taken on trust from the set's documentation.

use indexmap::IndexSet;
use std::any::TypeId;
use std::hash::RandomState;
use vstd::prelude::*;

verus! {

#[verifier::external_type_specification]
#[verifier::external_body]
#[verifier::reject_recursive_types(T)]
#[verifier::reject_recursive_types(S)]
pub struct ExIndexSet<T, S>(IndexSet<T, S>);

#[verifier::external_type_specification]
#[verifier::external_body]
pub struct ExIndexReserveError(indexmap::TryReserveError);

/// The identities that an index holds, in the order in which it yields them.
pub uninterp spec fn index_order(index: IndexSet<TypeId, RandomState>) -> Seq<TypeId>;

/// `IndexSet::new`: a set that holds nothing.
#[verifier::external_body]
pub(crate) fn index_new() -> (r: IndexSet<TypeId, RandomState>)
    ensures
        index_order(r) == Seq::<TypeId>::empty(),
{
    IndexSet::new()
}

/// `IndexSet::with_capacity`: a set that holds nothing, with room for
/// `capacity` items.
#[verifier::external_body]
pub(crate) fn index_with_capacity(capacity: usize) -> (r: IndexSet<TypeId, RandomState>)
    ensures
        index_order(r) == Seq::<TypeId>::empty(),
{
    IndexSet::with_capacity(capacity)
}

/// `IndexSet::get_index_of`: the position of `id`, if the set holds it.
#[verifier::external_body]
pub(crate) fn index_position(index: &IndexSet<TypeId, RandomState>, id: &TypeId) -> (r: Option<
    usize,
>)
    ensures
        match r {
            Some(i) => i < index_order(*index).len() && index_order(*index)[i as int] == *id,
            None => !index_order(*index).contains(*id),
        },
{
    index.get_index_of(id)
}

/// `IndexSet::insert_full`: an item that the set holds stays where it is,
/// and the call gives its position and `false`; a new item goes to the end,
/// and the call gives that position and `true`.
#[verifier::external_body]
pub(crate) fn index_insert(index: &mut IndexSet<TypeId, RandomState>, id: TypeId) -> (r: (
    usize,
    bool,
))
    ensures
        r.1 == !index_order(*old(index)).contains(id),
        r.1 ==> index_order(*final(index)) == index_order(*old(index)).push(id) && r.0
            == index_order(*old(index)).len(),
        !r.1 ==> index_order(*final(index)) == index_order(*old(index)) && r.0 < index_order(
            *old(index),
        ).len() && index_order(*old(index))[r.0 as int] == id,
{
    index.insert_full(id)
}

/// `IndexSet::shift_remove_full`: an item that the set holds leaves it, the
/// items behind it move up by one, and the call gives the position that the
/// item had; of an item that the set does not hold, nothing changes.
#[verifier::external_body]
pub(crate) fn index_shift_remove(index: &mut IndexSet<TypeId, RandomState>, id: &TypeId) -> (r:
    Option<usize>)
    ensures
        match r {
            Some(i) => i < index_order(*old(index)).len() && index_order(*old(index))[i as int]
                == *id && index_order(*final(index)) == index_order(*old(index)).remove(i as int),
            None => !index_order(*old(index)).contains(*id) && index_order(*final(index))
                == index_order(*old(index)),
        },
{
    index.shift_remove_full(id).map(|found| found.0)
}

/// `IndexSet::clear`: the set holds nothing afterwards.
#[verifier::external_body]
pub(crate) fn index_clear(index: &mut IndexSet<TypeId, RandomState>)
    ensures
        index_order(*final(index)) == Seq::<TypeId>::empty(),
{
    index.clear()
}

/// `IndexSet::capacity`: the number of items that the set can hold without
/// allocating, which is never less than the number that it holds.
#[verifier::external_body]
pub(crate) fn index_capacity(index: &IndexSet<TypeId, RandomState>) -> (r: usize)
    ensures
        r >= index_order(*index).len(),
{
    index.capacity()
}

/// `IndexSet::reserve`: the items stay as they are.
#[verifier::external_body]
pub(crate) fn index_reserve(index: &mut IndexSet<TypeId, RandomState>, additional: usize)
    ensures
        index_order(*final(index)) == index_order(*old(index)),
{
    index.reserve(additional)
}

/// `IndexSet::try_reserve`: the items stay as they are, whether the
/// allocation succeeds or not.
#[verifier::external_body]
pub(crate) fn index_try_reserve(
    index: &mut IndexSet<TypeId, RandomState>,
    additional: usize,
) -> (r: Result<(), indexmap::TryReserveError>)
    ensures
        index_order(*final(index)) == index_order(*old(index)),
{
    index.try_reserve(additional)
}

/// `IndexSet::shrink_to_fit`: the items stay as they are.
#[verifier::external_body]
pub(crate) fn index_shrink_to_fit(index: &mut IndexSet<TypeId, RandomState>)
    ensures
        index_order(*final(index)) == index_order(*old(index)),
{
    index.shrink_to_fit()
}

/// `IndexSet::shrink_to`: the items stay as they are.
#[verifier::external_body]
pub(crate) fn index_shrink_to(index: &mut IndexSet<TypeId, RandomState>, min_capacity: usize)
    ensures
        index_order(*final(index)) == index_order(*old(index)),
{
    index.shrink_to(min_capacity)
}

/// `IndexSet::clone`: a set with the same items in the same order.
#[verifier::external_body]
pub(crate) fn index_clone(index: &IndexSet<TypeId, RandomState>) -> (r: IndexSet<
    TypeId,
    RandomState,
>)
    ensures
        index_order(r) == index_order(*index),
{
    index.clone()
}

} // verus!
