//! The standard library's functions on a vector's spare room, for which
//! Verus has no contract of its own. Each stands behind a function whose
//! contract is taken on trust from the standard library's documentation.

use vstd::prelude::*;

verus! {

/// `Vec::capacity`: the number of items that the vector can hold without
/// allocating, which is never less than the number that it holds.
#[verifier::external_body]
pub(crate) fn vec_capacity<T>(v: &Vec<T>) -> (r: usize)
    ensures
        r >= v@.len(),
{
    v.capacity()
}

/// `Vec::shrink_to_fit`: the items stay as they are.
#[verifier::external_body]
pub(crate) fn vec_shrink_to_fit<T>(v: &mut Vec<T>)
    ensures
        final(v)@ == old(v)@,
{
    v.shrink_to_fit()
}

/// `Vec::shrink_to`: the items stay as they are.
#[verifier::external_body]
pub(crate) fn vec_shrink_to<T>(v: &mut Vec<T>, min_capacity: usize)
    ensures
        final(v)@ == old(v)@,
{
    v.shrink_to(min_capacity)
}

} // verus!
