//! Unbiased in-place shuffling of seat pools.
//!
//! The random permutation itself comes from the `fastrand` crate. Nothing is
//! promised about which permutation comes out — two calls on the same input
//! may differ — only that the result is a permutation of the input: the
//! multiset of elements is unchanged.

use vstd::prelude::*;

verus! {

/// Relies on `fastrand::shuffle`: a Fisher–Yates shuffle that permutes the
/// slice in place, so the multiset of elements (and hence the length) is
/// unchanged.
#[verifier::external_body]
pub(crate) fn shuffle_in_place<T>(values: &mut Vec<T>)
    ensures
        final(values)@.to_multiset() == old(values)@.to_multiset(),
        final(values)@.len() == old(values)@.len(),
{
    fastrand::shuffle(values.as_mut_slice());
}

} // verus!
