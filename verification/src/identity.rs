//! Identity of shared handles.
use std::sync::Arc;
use vstd::prelude::*;

verus! {

/// `Arc::ptr_eq`: whether the two handles point to one allocation. If they do,
/// they hold one value; handles that hold equal values may still point to two
/// allocations.
#[verifier::external_body]
pub(crate) fn same_allocation<T>(a: &Arc<T>, b: &Arc<T>) -> (res: bool)
    ensures
        res ==> *a == *b,
{
    Arc::ptr_eq(a, b)
}

} // verus!
