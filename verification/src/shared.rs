//! Shared handles.

use std::sync::Arc;
use vstd::prelude::*;

verus! {

/// Another handle to the value behind `handle`.
///
/// Calls `Arc::clone` of the standard library, which is not verified here. The
/// contract claims what its documentation says: the new handle points to the
/// same allocation, hence to the same value.
#[verifier::external_body]
pub(crate) fn share<T>(handle: &Arc<T>) -> (r: Arc<T>)
    ensures
        r == *handle,
{
    Arc::clone(handle)
}

} // verus!
