//! Shared byte buffers.
use std::sync::Arc;
use vstd::prelude::*;

verus! {

/// The bytes of a buffer that may be absent.
pub open spec fn shared_view(b: Option<Arc<[u8]>>) -> Option<Seq<u8>> {
    match b {
        Some(a) => Some(a@),
        None => None,
    }
}

/// A shared buffer with the bytes of `v`, through the `From<Vec<u8>>`
/// conversion of `Arc<[u8]>`.
#[verifier::external_body]
pub(crate) fn share(v: Vec<u8>) -> (r: Arc<[u8]>)
    ensures
        r@ == v@,
{
    Arc::from(v)
}

/// Another handle on the same buffer.
pub fn share_again(b: &Option<Arc<[u8]>>) -> (r: Option<Arc<[u8]>>)
    ensures
        r == *b,
{
    match b {
        Some(a) => Some(Arc::clone(a)),
        None => None,
    }
}

/// Whether two slices hold the same bytes.
pub(crate) fn same_bytes(a: &[u8], b: &[u8]) -> (r: bool)
    ensures
        r == (a@ == b@),
{
    if a.len() != b.len() {
        return false;
    }
    let mut i: usize = 0;
    while i < a.len()
        invariant
            i <= a@.len() == b@.len(),
            forall|j: int| 0 <= j < i ==> a@[j] == b@[j],
        decreases a.len() - i,
    {
        if a[i] != b[i] {
            return false;
        }
        i += 1;
    }
    assert(a@ =~= b@);
    true
}

} // verus!
