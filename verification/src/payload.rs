//! Shared byte buffers.

use bytes::Bytes;
use vstd::prelude::*;

verus! {

/// `bytes::Bytes`, a cheaply shared sequence of bytes.
#[verifier::external_type_specification]
#[verifier::external_body]
pub struct ExBytes(bytes::Bytes);

/// The bytes that a buffer holds.
pub uninterp spec fn held(b: Bytes) -> Seq<u8>;

/// `Bytes::clone`: another handle on the same bytes.
#[verifier::external_body]
pub(crate) fn shared(b: &Bytes) -> (r: Bytes)
    ensures
        held(r) == held(*b),
{
    b.clone()
}

/// `Bytes::deref`: the bytes as a slice.
#[verifier::external_body]
pub(crate) fn slice_of(b: &Bytes) -> (r: &[u8])
    ensures
        r@ == held(*b),
{
    b
}

} // verus!
