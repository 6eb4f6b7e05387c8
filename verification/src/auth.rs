//! The authorization gate: a mutation request passes only when it carries a
//! signature proving control of the requesting identity and that identity
//! is the record's owner. Any mismatch is reported, never silently ignored.

use vstd::prelude::*;
use crate::identity::{Identity, bytes_eq};

verus! {

/// Whether a request may mutate a record owned by `owner`: it must be
/// signed, and the requester must be that owner.
pub open spec fn authorized(owner: Seq<u8>, requester: Seq<u8>, requester_signed: bool) -> bool {
    requester_signed && requester == owner
}

/// Decides `authorized` for a concrete request: allow exactly when the
/// request is signed and the requester is the record's owner.
pub fn authorize(record_owner: &Vec<u8>, requester: &Identity, requester_signed: bool) -> (r:
    bool)
    ensures
        r == authorized(record_owner@, requester@, requester_signed),
{
    requester_signed && bytes_eq(&requester.bytes, record_owner)
}

} // verus!
