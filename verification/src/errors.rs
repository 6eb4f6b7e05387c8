//! The failure taxonomy of the protocol. Every operation that can fail
//! returns one of these kinds; a failing operation leaves the ledger
//! unchanged.

use vstd::prelude::*;

verus! {

/// Why a protocol operation was rejected.
#[derive(Clone, Copy, Debug, PartialEq, Eq, Structural)]
pub enum ProtocolError {
    /// No disambiguation token in the searched range yields a usable
    /// derived address for the given program identifier and seeds.
    DerivationExhausted,
    /// A schema's byte budget exceeds the host's maximum record size.
    SchemaOverflow,
    /// A record already occupies the target address.
    AlreadyInitialized,
    /// The payer cannot cover the byte budget of the record to create.
    InsufficientFunds,
    /// A field of the submitted value exceeds its declared maximum.
    ValueExceedsSchema,
    /// No record exists at the target address.
    NotFound,
    /// The requester is not the record's owner, or did not sign.
    Unauthorized,
}

} // verus!
