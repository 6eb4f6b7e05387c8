//! A library modelling the account protocol shared by a family of on-chain
//! program stubs: derive a deterministic per-identity storage address,
//! budget the bytes a bounded-schema record may occupy, create the record at
//! that address exactly once, and let only its owner replace it thereafter.

pub mod address;
pub mod auth;
pub mod errors;
pub mod identity;
pub mod ledger;
pub mod program;
pub mod records;
pub mod schema;

pub use errors::ProtocolError;
