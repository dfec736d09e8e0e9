//! Building blocks for unstaking covenant-locked outputs: validated request
//! values, the marshaling of untrusted raw requests, the partition of a large
//! UTXO set into bounded chunks, and the per-chunk signing and broadcast
//! protocol. Everything in this crate is plain computation; the callers own
//! the network clients, the transaction builder and the signing keys.

pub mod batch;
pub mod boundary;
pub mod chunk;
pub mod domain;
pub mod hex;
pub mod keys;
pub mod sweep;
