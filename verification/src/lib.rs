//! Core of a one-time token-grant service: a claimant presents a single-use
//! identity token (a nullifier) and a destination wallet address; the service
//! reserves the nullifier in a uniqueness-enforcing ledger, broadcasts a
//! value transfer, and records the resulting transaction identifier.
//!
//! This crate holds the verified protocol logic: the ledger with its
//! uniqueness and immutability guarantees, the address validator, and the
//! coordinator decisions that map storage and network outcomes to caller
//! responses. Durable storage, the chain client and the HTTP surface are
//! external collaborators that drive these functions.

pub mod address;
pub mod coordinator;
pub mod ledger;
