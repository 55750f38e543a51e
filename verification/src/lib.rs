//! Vote aggregation and certificate formation for a stake-weighted BFT
//! consensus node.
//!
//! The crate's centre is a family of accumulators that ingest individually
//! signed, stake-weighted votes one at a time and, once enough stake has been
//! collected, emit an assembled threshold-signature certificate.  Everything
//! the accumulators decide — duplicate rejection, per-outcome tallying,
//! threshold evaluation and its priority order — is specified and verified
//! here.  The cryptographic scheme itself (share decoding, aggregation) is a
//! capability supplied by the caller through the [`scheme::SignatureScheme`]
//! trait.

pub mod accumulate;
pub mod command;
pub mod data;
pub mod error;
pub mod laws;
pub mod model;
pub mod scheme;
pub mod storage;
pub mod vote;
pub mod vote_map;
