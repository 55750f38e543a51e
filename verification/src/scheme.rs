//! The threshold-signature capability an accumulator aggregates with.
//!
//! Constructing the cryptographic primitives is not this crate's business:
//! the driver supplies an implementation of [`SignatureScheme`] (typically
//! backed by a threshold BLS library), and the accumulators call it at the
//! two points the protocol needs it — decoding a share on ingest and
//! assembling the certificate once a threshold is reached.  The contracts of
//! the accumulators promise nothing about the values this capability
//! returns; every tallying decision is proved independent of them.

use vstd::prelude::*;

use crate::data::{AggregateSignature, EncodedSignature, PublicParameter, PureSignature,
    StakeTableEntry};

verus! {

/// Stake-weighted threshold signing capability.
///
/// The accumulators' guarantees hold whatever these methods return: every
/// tallying and thresholding decision is proved without assumptions on the
/// cryptography.
pub trait SignatureScheme {
    /// Converts a signature share from its wire encoding into the pure form
    /// suitable for aggregation.  The encoding is assumed total: the caller
    /// has already validated the bytes.
    fn decode(&self, sig: &EncodedSignature) -> PureSignature;

    /// Builds the public parameters for a committee and a stake threshold.
    fn public_parameter(
        &self,
        stake_table_entries: &Vec<StakeTableEntry>,
        threshold: u64,
    ) -> PublicParameter;

    /// Aggregates the collected shares into a certificate signature, using
    /// the signer bitset as a selector over the committee.
    fn assemble(
        &self,
        pp: &PublicParameter,
        signers: &Vec<bool>,
        sig_lists: &Vec<PureSignature>,
    ) -> AggregateSignature;
}

} // verus!
