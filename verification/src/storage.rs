//! The data model of on-disk node state: stored views and how they came to
//! be.  The storage service itself (persistence, I/O) lives with the driver;
//! this module owns the values it stores and the pure conversions between
//! them.

use std::collections::{BTreeMap, BTreeSet};

use vstd::prelude::*;

use crate::data::{Commitment, EncodedPublicKey, QuorumCertificate};

verus! {

/// Errors that can occur in the storage layer.
#[derive(Clone, Copy, Debug, PartialEq, Eq, Structural)]
pub enum StorageError {
    /// No genesis view was inserted.
    NoGenesisView,
}

/// Indicates how a view came to be.
#[derive(Debug, PartialEq, Eq)]
pub enum ViewAppend<BLOCK> {
    /// The view was created by appending a block to the previous view.
    Block {
        /// The block that was appended.
        block: BLOCK,
    },
}

impl<BLOCK> ViewAppend<BLOCK> {
    /// Get the block deltas from this append.
    pub fn into_deltas(self) -> (r: BLOCK)
        ensures
            self == (ViewAppend::Block { block: r }),
    {
        match self {
            Self::Block { block } => block,
        }
    }
}

impl<BLOCK> From<BLOCK> for ViewAppend<BLOCK> {
    /// Wraps a block as the append that carries it.
    fn from(block: BLOCK) -> (r: Self)
        ensures
            r == (ViewAppend::Block { block }),
    {
        Self::Block { block }
    }
}

impl<BLOCK> vstd::std_specs::convert::FromSpecImpl<BLOCK> for ViewAppend<BLOCK> {
    open spec fn obeys_from_spec() -> bool {
        true
    }

    open spec fn from_spec(block: BLOCK) -> Self {
        ViewAppend::Block { block }
    }
}

/// A view as it is kept by the storage layer.
#[derive(Debug, PartialEq, Eq)]
pub struct StoredView<STATE, BLOCK, TXN> {
    /// The view number of this view.
    pub view_number: u64,
    /// Commitment of the parent leaf of this view.
    pub parent: Commitment,
    /// The justifying quorum certificate of this view.
    pub justify_qc: QuorumCertificate,
    /// The application state of this view.
    pub state: STATE,
    /// The history of how this view came to be.
    pub append: ViewAppend<BLOCK>,
    /// Transactions rejected in this view.
    pub rejected: Vec<TXN>,
    /// The timestamp this view was received, in nanoseconds since the Unix
    /// epoch.
    pub timestamp: i128,
    /// The proposer's key in its encoded form.
    pub proposer_id: EncodedPublicKey,
}

/// Relies on `time::OffsetDateTime::now_utc`: the wall clock, as nanoseconds
/// since the Unix epoch.  Nothing is promised of the value; callers treat it
/// as an arbitrary reading.
#[verifier::external_body]
fn now_nanos() -> i128 {
    time::OffsetDateTime::now_utc().unix_timestamp_nanos()
}

impl<STATE, BLOCK, TXN> StoredView<STATE, BLOCK, TXN> {
    /// Create a new stored view from the given certificate, block and state.
    /// Every field except the clock reading is pinned down; the view number
    /// is the certificate's.
    pub fn from_qc_block_and_state(
        qc: QuorumCertificate,
        block: BLOCK,
        state: STATE,
        parent_commitment: Commitment,
        rejected: Vec<TXN>,
        proposer_id: EncodedPublicKey,
    ) -> (r: Self)
        ensures
            r.view_number == qc.view_number,
            r.parent == parent_commitment,
            r.justify_qc == qc,
            r.state == state,
            r.append == (ViewAppend::Block { block }),
            r.rejected == rejected,
            r.proposer_id == proposer_id,
    {
        let view_number = qc.view_number;
        Self {
            append: ViewAppend::Block { block },
            view_number,
            parent: parent_commitment,
            justify_qc: qc,
            state,
            rejected,
            timestamp: now_nanos(),
            proposer_id,
        }
    }
}

/// An entry handed to the storage service: this makes it possible to commit
/// succeeded and failed views at the same time.
#[derive(Debug, PartialEq, Eq)]
pub enum ViewEntry<STATE, BLOCK, TXN> {
    /// A succeeded view.
    Success(StoredView<STATE, BLOCK, TXN>),
    /// A failed view, by view number.
    Failed(u64),
}

impl<STATE, BLOCK, TXN> From<StoredView<STATE, BLOCK, TXN>> for ViewEntry<STATE, BLOCK, TXN> {
    /// Wraps a stored view as a succeeded entry.
    fn from(view: StoredView<STATE, BLOCK, TXN>) -> (r: Self)
        ensures
            r == ViewEntry::Success(view),
    {
        Self::Success(view)
    }
}

impl<STATE, BLOCK, TXN> vstd::std_specs::convert::FromSpecImpl<StoredView<STATE, BLOCK, TXN>> for ViewEntry<STATE, BLOCK, TXN> {
    open spec fn obeys_from_spec() -> bool {
        true
    }

    open spec fn from_spec(view: StoredView<STATE, BLOCK, TXN>) -> Self {
        ViewEntry::Success(view)
    }
}

/// An internal representation of the data held by a storage service, for
/// inspection in tests; never used in production paths.
#[derive(Debug)]
pub struct StorageState<STATE, BLOCK, TXN> {
    /// The views that have been successful, by view number.
    pub stored: BTreeMap<u64, StoredView<STATE, BLOCK, TXN>>,
    /// The views that have failed.
    pub failed: BTreeSet<u64>,
}

} // verus!
