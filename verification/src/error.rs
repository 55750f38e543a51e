//! The consensus node's top-level fault type.

use vstd::prelude::*;

use crate::data::QuorumCertificate;
use crate::storage::StorageError;

verus! {

/// The protocol stage a fault occurred in.
#[derive(Clone, Copy, Debug, PartialEq, Eq, Structural)]
pub enum Stage {
    /// Leader proposes, replicas vote on the proposal.
    Prepare,
    /// Replicas lock on the proposal.
    PreCommit,
    /// Replicas commit to the proposal.
    Commit,
    /// The proposal's effects are applied.
    Decide,
}

/// A fault reported by the networking layer.  The transport itself lives
/// with the driver; these are the shapes of failure the node reacts to.
#[derive(Clone, Copy, Debug, PartialEq, Eq, Structural)]
pub enum NetworkError {
    /// An internal channel was closed before the message could be queued.
    ChannelSend,
    /// A message could not be delivered to its destination.
    CouldNotDeliver,
    /// The background executor failed to spawn or run a task.
    Executor,
    /// The listener could not be bound to its socket.
    FailedToBindListener,
    /// No socket address could be resolved for the destination.
    NoSockets,
    /// An inbound frame could not be decoded.
    SocketDecode,
    /// The underlying socket transport reported a fault.
    WebSocket,
}

/// Faults that can occur while running the consensus node.
#[derive(Debug)]
pub enum PhaseLockError {
    /// Failed to message the leader in the given stage.
    FailedToMessageLeader {
        /// The stage the failure occurred in.
        stage: Stage,
        /// The underlying network fault.
        source: NetworkError,
    },
    /// Failed to broadcast a message on the network.
    FailedToBroadcast {
        /// The stage the failure occurred in.
        stage: Stage,
        /// The underlying network fault.
        source: NetworkError,
    },
    /// Bad or forged quorum certificate.
    BadOrForgedQC {
        /// The stage the failure occurred in.
        stage: Stage,
        /// The bad quorum certificate.
        bad_qc: QuorumCertificate,
    },
    /// Failed to assemble a quorum certificate.  The cryptographic fault
    /// itself stays with the signature scheme that raised it.
    FailedToAssembleQC {
        /// The stage the failure occurred in.
        stage: Stage,
    },
    /// A block failed verification.
    BadBlock {
        /// The stage the failure occurred in.
        stage: Stage,
    },
    /// A block was not consistent with the existing state.
    InconsistentBlock {
        /// The stage the failure occurred in.
        stage: Stage,
    },
    /// Failure in the networking layer.
    NetworkFault {
        /// The underlying network fault.
        source: NetworkError,
    },
    /// Item was not present in storage.
    ItemNotFound {
        /// Hash of the missing item.
        hash: Vec<u8>,
    },
    /// Error accessing storage.
    StorageError {
        /// The underlying storage fault.
        err: StorageError,
    },
    /// Invalid state machine state.
    InvalidState {
        /// Description of the offending state.
        context: String,
    },
    /// Internal value used to drive the state machine.
    Continue,
}

impl PhaseLockError {
    /// The stage this fault happened in, where one is recorded.
    pub open spec fn spec_get_stage(&self) -> Option<Stage> {
        match self {
            PhaseLockError::FailedToMessageLeader { stage, .. } => Some(*stage),
            PhaseLockError::FailedToBroadcast { stage, .. } => Some(*stage),
            PhaseLockError::BadOrForgedQC { stage, .. } => Some(*stage),
            PhaseLockError::FailedToAssembleQC { stage } => Some(*stage),
            PhaseLockError::BadBlock { stage } => Some(*stage),
            PhaseLockError::InconsistentBlock { stage } => Some(*stage),
            _ => None,
        }
    }

    /// Returns the stage this fault happened in, if such information exists.
    pub fn get_stage(&self) -> (r: Option<Stage>)
        ensures
            r == self.spec_get_stage(),
    {
        match self {
            PhaseLockError::FailedToMessageLeader { stage, .. }
            | PhaseLockError::FailedToBroadcast { stage, .. }
            | PhaseLockError::BadOrForgedQC { stage, .. }
            | PhaseLockError::FailedToAssembleQC { stage }
            | PhaseLockError::BadBlock { stage }
            | PhaseLockError::InconsistentBlock { stage } => Some(*stage),
            _ => None,
        }
    }
}

} // verus!
