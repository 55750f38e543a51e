//! Tests for the node's fault type: each variant reports its stage exactly
//! when one is recorded.

use qcert::data::{AggregateSignature, AssembledSignature, Commitment, QuorumCertificate};
use qcert::error::{NetworkError, PhaseLockError, Stage};
use qcert::storage::StorageError;

fn qc() -> QuorumCertificate {
    QuorumCertificate {
        leaf_commitment: Commitment { bytes: b"leaf".to_vec() },
        view_number: 3,
        signatures: AssembledSignature::No(AggregateSignature(vec![9])),
        is_genesis: false,
    }
}

#[test]
fn staged_faults_report_their_stage() {
    let cases = vec![
        (
            PhaseLockError::FailedToMessageLeader {
                stage: Stage::Prepare,
                source: NetworkError::CouldNotDeliver,
            },
            Stage::Prepare,
        ),
        (
            PhaseLockError::FailedToBroadcast {
                stage: Stage::PreCommit,
                source: NetworkError::ChannelSend,
            },
            Stage::PreCommit,
        ),
        (
            PhaseLockError::BadOrForgedQC { stage: Stage::Commit, bad_qc: qc() },
            Stage::Commit,
        ),
        (PhaseLockError::FailedToAssembleQC { stage: Stage::Decide }, Stage::Decide),
        (PhaseLockError::BadBlock { stage: Stage::Prepare }, Stage::Prepare),
        (PhaseLockError::InconsistentBlock { stage: Stage::Commit }, Stage::Commit),
    ];
    for (err, stage) in cases {
        assert_eq!(err.get_stage(), Some(stage));
    }
}

#[test]
fn unstaged_faults_report_none() {
    let cases = vec![
        PhaseLockError::NetworkFault { source: NetworkError::SocketDecode },
        PhaseLockError::ItemNotFound { hash: vec![1, 2] },
        PhaseLockError::StorageError { err: StorageError::NoGenesisView },
        PhaseLockError::InvalidState { context: String::from("no round in progress") },
        PhaseLockError::Continue,
    ];
    for err in cases {
        assert_eq!(err.get_stage(), None);
    }
}
