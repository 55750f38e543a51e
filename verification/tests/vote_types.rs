//! Tests for the vote records and their accessors.

use qcert::data::{
    bytes_eq, AggregateSignature, AssembledSignature, CertKind, Commitment, EncodedPublicKey,
    EncodedSignature, VoteData, VoteToken,
};
use qcert::data::QuorumCertificate;
use qcert::vote::{DAVote, QuorumVote, TimeoutVote, ViewSyncData, ViewSyncVote,
    ViewSyncVoteInternal, VoteType, YesOrNoVote};

fn vs_internal(i: u8) -> ViewSyncVoteInternal {
    ViewSyncVoteInternal {
        relay_pub_key: EncodedPublicKey(vec![7]),
        relay: 3,
        round: 12,
        signature: (EncodedPublicKey(vec![i]), EncodedSignature(vec![20 + i])),
        vote_token: VoteToken { vote_count: 2 },
        vote_data: VoteData::ViewSyncCommit(Commitment { bytes: b"vs".to_vec() }),
    }
}

#[test]
fn da_vote_accessors() {
    let vote = DAVote {
        signature: (EncodedPublicKey(vec![1]), EncodedSignature(vec![2])),
        block_commitment: Commitment { bytes: b"b".to_vec() },
        current_view: 5,
        vote_token: VoteToken { vote_count: 3 },
        vote_data: VoteData::DA(Commitment { bytes: b"b".to_vec() }),
    };
    assert_eq!(vote.get_view(), 5);
    assert_eq!(vote.signature_key(), EncodedPublicKey(vec![1]));
    assert_eq!(vote.get_key(), EncodedPublicKey(vec![1]));
    assert_eq!(vote.get_signature(), EncodedSignature(vec![2]));
    assert_eq!(vote.get_vote_token().vote_count(), 3);
    match vote.get_data() {
        VoteData::DA(c) => assert_eq!(c.bytes, b"b".to_vec()),
        _ => panic!("a DA vote carries DA data"),
    }
}

#[test]
fn quorum_vote_accessors() {
    let inner = YesOrNoVote {
        justify_qc_commitment: Commitment { bytes: b"qc".to_vec() },
        signature: (EncodedPublicKey(vec![4]), EncodedSignature(vec![5])),
        leaf_commitment: Commitment { bytes: b"leaf".to_vec() },
        current_view: 8,
        vote_token: VoteToken { vote_count: 1 },
        vote_data: VoteData::No(Commitment { bytes: b"leaf".to_vec() }),
    };
    let vote = QuorumVote::No(inner);
    assert_eq!(vote.get_view(), 8);
    assert_eq!(vote.signature(), EncodedSignature(vec![5]));
    assert_eq!(vote.signature_key(), EncodedPublicKey(vec![4]));
    match vote.get_data() {
        VoteData::No(c) => assert_eq!(c.bytes, b"leaf".to_vec()),
        _ => panic!("a No vote carries No data"),
    }
}

#[test]
fn view_sync_vote_accessors() {
    let vote = ViewSyncVote::Commit(vs_internal(6));
    assert_eq!(vote.relay(), 3);
    assert_eq!(vote.round(), 12);
    assert_eq!(vote.get_view(), 12);
    assert_eq!(vote.signature(), EncodedSignature(vec![26]));
    assert_eq!(vote.signature_key(), EncodedPublicKey(vec![6]));
    assert_eq!(vote.get_vote_token().vote_count(), 2);
}

#[test]
fn timeout_vote_accessors() {
    // A timeout vote exposes its view and signature material; its data and
    // token are not retrievable through the vote interface.
    let vote = QuorumVote::Timeout(TimeoutVote {
        high_qc: QuorumCertificate {
            leaf_commitment: Commitment { bytes: b"leaf".to_vec() },
            view_number: 9,
            signatures: AssembledSignature::Yes(AggregateSignature(vec![2])),
            is_genesis: false,
        },
        signature: (EncodedPublicKey(vec![9]), EncodedSignature(vec![10])),
        current_view: 10,
        vote_token: VoteToken { vote_count: 1 },
        vote_data: VoteData::Timeout(Commitment { bytes: b"view".to_vec() }),
    });
    assert_eq!(vote.get_view(), 10);
    assert_eq!(vote.signature(), EncodedSignature(vec![10]));
    assert_eq!(vote.signature_key(), EncodedPublicKey(vec![9]));
}

#[test]
fn view_sync_data_carries_relay_and_round() {
    let data = ViewSyncData { relay: EncodedPublicKey(vec![7, 8]), round: 12 };
    assert_eq!(data.relay, EncodedPublicKey(vec![7, 8]));
    assert_eq!(data.round, 12);
}

#[test]
fn assembled_signature_kinds() {
    let agg = || AggregateSignature(vec![1]);
    assert_eq!(AssembledSignature::DA(agg()).kind(), CertKind::Da);
    assert_eq!(AssembledSignature::Yes(agg()).kind(), CertKind::Yes);
    assert_eq!(AssembledSignature::No(agg()).kind(), CertKind::No);
    assert_eq!(
        AssembledSignature::ViewSyncPreCommit(agg()).kind(),
        CertKind::ViewSyncPreCommit
    );
    assert_eq!(AssembledSignature::ViewSyncCommit(agg()).kind(), CertKind::ViewSyncCommit);
    assert_eq!(AssembledSignature::ViewSyncFinalize(agg()).kind(), CertKind::ViewSyncFinalize);
}

#[test]
fn byte_equality_is_by_contents() {
    assert!(bytes_eq(&vec![], &vec![]));
    assert!(bytes_eq(&vec![1, 2], &vec![1, 2]));
    assert!(!bytes_eq(&vec![1, 2], &vec![1, 3]));
    assert!(!bytes_eq(&vec![1, 2], &vec![1, 2, 3]));
}
