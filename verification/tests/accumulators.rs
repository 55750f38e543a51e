//! End-to-end scenarios for the vote accumulators: a committee of four
//! voters, each with stake 1, success threshold 3 and failure threshold 2.

use qcert::accumulate::{
    AccumulatorPlaceholder, AppendResult, DAVoteAccumulator, QuorumVoteAccumulator,
    VoteAccumulator, ViewSyncVoteAccumulator,
};
use qcert::data::{
    AggregateSignature, CertKind, Commitment, EncodedPublicKey, EncodedSignature, PublicParameter,
    PureSignature, StakeTableEntry, VoteData, VoteToken,
};
use qcert::scheme::SignatureScheme;
use qcert::vote::{DAVote, QuorumVote, ViewSyncVote, ViewSyncVoteInternal, YesOrNoVote};

/// A deterministic scheme for tests: decode is the identity on bytes, and
/// aggregation concatenates the parameters, the set signer positions, and
/// the shares.
struct TestScheme;

impl SignatureScheme for TestScheme {
    fn decode(&self, sig: &EncodedSignature) -> PureSignature {
        PureSignature(sig.0.clone())
    }

    fn public_parameter(
        &self,
        stake_table_entries: &Vec<StakeTableEntry>,
        threshold: u64,
    ) -> PublicParameter {
        let mut bytes = Vec::new();
        for entry in stake_table_entries {
            bytes.extend_from_slice(&entry.0);
        }
        bytes.extend_from_slice(&threshold.to_le_bytes());
        PublicParameter(bytes)
    }

    fn assemble(
        &self,
        pp: &PublicParameter,
        signers: &Vec<bool>,
        sig_lists: &Vec<PureSignature>,
    ) -> AggregateSignature {
        let mut bytes = pp.0.clone();
        for (i, set) in signers.iter().enumerate() {
            if *set {
                bytes.push(i as u8);
            }
        }
        for sig in sig_lists {
            bytes.extend_from_slice(&sig.0);
        }
        AggregateSignature(bytes)
    }
}

fn key(i: u8) -> EncodedPublicKey {
    EncodedPublicKey(vec![i, i, i, i])
}

fn enc_sig(i: u8) -> EncodedSignature {
    EncodedSignature(vec![0x51, i])
}

fn commitment(tag: &[u8]) -> Commitment {
    Commitment { bytes: tag.to_vec() }
}

fn entries() -> Vec<StakeTableEntry> {
    (0u8..4).map(|i| StakeTableEntry(vec![0x57, i])).collect()
}

fn da_vote(i: u8, c: &[u8]) -> DAVote {
    DAVote {
        signature: (key(i), enc_sig(i)),
        block_commitment: commitment(c),
        current_view: 1,
        vote_token: VoteToken { vote_count: 1 },
        vote_data: VoteData::DA(commitment(c)),
    }
}

fn yes_vote(i: u8, c: &[u8]) -> QuorumVote {
    QuorumVote::Yes(YesOrNoVote {
        justify_qc_commitment: commitment(b"qc"),
        signature: (key(i), enc_sig(i)),
        leaf_commitment: commitment(c),
        current_view: 1,
        vote_token: VoteToken { vote_count: 1 },
        vote_data: VoteData::Yes(commitment(c)),
    })
}

fn no_vote(i: u8, c: &[u8]) -> QuorumVote {
    QuorumVote::No(YesOrNoVote {
        justify_qc_commitment: commitment(b"qc"),
        signature: (key(i), enc_sig(i)),
        leaf_commitment: commitment(c),
        current_view: 1,
        vote_token: VoteToken { vote_count: 1 },
        vote_data: VoteData::No(commitment(c)),
    })
}

fn vs_vote(phase: u8, i: u8, c: &[u8]) -> ViewSyncVote {
    let internal = ViewSyncVoteInternal {
        relay_pub_key: key(9),
        relay: 0,
        round: 7,
        signature: (key(i), enc_sig(i)),
        vote_token: VoteToken { vote_count: 1 },
        vote_data: match phase {
            0 => VoteData::ViewSyncPreCommit(commitment(c)),
            1 => VoteData::ViewSyncCommit(commitment(c)),
            _ => VoteData::ViewSyncFinalize(commitment(c)),
        },
    };
    match phase {
        0 => ViewSyncVote::PreCommit(internal),
        1 => ViewSyncVote::Commit(internal),
        _ => ViewSyncVote::Finalize(internal),
    }
}

fn quorum_stakes(acc: &QuorumVoteAccumulator, c: &[u8]) -> (u64, u64, u64) {
    let c = commitment(c);
    let total = match acc.total_vote_outcomes.find(&c) {
        Some(i) => acc.total_vote_outcomes.stake_at(i),
        None => 0,
    };
    let yes = match acc.yes_vote_outcomes.find(&c) {
        Some(i) => acc.yes_vote_outcomes.stake_at(i),
        None => 0,
    };
    let no = match acc.no_vote_outcomes.find(&c) {
        Some(i) => acc.no_vote_outcomes.stake_at(i),
        None => 0,
    };
    (total, yes, no)
}

fn popcount(signers: &Vec<bool>) -> usize {
    signers.iter().filter(|b| **b).count()
}

#[test]
fn da_happy_path() {
    let scheme = TestScheme;
    let entries = entries();
    let mut acc = DAVoteAccumulator::new(4, 3);
    for i in 0u8..2 {
        match acc.append(&da_vote(i, b"c_block"), i as usize, &entries, &scheme) {
            AppendResult::Pending(next) => acc = next,
            AppendResult::Certificate(_) => panic!("fired before the threshold"),
        }
    }
    assert_eq!(acc.signers, vec![true, true, false, false]);
    assert_eq!(acc.sig_lists.len(), 2);
    // Signers/shares bijection along the way.
    assert_eq!(popcount(&acc.signers), acc.sig_lists.len());
    match acc.append(&da_vote(2, b"c_block"), 2, &entries, &scheme) {
        AppendResult::Pending(_) => panic!("three units of stake reach the threshold"),
        AppendResult::Certificate(cert) => assert_eq!(cert.kind(), CertKind::Da),
    }
}

#[test]
fn da_wrong_kind_is_ignored() {
    let scheme = TestScheme;
    let entries = entries();
    let acc = DAVoteAccumulator::new(4, 3);
    // A Yes vote reaches the DA accumulator: wrong-kind routing, silently
    // rejected.
    let acc = match acc.append(&yes_vote(0, b"c_leaf"), 0, &entries, &scheme) {
        AppendResult::Pending(next) => next,
        AppendResult::Certificate(_) => panic!("wrong-kind vote must not fire"),
    };
    assert_eq!(acc.sig_lists.len(), 0);
    assert_eq!(acc.signers, vec![false, false, false, false]);
    assert_eq!(acc.da_vote_outcomes.slots.len(), 0);
}

#[test]
fn da_single_voter_committee() {
    let scheme = TestScheme;
    let entries = vec![StakeTableEntry(vec![0x57, 0])];
    let acc = DAVoteAccumulator::new(1, 1);
    match acc.append(&da_vote(0, b"c_block"), 0, &entries, &scheme) {
        AppendResult::Pending(_) => panic!("one unit of stake meets threshold 1"),
        AppendResult::Certificate(cert) => assert_eq!(cert.kind(), CertKind::Da),
    }
}

#[test]
fn da_commitments_tally_independently() {
    let scheme = TestScheme;
    let entries = entries();
    let mut acc = DAVoteAccumulator::new(4, 3);
    // Three voters, but over two different block commitments: no tally
    // reaches the threshold.
    for (i, c) in [(0u8, b"c_one".as_slice()), (1, b"c_two"), (2, b"c_one")] {
        match acc.append(&da_vote(i, c), i as usize, &entries, &scheme) {
            AppendResult::Pending(next) => acc = next,
            AppendResult::Certificate(_) => panic!("split commitments must not combine stake"),
        }
    }
    let c_one = commitment(b"c_one");
    let i = acc.da_vote_outcomes.find(&c_one).expect("tally exists");
    assert_eq!(acc.da_vote_outcomes.stake_at(i), 2);
}

#[test]
fn quorum_yes() {
    let scheme = TestScheme;
    let entries = entries();
    let mut acc = QuorumVoteAccumulator::new(4, 3, 2);
    for i in 0u8..2 {
        match acc.append(&yes_vote(i, b"c_leaf"), i as usize, &entries, &scheme) {
            AppendResult::Pending(next) => acc = next,
            AppendResult::Certificate(_) => panic!("fired before the threshold"),
        }
    }
    let (total, yes, no) = quorum_stakes(&acc, b"c_leaf");
    assert_eq!((total, yes, no), (2, 2, 0));
    match acc.append(&yes_vote(2, b"c_leaf"), 2, &entries, &scheme) {
        AppendResult::Pending(_) => panic!("three Yes votes reach the quorum"),
        AppendResult::Certificate(cert) => assert_eq!(cert.kind(), CertKind::Yes),
    }
}

#[test]
fn quorum_no() {
    let scheme = TestScheme;
    let entries = entries();
    let mut acc = QuorumVoteAccumulator::new(4, 3, 2);
    acc = match acc.append(&yes_vote(0, b"c"), 0, &entries, &scheme) {
        AppendResult::Pending(next) => next,
        AppendResult::Certificate(_) => panic!("fired too early"),
    };
    acc = match acc.append(&no_vote(1, b"c"), 1, &entries, &scheme) {
        AppendResult::Pending(next) => next,
        AppendResult::Certificate(_) => panic!("fired too early"),
    };
    let (total, yes, no) = quorum_stakes(&acc, b"c");
    assert_eq!((total, yes, no), (2, 1, 1));
    // Third append: total = 3 >= 3, no = 2 >= 2, yes = 1 < 3: emit No.
    match acc.append(&no_vote(2, b"c"), 2, &entries, &scheme) {
        AppendResult::Pending(_) => panic!("quorum participation with enough dissent fires"),
        AppendResult::Certificate(cert) => assert_eq!(cert.kind(), CertKind::No),
    }
}

#[test]
fn quorum_starved() {
    let scheme = TestScheme;
    let entries = entries();
    let mut acc = QuorumVoteAccumulator::new(4, 3, 2);
    acc = match acc.append(&yes_vote(0, b"c"), 0, &entries, &scheme) {
        AppendResult::Pending(next) => next,
        AppendResult::Certificate(_) => panic!("fired too early"),
    };
    acc = match acc.append(&no_vote(1, b"c"), 1, &entries, &scheme) {
        AppendResult::Pending(next) => next,
        AppendResult::Certificate(_) => panic!("fired too early"),
    };
    // total = 2 < 3: no fire, accumulator unchanged and still usable.
    let (total, yes, no) = quorum_stakes(&acc, b"c");
    assert_eq!((total, yes, no), (2, 1, 1));
    assert_eq!(popcount(&acc.signers), acc.sig_lists.len());
}

#[test]
fn quorum_order_independent_outcome() {
    // The same vote set in two arrival orders: the No side can never reach
    // the failure threshold, so both orders emit Yes.
    let scheme = TestScheme;
    let entries = entries();
    let orders: [[QuorumVote; 4]; 2] = [
        [yes_vote(0, b"c"), yes_vote(1, b"c"), yes_vote(2, b"c"), no_vote(3, b"c")],
        [no_vote(3, b"c"), yes_vote(0, b"c"), yes_vote(1, b"c"), yes_vote(2, b"c")],
    ];
    let node_of = |v: &QuorumVote| match v {
        QuorumVote::Yes(inner) | QuorumVote::No(inner) => inner.signature.0 .0[0] as usize,
        QuorumVote::Timeout(_) => unreachable!(),
    };
    for order in orders {
        let mut acc = QuorumVoteAccumulator::new(4, 3, 2);
        let mut fired = None;
        for vote in &order {
            match acc.append(vote, node_of(vote), &entries, &scheme) {
                AppendResult::Pending(next) => acc = next,
                AppendResult::Certificate(cert) => {
                    fired = Some(cert.kind());
                    break;
                }
            }
        }
        assert_eq!(fired, Some(CertKind::Yes));
    }
}

#[test]
fn viewsync_precommit() {
    let scheme = TestScheme;
    let entries = entries();
    let mut acc = ViewSyncVoteAccumulator::new(4, 3, 2);
    acc = match acc.append(&vs_vote(0, 0, b"c_vs"), 0, &entries, &scheme) {
        AppendResult::Pending(next) => next,
        AppendResult::Certificate(_) => panic!("fired too early"),
    };
    // precommit = 2 >= failure_threshold = 2: emit the pre-commit
    // certificate.
    match acc.append(&vs_vote(0, 1, b"c_vs"), 1, &entries, &scheme) {
        AppendResult::Pending(_) => panic!("two pre-commits reach the failure threshold"),
        AppendResult::Certificate(cert) => assert_eq!(cert.kind(), CertKind::ViewSyncPreCommit),
    }
}

#[test]
fn viewsync_commit_quorum() {
    let scheme = TestScheme;
    let entries = entries();
    let mut acc = ViewSyncVoteAccumulator::new(4, 3, 2);
    for i in 0u8..2 {
        acc = match acc.append(&vs_vote(1, i, b"c_vs"), i as usize, &entries, &scheme) {
            AppendResult::Pending(next) => next,
            AppendResult::Certificate(_) => panic!("fired too early"),
        };
    }
    match acc.append(&vs_vote(1, 2, b"c_vs"), 2, &entries, &scheme) {
        AppendResult::Pending(_) => panic!("three commits reach the quorum"),
        AppendResult::Certificate(cert) => assert_eq!(cert.kind(), CertKind::ViewSyncCommit),
    }
}

#[test]
fn viewsync_cross_phase_signer_reuse_rejected() {
    // The signer bitset is shared across phases: a voter who pre-committed
    // cannot also commit against the same accumulator instance.
    let scheme = TestScheme;
    let entries = entries();
    let mut acc = ViewSyncVoteAccumulator::new(4, 3, 2);
    acc = match acc.append(&vs_vote(0, 0, b"c_vs"), 0, &entries, &scheme) {
        AppendResult::Pending(next) => next,
        AppendResult::Certificate(_) => panic!("fired too early"),
    };
    acc = match acc.append(&vs_vote(1, 0, b"c_vs"), 0, &entries, &scheme) {
        AppendResult::Pending(next) => next,
        AppendResult::Certificate(_) => panic!("rejected vote must not fire"),
    };
    assert_eq!(acc.sig_lists.len(), 1);
    let c = commitment(b"c_vs");
    let i = acc.commit_vote_outcomes.find(&c).expect("materialized");
    assert_eq!(acc.commit_vote_outcomes.stake_at(i), 0);
}

#[test]
fn duplicate_rejection() {
    // Start the DA happy path, then re-apply voter 1's vote: the accumulator
    // is left identical.
    let scheme = TestScheme;
    let entries = entries();
    let mut acc = DAVoteAccumulator::new(4, 3);
    for i in 0u8..2 {
        acc = match acc.append(&da_vote(i, b"c_block"), i as usize, &entries, &scheme) {
            AppendResult::Pending(next) => next,
            AppendResult::Certificate(_) => panic!("fired too early"),
        };
    }
    let signers_before = acc.signers.clone();
    let sigs_before = acc.sig_lists.clone();
    acc = match acc.append(&da_vote(1, b"c_block"), 1, &entries, &scheme) {
        AppendResult::Pending(next) => next,
        AppendResult::Certificate(_) => panic!("duplicate must not fire"),
    };
    assert_eq!(acc.signers, signers_before);
    assert_eq!(acc.sig_lists, sigs_before);
    let c = commitment(b"c_block");
    let i = acc.da_vote_outcomes.find(&c).expect("tally exists");
    assert_eq!(acc.da_vote_outcomes.stake_at(i), 2);
    assert_eq!(acc.da_vote_outcomes.slots[i].1.votes.len(), 2);
    // The committee-position check also catches a duplicate arriving under
    // different key bytes.
    let mut forged = da_vote(5, b"c_block");
    forged.signature.0 = EncodedPublicKey(vec![5, 5, 5, 5]);
    acc = match acc.append(&forged, 1, &entries, &scheme) {
        AppendResult::Pending(next) => next,
        AppendResult::Certificate(_) => panic!("reused position must not fire"),
    };
    assert_eq!(acc.signers, signers_before);
    assert_eq!(acc.sig_lists, sigs_before);
}

#[test]
fn fire_is_monotone_under_extra_votes() {
    // A sequence that fires keeps firing the same kind when more votes are
    // appended after it.
    let scheme = TestScheme;
    let entries = entries();
    let base = vec![yes_vote(0, b"c"), yes_vote(1, b"c"), yes_vote(2, b"c")];
    let extended = vec![
        yes_vote(0, b"c"),
        yes_vote(1, b"c"),
        yes_vote(2, b"c"),
        no_vote(3, b"c"),
    ];
    for votes in [base, extended] {
        let mut acc = QuorumVoteAccumulator::new(4, 3, 2);
        let mut fired = None;
        for vote in &votes {
            let node = match vote {
                QuorumVote::Yes(inner) | QuorumVote::No(inner) => inner.signature.0 .0[0] as usize,
                QuorumVote::Timeout(_) => unreachable!(),
            };
            match acc.append(vote, node, &entries, &scheme) {
                AppendResult::Pending(next) => acc = next,
                AppendResult::Certificate(cert) => {
                    fired = Some(cert.kind());
                    break;
                }
            }
        }
        assert_eq!(fired, Some(CertKind::Yes));
    }
}

#[test]
fn unified_yes_priority() {
    let scheme = TestScheme;
    let entries = entries();
    let mut acc = VoteAccumulator::new(4, 3, 2);
    for i in 0u8..3 {
        let val = (
            commitment(b"c"),
            (
                key(i),
                (
                    enc_sig(i),
                    entries.clone(),
                    i as usize,
                    VoteData::Yes(commitment(b"c")),
                    VoteToken { vote_count: 1 },
                ),
            ),
        );
        match acc.append(val, &scheme) {
            AppendResult::Pending(next) => {
                assert!(i < 2, "three Yes votes reach the quorum");
                acc = next;
            }
            AppendResult::Certificate(cert) => {
                assert_eq!(i, 2);
                assert_eq!(cert.kind(), CertKind::Yes);
                return;
            }
        }
    }
    panic!("the unified accumulator must fire");
}

#[test]
fn unified_precommit_fires_without_quorum() {
    // The pre-commit outcome is not gated on combined participation: two
    // pre-commit votes fire at the failure threshold.
    let scheme = TestScheme;
    let entries = entries();
    let mut acc = VoteAccumulator::new(4, 3, 2);
    for i in 0u8..2 {
        let val = (
            commitment(b"c"),
            (
                key(i),
                (
                    enc_sig(i),
                    entries.clone(),
                    i as usize,
                    VoteData::ViewSyncPreCommit(commitment(b"c")),
                    VoteToken { vote_count: 1 },
                ),
            ),
        );
        match acc.append(val, &scheme) {
            AppendResult::Pending(next) => {
                assert!(i < 1, "two pre-commits reach the failure threshold");
                acc = next;
            }
            AppendResult::Certificate(cert) => {
                assert_eq!(cert.kind(), CertKind::ViewSyncPreCommit);
                return;
            }
        }
    }
    panic!("the unified accumulator must fire");
}

#[test]
fn unified_da_gated_on_participation() {
    // Mixed kinds over one commitment: two DA votes and one Yes vote give
    // total = 3 >= 3 with da = 2 < 3 and yes = 1 < 3: nothing fires yet.
    let scheme = TestScheme;
    let entries = entries();
    let mut acc = VoteAccumulator::new(4, 3, 2);
    let kinds = [
        VoteData::DA(commitment(b"c")),
        VoteData::DA(commitment(b"c")),
        VoteData::Yes(commitment(b"c")),
    ];
    for (i, data) in kinds.into_iter().enumerate() {
        let val = (
            commitment(b"c"),
            (
                key(i as u8),
                (
                    enc_sig(i as u8),
                    entries.clone(),
                    i,
                    data,
                    VoteToken { vote_count: 1 },
                ),
            ),
        );
        acc = match acc.append(val, &scheme) {
            AppendResult::Pending(next) => next,
            AppendResult::Certificate(_) => panic!("no single kind reached its threshold"),
        };
    }
    // A third DA vote pushes da to 3: the DA certificate fires.
    let val = (
        commitment(b"c"),
        (
            key(3),
            (
                enc_sig(3),
                entries.clone(),
                3,
                VoteData::DA(commitment(b"c")),
                VoteToken { vote_count: 1 },
            ),
        ),
    );
    match acc.append(val, &scheme) {
        AppendResult::Pending(_) => panic!("three DA votes reach the quorum"),
        AppendResult::Certificate(cert) => assert_eq!(cert.kind(), CertKind::Da),
    }
}

#[test]
fn viewsync_finalize_quorum() {
    let scheme = TestScheme;
    let entries = entries();
    let mut acc = ViewSyncVoteAccumulator::new(4, 3, 2);
    for i in 0u8..2 {
        acc = match acc.append(&vs_vote(2, i, b"c_vs"), i as usize, &entries, &scheme) {
            AppendResult::Pending(next) => next,
            AppendResult::Certificate(_) => panic!("fired too early"),
        };
    }
    match acc.append(&vs_vote(2, 2, b"c_vs"), 2, &entries, &scheme) {
        AppendResult::Pending(_) => panic!("three finalize votes reach the quorum"),
        AppendResult::Certificate(cert) => assert_eq!(cert.kind(), CertKind::ViewSyncFinalize),
    }
}

#[test]
fn unified_no_outcome() {
    let scheme = TestScheme;
    let entries = entries();
    let mut acc = VoteAccumulator::new(4, 3, 2);
    let kinds = [
        VoteData::Yes(commitment(b"c")),
        VoteData::No(commitment(b"c")),
        VoteData::No(commitment(b"c")),
    ];
    for (i, data) in kinds.into_iter().enumerate() {
        let val = (
            commitment(b"c"),
            (
                key(i as u8),
                (
                    enc_sig(i as u8),
                    entries.clone(),
                    i,
                    data,
                    VoteToken { vote_count: 1 },
                ),
            ),
        );
        match acc.append(val, &scheme) {
            AppendResult::Pending(next) => {
                assert!(i < 2, "quorum participation with enough dissent fires");
                acc = next;
            }
            AppendResult::Certificate(cert) => {
                assert_eq!(i, 2);
                assert_eq!(cert.kind(), CertKind::No);
                return;
            }
        }
    }
    panic!("the unified accumulator must fire");
}

#[test]
fn placeholder_never_fires() {
    let scheme = TestScheme;
    let entries = entries();
    let acc = AccumulatorPlaceholder {};
    match acc.append(&da_vote(0, b"c"), 0, &entries, &scheme) {
        AppendResult::Pending(_) => {}
        AppendResult::Certificate(_) => panic!("the placeholder must never fire"),
    }
}
