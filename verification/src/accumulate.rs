//! The accumulators: pure finite-state collectors that ingest one vote at a
//! time and either evolve or emit an assembled certificate.
//!
//! Every accumulator follows the same append protocol: filter by vote kind,
//! decode the signature share, reject duplicates (first by encoded key within
//! the outcome tallies, then by committee position), commit the share, credit
//! the outcome tally, and evaluate the thresholds in the kind's priority
//! order.  The contracts below pin each append down as a transition over the
//! ghost state in [`crate::model`], so the laws in [`crate::laws`] apply to
//! every implementation detail.

use vstd::prelude::*;
use vstd::pervasive::VecAdditionalExecFns;

use crate::data::{AssembledSignature, CertKind, Commitment, EncodedPublicKey, EncodedSignature,
    PureSignature, StakeTableEntry, VoteData, VoteToken};
use crate::model::{credit, data_commitment, entry_of, has_key, lemma_materialize_preserves,
    lemma_popcount_update, lemma_popcount_zero, lemma_voted_credit, map_wf,
    materialize, popcount, stake_of, voted, MapModel, TallyModel, VoteModel};
use crate::scheme::SignatureScheme;
use crate::vote::{vote_model, VoteType};
use crate::vote_map::{VoteEntry, VoteMap};

verus! {

/// What one append step produced: the evolved accumulator, or the terminal
/// certificate.  Once a certificate is returned the accumulator is consumed;
/// no further appends are possible against the same instance.
pub enum AppendResult<A> {
    /// No threshold reached yet; keep accumulating.
    Pending(A),
    /// A threshold was reached and the certificate was assembled.
    Certificate(AssembledSignature),
}

/// Ghost state of the DA accumulator.
#[verifier::ext_equal]
pub struct DaState {
    /// Commitment to tally of DA votes.
    pub outcomes: MapModel,
    /// Stake required for a quorum.
    pub success_threshold: u64,
    /// Which committee positions have been counted.
    pub signers: Seq<bool>,
    /// Number of collected signature shares.
    pub sigs: int,
}

/// Well-formedness of the DA ghost state: consistent tallies, a non-zero
/// threshold, and as many collected shares as set signer positions.
pub open spec fn da_wf(a: DaState) -> bool {
    &&& map_wf(a.outcomes)
    &&& a.success_threshold >= 1
    &&& popcount(a.signers) == a.sigs
}

/// Whether the DA accumulator accepts this vote: right kind, voter not yet
/// recorded for this commitment, committee position not yet counted, and the
/// position in range.
pub open spec fn da_accepts(a: DaState, v: VoteModel) -> bool {
    &&& v.data is DA
    &&& !voted(materialize(a.outcomes, data_commitment(v.data)), data_commitment(v.data), v.key)
    &&& 0 <= v.node < a.signers.len()
    &&& !a.signers[v.node]
}

/// Overflow headroom for one DA append: the commitment's tally can take the
/// vote's weight.  Committees must be sized so that total stake fits in 64
/// bits; an append that would overflow is a protocol violation.
pub open spec fn da_can_add(a: DaState, v: VoteModel) -> bool {
    v.data is DA ==> stake_of(a.outcomes, data_commitment(v.data)) + v.count <= u64::MAX
}

/// The DA accumulator's transition: how one append changes the ghost state.
/// A wrong-kind vote changes nothing; a duplicate only materializes the
/// commitment's tally; an accepted vote is committed and credited.
pub open spec fn da_step(a: DaState, v: VoteModel) -> DaState {
    if !(v.data is DA) {
        a
    } else {
        let c = data_commitment(v.data);
        let m = materialize(a.outcomes, c);
        if voted(m, c, v.key) || a.signers[v.node] {
            DaState { outcomes: m, ..a }
        } else {
            DaState {
                outcomes: credit(m, c, entry_of(v)),
                success_threshold: a.success_threshold,
                signers: a.signers.update(v.node, true),
                sigs: a.sigs + 1,
            }
        }
    }
}

/// Which certificate one DA append fires, if any: the vote was accepted and
/// the commitment's tally reached the success threshold.
pub open spec fn da_fired(a: DaState, v: VoteModel) -> Option<CertKind> {
    if da_accepts(a, v) && stake_of(da_step(a, v).outcomes, data_commitment(v.data))
        >= a.success_threshold {
        Some(CertKind::Da)
    } else {
        None
    }
}

/// Builds a signer vector of `committee_size` cleared positions.
fn empty_signers(committee_size: usize) -> (s: Vec<bool>)
    ensures
        s@.len() == committee_size,
        forall|i: int| 0 <= i < committee_size ==> !s@[i],
{
    let mut s: Vec<bool> = Vec::new();
    let mut i: usize = 0;
    while i < committee_size
        invariant
            i <= committee_size,
            s@.len() == i,
            forall|j: int| 0 <= j < i ==> !s@[j],
        decreases committee_size - i,
    {
        s.push(false);
        i += 1;
    }
    s
}

/// Accumulates DA votes.  Single outcome: only `VoteData::DA` votes are
/// accepted, and the accumulator fires a DA certificate once the commitment
/// under vote gathers `success_threshold` stake.
pub struct DAVoteAccumulator {
    /// Map of all DA tallies accumulated so far.
    pub da_vote_outcomes: VoteMap,
    /// A quorum's worth of stake, generally two thirds plus one.
    pub success_threshold: u64,
    /// The valid signature shares collected for certificate aggregation.
    pub sig_lists: Vec<PureSignature>,
    /// Which committee positions have sent a counted share; doubles as the
    /// uniqueness check across encoded-key forms.
    pub signers: Vec<bool>,
}

impl View for DAVoteAccumulator {
    type V = DaState;

    open spec fn view(&self) -> DaState {
        DaState {
            outcomes: self.da_vote_outcomes@,
            success_threshold: self.success_threshold,
            signers: self.signers@,
            sigs: self.sig_lists@.len() as int,
        }
    }
}

impl DAVoteAccumulator {
    /// Structural well-formedness carried through every append.
    pub open spec fn wf(self) -> bool {
        &&& self.da_vote_outcomes.wf()
        &&& da_wf(self@)
    }

    /// A fresh accumulator for a committee of `committee_size` voters and the
    /// given non-zero success threshold.  The signer bitset is sized to the
    /// committee once and for all.
    pub fn new(committee_size: usize, success_threshold: u64) -> (a: Self)
        requires
            success_threshold >= 1,
        ensures
            a.wf(),
            a@.outcomes == Map::<Seq<u8>, TallyModel>::empty(),
            a@.success_threshold == success_threshold,
            a@.signers.len() == committee_size,
            forall|i: int| 0 <= i < committee_size ==> !a@.signers[i],
            a@.sigs == 0,
    {
        let signers = empty_signers(committee_size);
        proof {
            lemma_popcount_zero(signers@);
        }
        DAVoteAccumulator {
            da_vote_outcomes: VoteMap::new(),
            success_threshold,
            sig_lists: Vec::new(),
            signers,
        }
    }

    /// Appends one vote.  A vote of the wrong kind, a duplicate voter for the
    /// commitment, or an already counted committee position leaves the tallies
    /// unchanged; an accepted vote is committed and credited, and the
    /// certificate is assembled exactly when the DA tally reaches the success
    /// threshold.
    pub fn append<V: VoteType, S: SignatureScheme>(
        self,
        vote: &V,
        vote_node_id: usize,
        stake_table_entries: &Vec<StakeTableEntry>,
        scheme: &S,
    ) -> (r: AppendResult<Self>)
        requires
            self.wf(),
            vote_node_id < self.signers@.len(),
            vote.data_ok(),
            da_can_add(self@, vote_model(*vote, vote_node_id as int)),
        ensures
            ({
                let v = vote_model(*vote, vote_node_id as int);
                match r {
                    AppendResult::Pending(a) => {
                        &&& da_fired(self@, v) is None
                        &&& a@ == da_step(self@, v)
                        &&& a.wf()
                        &&& a.signers@.len() == self.signers@.len()
                        &&& (!da_accepts(self@, v) ==> a.sig_lists@ == self.sig_lists@
                            && a.signers@ == self.signers@)
                        &&& (da_accepts(self@, v) ==> a.sig_lists@.len() == self.sig_lists@.len()
                            + 1 && a.sig_lists@.take(self.sig_lists@.len() as int)
                            == self.sig_lists@)
                        &&& (v.data is DA && voted(
                            self@.outcomes,
                            data_commitment(v.data),
                            v.key,
                        ) ==> a@ == self@)
                    },
                    AppendResult::Certificate(cert) => {
                        &&& da_fired(self@, v) == Some(cert.spec_kind())
                        &&& cert.spec_kind() == CertKind::Da
                    },
                }
            }),
    {
        let mut this = self;
        let ghost g0 = this@;
        let ghost sigs0 = this.sig_lists@;
        let ghost v = vote_model(*vote, vote_node_id as int);
        let c = match vote.get_data() {
            VoteData::DA(c) => c,
            _ => {
                return AppendResult::Pending(this);
            },
        };
        proof {
            assert(c@ == data_commitment(v.data));
        }
        let encoded_key = vote.get_key();
        let original_signature = scheme.decode(&vote.get_signature());

        let i = this.da_vote_outcomes.ensure_entry(&c);

        // Duplicate voter for this commitment: silently reject.
        if this.da_vote_outcomes.has_voter_at(i, &encoded_key) {
            proof {
                assert(this@ == da_step(g0, v));
                assert(voted(materialize(g0.outcomes, c@), c@, v.key));
                if voted(g0.outcomes, c@, v.key) {
                    assert(this@ == g0);
                }
            }
            return AppendResult::Pending(this);
        }
        // Committee position already counted: silently reject.  (The caller
        // would log this; it does not stop the accumulator.)
        if this.signers[vote_node_id] {
            proof {
                assert(this@ == da_step(g0, v));
                assert(!voted(g0.outcomes, c@, v.key));
            }
            return AppendResult::Pending(this);
        }
        // Commit the share: the two writes are paired.
        this.signers.set(vote_node_id, true);
        this.sig_lists.push(original_signature);
        // Credit the outcome tally.
        let entry = VoteEntry {
            key: encoded_key,
            sig: vote.get_signature(),
            data: vote.get_data(),
            token: vote.get_vote_token(),
        };
        proof {
            assert(entry@ == entry_of(v));
            assert(stake_of(materialize(g0.outcomes, c@), c@) == stake_of(g0.outcomes, c@));
        }
        this.da_vote_outcomes.add_at(i, entry);
        proof {
            assert(da_accepts(g0, v));
            assert(this@ == da_step(g0, v));
            lemma_popcount_update(g0.signers, v.node);
            assert(this.wf());
            assert(stake_of(this@.outcomes, c@) == this.da_vote_outcomes.slots@[i as int].1@.stake);
        }
        if this.da_vote_outcomes.stake_at(i) >= this.success_threshold {
            // Assemble the certificate.
            let real_qc_pp = scheme.public_parameter(stake_table_entries, this.success_threshold);
            let real_qc_sig = scheme.assemble(&real_qc_pp, &this.signers, &this.sig_lists);
            proof {
                assert(da_fired(g0, v) == Some(CertKind::Da));
            }
            return AppendResult::Certificate(AssembledSignature::DA(real_qc_sig));
        }
        proof {
            assert(da_fired(g0, v) is None);
            assert(this.sig_lists@.take(g0.sigs) =~= sigs0);
        }
        AppendResult::Pending(this)
    }
}

/// Ghost state of the quorum accumulator: one tally map per outcome plus the
/// combined `total` map every accepted vote also credits.
#[verifier::ext_equal]
pub struct QuorumState {
    /// Commitment to tally of all accepted votes.
    pub total: MapModel,
    /// Commitment to tally of Yes votes.
    pub yes: MapModel,
    /// Commitment to tally of No votes.
    pub no: MapModel,
    /// Stake required for a quorum.
    pub success_threshold: u64,
    /// Stake constituting enough dissent.
    pub failure_threshold: u64,
    /// Which committee positions have been counted.
    pub signers: Seq<bool>,
    /// Number of collected signature shares.
    pub sigs: int,
}

/// Well-formedness of the quorum ghost state.  Beyond per-map consistency it
/// records that the three maps always materialize together and that every
/// voter recorded for an outcome is recorded in the combined map, which is
/// what makes the single duplicate check on `total` authoritative.
pub open spec fn quorum_wf(a: QuorumState) -> bool {
    &&& map_wf(a.total)
    &&& map_wf(a.yes)
    &&& map_wf(a.no)
    &&& a.success_threshold >= 1
    &&& a.failure_threshold >= 1
    &&& popcount(a.signers) == a.sigs
    &&& a.yes.dom() == a.total.dom()
    &&& a.no.dom() == a.total.dom()
    &&& forall|c: Seq<u8>, k: Seq<u8>| #[trigger] voted(a.yes, c, k) ==> voted(a.total, c, k)
    &&& forall|c: Seq<u8>, k: Seq<u8>| #[trigger] voted(a.no, c, k) ==> voted(a.total, c, k)
}

/// Whether the vote's kind belongs to this accumulator.
pub open spec fn quorum_kind_ok(v: VoteModel) -> bool {
    v.data is Yes || v.data is No
}

/// Whether the quorum accumulator accepts this vote: right kind, voter not
/// yet recorded in the combined map for this commitment, committee position
/// not yet counted, and the position in range.
pub open spec fn quorum_accepts(a: QuorumState, v: VoteModel) -> bool {
    &&& quorum_kind_ok(v)
    &&& !voted(materialize(a.total, data_commitment(v.data)), data_commitment(v.data), v.key)
    &&& 0 <= v.node < a.signers.len()
    &&& !a.signers[v.node]
}

/// Overflow headroom for one quorum append.
pub open spec fn quorum_can_add(a: QuorumState, v: VoteModel) -> bool {
    quorum_kind_ok(v) ==> {
        let c = data_commitment(v.data);
        &&& stake_of(a.total, c) + v.count <= u64::MAX
        &&& stake_of(a.yes, c) + v.count <= u64::MAX
        &&& stake_of(a.no, c) + v.count <= u64::MAX
    }
}

/// The quorum accumulator's transition.  An accepted vote credits `total`
/// plus exactly one of `yes` and `no`.
pub open spec fn quorum_step(a: QuorumState, v: VoteModel) -> QuorumState {
    if !quorum_kind_ok(v) {
        a
    } else {
        let c = data_commitment(v.data);
        let t = materialize(a.total, c);
        let y = materialize(a.yes, c);
        let n = materialize(a.no, c);
        if voted(t, c, v.key) || a.signers[v.node] {
            QuorumState { total: t, yes: y, no: n, ..a }
        } else {
            let e = entry_of(v);
            QuorumState {
                total: credit(t, c, e),
                yes: if v.data is Yes {
                    credit(y, c, e)
                } else {
                    y
                },
                no: if v.data is No {
                    credit(n, c, e)
                } else {
                    n
                },
                success_threshold: a.success_threshold,
                failure_threshold: a.failure_threshold,
                signers: a.signers.update(v.node, true),
                sigs: a.sigs + 1,
            }
        }
    }
}

/// Which certificate one quorum append fires, if any.  Both outcomes are
/// gated on the combined tally reaching the success threshold; Yes has
/// priority, No additionally needs the failure threshold of dissent.
pub open spec fn quorum_fired(a: QuorumState, v: VoteModel) -> Option<CertKind> {
    if quorum_accepts(a, v) {
        let c = data_commitment(v.data);
        let a2 = quorum_step(a, v);
        if stake_of(a2.total, c) >= a.success_threshold {
            if stake_of(a2.yes, c) >= a.success_threshold {
                Some(CertKind::Yes)
            } else if stake_of(a2.no, c) >= a.failure_threshold {
                Some(CertKind::No)
            } else {
                None
            }
        } else {
            None
        }
    } else {
        None
    }
}

/// Accumulates quorum votes.  Dual-outcome race: `Yes` and `No` votes over
/// the same commitment compete; every accepted vote also feeds the combined
/// participation tally that gates both outcomes.
pub struct QuorumVoteAccumulator {
    /// Map of all tallies accumulated so far, both outcomes combined.
    pub total_vote_outcomes: VoteMap,
    /// Map of all Yes tallies accumulated so far.
    pub yes_vote_outcomes: VoteMap,
    /// Map of all No tallies accumulated so far.
    pub no_vote_outcomes: VoteMap,
    /// A quorum's worth of stake, generally two thirds plus one.
    pub success_threshold: u64,
    /// Enough dissent to certify a negative outcome, generally one third.
    pub failure_threshold: u64,
    /// The valid signature shares collected for certificate aggregation.
    pub sig_lists: Vec<PureSignature>,
    /// Which committee positions have sent a counted share.
    pub signers: Vec<bool>,
}

impl View for QuorumVoteAccumulator {
    type V = QuorumState;

    open spec fn view(&self) -> QuorumState {
        QuorumState {
            total: self.total_vote_outcomes@,
            yes: self.yes_vote_outcomes@,
            no: self.no_vote_outcomes@,
            success_threshold: self.success_threshold,
            failure_threshold: self.failure_threshold,
            signers: self.signers@,
            sigs: self.sig_lists@.len() as int,
        }
    }
}

impl QuorumVoteAccumulator {
    /// Structural well-formedness carried through every append.
    pub open spec fn wf(self) -> bool {
        &&& self.total_vote_outcomes.wf()
        &&& self.yes_vote_outcomes.wf()
        &&& self.no_vote_outcomes.wf()
        &&& quorum_wf(self@)
    }

    /// A fresh accumulator for a committee of `committee_size` voters and the
    /// given non-zero thresholds.
    pub fn new(committee_size: usize, success_threshold: u64, failure_threshold: u64) -> (a: Self)
        requires
            success_threshold >= 1,
            failure_threshold >= 1,
        ensures
            a.wf(),
            a@.total == Map::<Seq<u8>, TallyModel>::empty(),
            a@.yes == Map::<Seq<u8>, TallyModel>::empty(),
            a@.no == Map::<Seq<u8>, TallyModel>::empty(),
            a@.success_threshold == success_threshold,
            a@.failure_threshold == failure_threshold,
            a@.signers.len() == committee_size,
            forall|i: int| 0 <= i < committee_size ==> !a@.signers[i],
            a@.sigs == 0,
    {
        let signers = empty_signers(committee_size);
        proof {
            lemma_popcount_zero(signers@);
        }
        QuorumVoteAccumulator {
            total_vote_outcomes: VoteMap::new(),
            yes_vote_outcomes: VoteMap::new(),
            no_vote_outcomes: VoteMap::new(),
            success_threshold,
            failure_threshold,
            sig_lists: Vec::new(),
            signers,
        }
    }

    /// Appends one vote.  Only `Yes` and `No` votes are considered; an
    /// accepted vote credits the combined tally plus its outcome's tally, and
    /// the certificate fires by the priority order: Yes at quorum, else No at
    /// quorum participation with enough dissent.
    pub fn append<V: VoteType, S: SignatureScheme>(
        self,
        vote: &V,
        vote_node_id: usize,
        stake_table_entries: &Vec<StakeTableEntry>,
        scheme: &S,
    ) -> (r: AppendResult<Self>)
        requires
            self.wf(),
            vote_node_id < self.signers@.len(),
            vote.data_ok(),
            quorum_can_add(self@, vote_model(*vote, vote_node_id as int)),
        ensures
            ({
                let v = vote_model(*vote, vote_node_id as int);
                match r {
                    AppendResult::Pending(a) => {
                        &&& quorum_fired(self@, v) is None
                        &&& a@ == quorum_step(self@, v)
                        &&& a.wf()
                        &&& a.signers@.len() == self.signers@.len()
                        &&& (!quorum_accepts(self@, v) ==> a.sig_lists@ == self.sig_lists@
                            && a.signers@ == self.signers@)
                        &&& (quorum_accepts(self@, v) ==> a.sig_lists@.len()
                            == self.sig_lists@.len() + 1 && a.sig_lists@.take(
                            self.sig_lists@.len() as int,
                        ) == self.sig_lists@)
                        &&& (quorum_kind_ok(v) && voted(
                            self@.total,
                            data_commitment(v.data),
                            v.key,
                        ) ==> a@ == self@)
                    },
                    AppendResult::Certificate(cert) => {
                        &&& quorum_fired(self@, v) == Some(cert.spec_kind())
                        &&& (cert.spec_kind() == CertKind::Yes || cert.spec_kind() == CertKind::No)
                    },
                }
            }),
    {
        let mut this = self;
        let ghost g0 = this@;
        let ghost sigs0 = this.sig_lists@;
        let ghost v = vote_model(*vote, vote_node_id as int);
        let (c, is_yes) = match vote.get_data() {
            VoteData::Yes(c) => (c, true),
            VoteData::No(c) => (c, false),
            _ => {
                return AppendResult::Pending(this);
            },
        };
        proof {
            assert(c@ == data_commitment(v.data));
        }
        let encoded_key = vote.get_key();
        let original_signature = scheme.decode(&vote.get_signature());

        let ti = this.total_vote_outcomes.ensure_entry(&c);
        let yi = this.yes_vote_outcomes.ensure_entry(&c);
        let ni = this.no_vote_outcomes.ensure_entry(&c);
        proof {
            lemma_materialize_preserves(g0.total, c@);
            lemma_materialize_preserves(g0.yes, c@);
            lemma_materialize_preserves(g0.no, c@);
        }

        // Duplicate voter for this commitment: silently reject.
        if this.total_vote_outcomes.has_voter_at(ti, &encoded_key) {
            proof {
                assert(this@ == quorum_step(g0, v));
                assert(this.wf()) by {
                    assert(this@.yes.dom() =~= this@.total.dom());
                    assert(this@.no.dom() =~= this@.total.dom());
                }
                if voted(g0.total, c@, v.key) {
                    assert(g0.yes.dom().contains(c@));
                    assert(g0.no.dom().contains(c@));
                    assert(this@ == g0);
                }
            }
            return AppendResult::Pending(this);
        }
        // Committee position already counted: silently reject.
        if this.signers[vote_node_id] {
            proof {
                assert(this@ == quorum_step(g0, v));
                assert(this.wf()) by {
                    assert(this@.yes.dom() =~= this@.total.dom());
                    assert(this@.no.dom() =~= this@.total.dom());
                }
                assert(!voted(g0.total, c@, v.key));
            }
            return AppendResult::Pending(this);
        }
        // Commit the share: the two writes are paired.
        this.signers.set(vote_node_id, true);
        this.sig_lists.push(original_signature);
        // Credit the combined tally and the outcome's own tally.
        let entry_total = VoteEntry {
            key: encoded_key,
            sig: vote.get_signature(),
            data: vote.get_data(),
            token: vote.get_vote_token(),
        };
        let entry_outcome = VoteEntry {
            key: vote.get_key(),
            sig: vote.get_signature(),
            data: vote.get_data(),
            token: vote.get_vote_token(),
        };
        proof {
            assert(entry_total@ == entry_of(v));
            assert(entry_outcome@ == entry_of(v));
            assert(quorum_accepts(g0, v));
        }
        let ghost m_total = this.total_vote_outcomes@;
        let ghost m_yes = this.yes_vote_outcomes@;
        let ghost m_no = this.no_vote_outcomes@;
        proof {
            // The single duplicate check on the combined map is authoritative:
            // a voter recorded for an outcome is recorded in the combined map.
            if has_key(this.yes_vote_outcomes.slots@[yi as int].1@.votes, v.key) {
                assert(voted(m_yes, c@, v.key));
                assert(voted(g0.yes, c@, v.key));
                assert(voted(g0.total, c@, v.key));
                assert(voted(m_total, c@, v.key));
            }
            if has_key(this.no_vote_outcomes.slots@[ni as int].1@.votes, v.key) {
                assert(voted(m_no, c@, v.key));
                assert(voted(g0.no, c@, v.key));
                assert(voted(g0.total, c@, v.key));
                assert(voted(m_total, c@, v.key));
            }
        }
        this.total_vote_outcomes.add_at(ti, entry_total);
        if is_yes {
            this.yes_vote_outcomes.add_at(yi, entry_outcome);
        } else {
            this.no_vote_outcomes.add_at(ni, entry_outcome);
        }
        proof {
            let g1 = quorum_step(g0, v);
            assert(this@ == g1);
            lemma_popcount_update(g0.signers, v.node);
            lemma_voted_credit(m_total, c@, entry_of(v));
            if v.data is Yes {
                lemma_voted_credit(m_yes, c@, entry_of(v));
            } else {
                lemma_voted_credit(m_no, c@, entry_of(v));
            }
            assert(this.wf()) by {
                assert(g1.yes.dom() =~= g1.total.dom());
                assert(g1.no.dom() =~= g1.total.dom());
                assert forall|d: Seq<u8>, k: Seq<u8>| #[trigger] voted(g1.yes, d, k) implies voted(
                    g1.total,
                    d,
                    k,
                ) by {
                    assert(voted(m_yes, d, k) ==> voted(m_total, d, k));
                }
                assert forall|d: Seq<u8>, k: Seq<u8>| #[trigger] voted(g1.no, d, k) implies voted(
                    g1.total,
                    d,
                    k,
                ) by {
                    assert(voted(m_no, d, k) ==> voted(m_total, d, k));
                }
            }
            assert(stake_of(this@.total, c@) == this.total_vote_outcomes.slots@[ti as int].1@.stake);
            assert(stake_of(this@.yes, c@) == this.yes_vote_outcomes.slots@[yi as int].1@.stake);
            assert(stake_of(this@.no, c@) == this.no_vote_outcomes.slots@[ni as int].1@.stake);
        }
        let total_stake = this.total_vote_outcomes.stake_at(ti);
        let yes_stake = this.yes_vote_outcomes.stake_at(yi);
        let no_stake = this.no_vote_outcomes.stake_at(ni);
        if total_stake >= this.success_threshold {
            if yes_stake >= this.success_threshold {
                // Assemble the Yes certificate.
                let real_qc_pp = scheme.public_parameter(
                    stake_table_entries,
                    this.success_threshold,
                );
                let real_qc_sig = scheme.assemble(&real_qc_pp, &this.signers, &this.sig_lists);
                proof {
                    assert(quorum_fired(g0, v) == Some(CertKind::Yes));
                }
                return AppendResult::Certificate(AssembledSignature::Yes(real_qc_sig));
            } else if no_stake >= this.failure_threshold {
                // Assemble the No certificate.
                let real_qc_pp = scheme.public_parameter(
                    stake_table_entries,
                    this.success_threshold,
                );
                let real_qc_sig = scheme.assemble(&real_qc_pp, &this.signers, &this.sig_lists);
                proof {
                    assert(quorum_fired(g0, v) == Some(CertKind::No));
                }
                return AppendResult::Certificate(AssembledSignature::No(real_qc_sig));
            }
        }
        proof {
            assert(quorum_fired(g0, v) is None);
            assert(this.sig_lists@.take(g0.sigs) =~= sigs0);
        }
        AppendResult::Pending(this)
    }
}

/// Ghost state of the view-synchronization accumulator: one tally map per
/// phase, over the same commitment space.
#[verifier::ext_equal]
pub struct ViewSyncState {
    /// Commitment to tally of pre-commit votes.
    pub pre_commit: MapModel,
    /// Commitment to tally of commit votes.
    pub commit: MapModel,
    /// Commitment to tally of finalize votes.
    pub finalize: MapModel,
    /// Stake required for a quorum.
    pub success_threshold: u64,
    /// Stake signalling that enough honest nodes want to synchronize.
    pub failure_threshold: u64,
    /// Which committee positions have been counted.
    pub signers: Seq<bool>,
    /// Number of collected signature shares.
    pub sigs: int,
}

/// Well-formedness of the view-sync ghost state.  The three maps materialize
/// in pre-commit, commit, finalize order, so each later map's commitments are
/// a subset of the earlier map's.
pub open spec fn vs_wf(a: ViewSyncState) -> bool {
    &&& map_wf(a.pre_commit)
    &&& map_wf(a.commit)
    &&& map_wf(a.finalize)
    &&& a.success_threshold >= 1
    &&& a.failure_threshold >= 1
    &&& popcount(a.signers) == a.sigs
    &&& forall|c: Seq<u8>| #[trigger] a.commit.dom().contains(c) ==> a.pre_commit.dom().contains(c)
    &&& forall|c: Seq<u8>| #[trigger] a.finalize.dom().contains(c) ==> a.commit.dom().contains(c)
}

/// Whether the vote's kind belongs to this accumulator.
pub open spec fn vs_kind_ok(v: VoteModel) -> bool {
    v.data is ViewSyncPreCommit || v.data is ViewSyncCommit || v.data is ViewSyncFinalize
}

/// Whether the view-sync accumulator accepts this vote: right kind, voter not
/// yet recorded in any of the three phases for this commitment, committee
/// position not yet counted, and the position in range.
pub open spec fn vs_accepts(a: ViewSyncState, v: VoteModel) -> bool {
    let c = data_commitment(v.data);
    &&& vs_kind_ok(v)
    &&& !voted(materialize(a.pre_commit, c), c, v.key)
    &&& !voted(materialize(a.commit, c), c, v.key)
    &&& !voted(materialize(a.finalize, c), c, v.key)
    &&& 0 <= v.node < a.signers.len()
    &&& !a.signers[v.node]
}

/// Overflow headroom for one view-sync append.
pub open spec fn vs_can_add(a: ViewSyncState, v: VoteModel) -> bool {
    vs_kind_ok(v) ==> {
        let c = data_commitment(v.data);
        &&& stake_of(a.pre_commit, c) + v.count <= u64::MAX
        &&& stake_of(a.commit, c) + v.count <= u64::MAX
        &&& stake_of(a.finalize, c) + v.count <= u64::MAX
    }
}

/// The view-sync accumulator's transition.  Duplicate detection walks the
/// phases in order and stops at the first hit, so a rejection materializes
/// only the maps already visited; an accepted vote credits exactly its
/// phase's tally.
pub open spec fn vs_step(a: ViewSyncState, v: VoteModel) -> ViewSyncState {
    if !vs_kind_ok(v) {
        a
    } else {
        let c = data_commitment(v.data);
        let p = materialize(a.pre_commit, c);
        if voted(p, c, v.key) {
            ViewSyncState { pre_commit: p, ..a }
        } else {
            let m = materialize(a.commit, c);
            if voted(m, c, v.key) {
                ViewSyncState { pre_commit: p, commit: m, ..a }
            } else {
                let f = materialize(a.finalize, c);
                if voted(f, c, v.key) || a.signers[v.node] {
                    ViewSyncState { pre_commit: p, commit: m, finalize: f, ..a }
                } else {
                    let e = entry_of(v);
                    ViewSyncState {
                        pre_commit: if v.data is ViewSyncPreCommit {
                            credit(p, c, e)
                        } else {
                            p
                        },
                        commit: if v.data is ViewSyncCommit {
                            credit(m, c, e)
                        } else {
                            m
                        },
                        finalize: if v.data is ViewSyncFinalize {
                            credit(f, c, e)
                        } else {
                            f
                        },
                        success_threshold: a.success_threshold,
                        failure_threshold: a.failure_threshold,
                        signers: a.signers.update(v.node, true),
                        sigs: a.sigs + 1,
                    }
                }
            }
        }
    }
}

/// Which certificate one view-sync append fires, if any, in priority order:
/// pre-commit at the failure threshold first, then commit, then finalize at
/// the success threshold.
pub open spec fn vs_fired(a: ViewSyncState, v: VoteModel) -> Option<CertKind> {
    if vs_accepts(a, v) {
        let c = data_commitment(v.data);
        let a2 = vs_step(a, v);
        if stake_of(a2.pre_commit, c) >= a.failure_threshold {
            Some(CertKind::ViewSyncPreCommit)
        } else if stake_of(a2.commit, c) >= a.success_threshold {
            Some(CertKind::ViewSyncCommit)
        } else if stake_of(a2.finalize, c) >= a.success_threshold {
            Some(CertKind::ViewSyncFinalize)
        } else {
            None
        }
    } else {
        None
    }
}

/// Accumulates view-synchronization votes.  Triple-outcome race across the
/// three view-sync phases, all sharing one commitment space.  The signer
/// bitset is shared across phases: a voter who already contributed to one
/// phase of this instance is rejected in the others; drivers that want
/// per-phase participation allocate a fresh accumulator per phase.
pub struct ViewSyncVoteAccumulator {
    /// Map of all pre-commit tallies accumulated so far.
    pub pre_commit_vote_outcomes: VoteMap,
    /// Map of all commit tallies accumulated so far.
    pub commit_vote_outcomes: VoteMap,
    /// Map of all finalize tallies accumulated so far.
    pub finalize_vote_outcomes: VoteMap,
    /// A quorum's worth of stake, generally two thirds plus one.
    pub success_threshold: u64,
    /// Stake signalling that enough honest nodes want to synchronize.
    pub failure_threshold: u64,
    /// The valid signature shares collected for certificate aggregation.
    pub sig_lists: Vec<PureSignature>,
    /// Which committee positions have sent a counted share.
    pub signers: Vec<bool>,
}

impl View for ViewSyncVoteAccumulator {
    type V = ViewSyncState;

    open spec fn view(&self) -> ViewSyncState {
        ViewSyncState {
            pre_commit: self.pre_commit_vote_outcomes@,
            commit: self.commit_vote_outcomes@,
            finalize: self.finalize_vote_outcomes@,
            success_threshold: self.success_threshold,
            failure_threshold: self.failure_threshold,
            signers: self.signers@,
            sigs: self.sig_lists@.len() as int,
        }
    }
}

impl ViewSyncVoteAccumulator {
    /// Structural well-formedness carried through every append.
    pub open spec fn wf(self) -> bool {
        &&& self.pre_commit_vote_outcomes.wf()
        &&& self.commit_vote_outcomes.wf()
        &&& self.finalize_vote_outcomes.wf()
        &&& vs_wf(self@)
    }

    /// A fresh accumulator for a committee of `committee_size` voters and the
    /// given non-zero thresholds.
    pub fn new(committee_size: usize, success_threshold: u64, failure_threshold: u64) -> (a: Self)
        requires
            success_threshold >= 1,
            failure_threshold >= 1,
        ensures
            a.wf(),
            a@.pre_commit == Map::<Seq<u8>, TallyModel>::empty(),
            a@.commit == Map::<Seq<u8>, TallyModel>::empty(),
            a@.finalize == Map::<Seq<u8>, TallyModel>::empty(),
            a@.success_threshold == success_threshold,
            a@.failure_threshold == failure_threshold,
            a@.signers.len() == committee_size,
            forall|i: int| 0 <= i < committee_size ==> !a@.signers[i],
            a@.sigs == 0,
    {
        let signers = empty_signers(committee_size);
        proof {
            lemma_popcount_zero(signers@);
        }
        ViewSyncVoteAccumulator {
            pre_commit_vote_outcomes: VoteMap::new(),
            commit_vote_outcomes: VoteMap::new(),
            finalize_vote_outcomes: VoteMap::new(),
            success_threshold,
            failure_threshold,
            sig_lists: Vec::new(),
            signers,
        }
    }

    /// Appends one vote.  Only view-sync votes are considered; duplicates are
    /// detected against all three phase maps before any mutation, and the
    /// thresholds are evaluated pre-commit first (at the failure threshold),
    /// then commit, then finalize.
    pub fn append<V: VoteType, S: SignatureScheme>(
        self,
        vote: &V,
        vote_node_id: usize,
        stake_table_entries: &Vec<StakeTableEntry>,
        scheme: &S,
    ) -> (r: AppendResult<Self>)
        requires
            self.wf(),
            vote_node_id < self.signers@.len(),
            vote.data_ok(),
            vs_can_add(self@, vote_model(*vote, vote_node_id as int)),
        ensures
            ({
                let v = vote_model(*vote, vote_node_id as int);
                match r {
                    AppendResult::Pending(a) => {
                        &&& vs_fired(self@, v) is None
                        &&& a@ == vs_step(self@, v)
                        &&& a.wf()
                        &&& a.signers@.len() == self.signers@.len()
                        &&& (!vs_accepts(self@, v) ==> a.sig_lists@ == self.sig_lists@
                            && a.signers@ == self.signers@)
                        &&& (vs_accepts(self@, v) ==> a.sig_lists@.len() == self.sig_lists@.len()
                            + 1 && a.sig_lists@.take(self.sig_lists@.len() as int)
                            == self.sig_lists@)
                        &&& (vs_kind_ok(v) && (voted(
                            self@.pre_commit,
                            data_commitment(v.data),
                            v.key,
                        ) || voted(self@.commit, data_commitment(v.data), v.key) || voted(
                            self@.finalize,
                            data_commitment(v.data),
                            v.key,
                        )) ==> a@ == self@)
                    },
                    AppendResult::Certificate(cert) => {
                        &&& vs_fired(self@, v) == Some(cert.spec_kind())
                        &&& (cert.spec_kind() == CertKind::ViewSyncPreCommit || cert.spec_kind()
                            == CertKind::ViewSyncCommit || cert.spec_kind()
                            == CertKind::ViewSyncFinalize)
                    },
                }
            }),
    {
        let mut this = self;
        let ghost g0 = this@;
        let ghost sigs0 = this.sig_lists@;
        let ghost v = vote_model(*vote, vote_node_id as int);
        let (c, phase) = match vote.get_data() {
            VoteData::ViewSyncPreCommit(c) => (c, 0usize),
            VoteData::ViewSyncCommit(c) => (c, 1usize),
            VoteData::ViewSyncFinalize(c) => (c, 2usize),
            _ => {
                return AppendResult::Pending(this);
            },
        };
        proof {
            assert(c@ == data_commitment(v.data));
        }
        let encoded_key = vote.get_key();
        let original_signature = scheme.decode(&vote.get_signature());

        let pi = this.pre_commit_vote_outcomes.ensure_entry(&c);
        proof {
            lemma_materialize_preserves(g0.pre_commit, c@);
        }
        // Duplicate voter in the pre-commit phase: silently reject.
        if this.pre_commit_vote_outcomes.has_voter_at(pi, &encoded_key) {
            proof {
                assert(this@ == vs_step(g0, v));
                assert(voted(g0.pre_commit, c@, v.key));
                assert(this@ == g0);
            }
            return AppendResult::Pending(this);
        }
        let ci = this.commit_vote_outcomes.ensure_entry(&c);
        proof {
            lemma_materialize_preserves(g0.commit, c@);
        }
        // Duplicate voter in the commit phase: silently reject.
        if this.commit_vote_outcomes.has_voter_at(ci, &encoded_key) {
            proof {
                assert(this@ == vs_step(g0, v));
                assert(voted(g0.commit, c@, v.key));
                assert(g0.pre_commit.dom().contains(c@));
                assert(this@ == g0);
            }
            return AppendResult::Pending(this);
        }
        let fi = this.finalize_vote_outcomes.ensure_entry(&c);
        proof {
            lemma_materialize_preserves(g0.finalize, c@);
        }
        // Duplicate voter in the finalize phase: silently reject.
        if this.finalize_vote_outcomes.has_voter_at(fi, &encoded_key) {
            proof {
                assert(this@ == vs_step(g0, v));
                assert(voted(g0.finalize, c@, v.key));
                assert(g0.commit.dom().contains(c@));
                assert(g0.pre_commit.dom().contains(c@));
                assert(this@ == g0);
            }
            return AppendResult::Pending(this);
        }
        // Committee position already counted: silently reject.  The bitset is
        // shared across phases, so a voter moving to the next phase against
        // this same instance is rejected here.
        if this.signers[vote_node_id] {
            proof {
                assert(this@ == vs_step(g0, v));
                assert(!voted(g0.pre_commit, c@, v.key));
                assert(!voted(g0.commit, c@, v.key));
                assert(!voted(g0.finalize, c@, v.key));
            }
            return AppendResult::Pending(this);
        }
        // Commit the share: the two writes are paired.
        this.signers.set(vote_node_id, true);
        this.sig_lists.push(original_signature);
        // Credit the phase's tally.
        let entry = VoteEntry {
            key: encoded_key,
            sig: vote.get_signature(),
            data: vote.get_data(),
            token: vote.get_vote_token(),
        };
        proof {
            assert(entry@ == entry_of(v));
            assert(vs_accepts(g0, v));
        }
        let ghost m_pre = this.pre_commit_vote_outcomes@;
        let ghost m_com = this.commit_vote_outcomes@;
        let ghost m_fin = this.finalize_vote_outcomes@;
        if phase == 0 {
            this.pre_commit_vote_outcomes.add_at(pi, entry);
        } else if phase == 1 {
            this.commit_vote_outcomes.add_at(ci, entry);
        } else {
            this.finalize_vote_outcomes.add_at(fi, entry);
        }
        proof {
            let g1 = vs_step(g0, v);
            assert(this@ == g1);
            lemma_popcount_update(g0.signers, v.node);
            if v.data is ViewSyncPreCommit {
                lemma_voted_credit(m_pre, c@, entry_of(v));
            } else if v.data is ViewSyncCommit {
                lemma_voted_credit(m_com, c@, entry_of(v));
            } else {
                lemma_voted_credit(m_fin, c@, entry_of(v));
            }
            assert(this.wf()) by {
                assert forall|d: Seq<u8>| #[trigger] g1.commit.dom().contains(d) implies g1
                    .pre_commit.dom().contains(d) by {
                    assert(m_com.dom().contains(d) ==> m_pre.dom().contains(d));
                }
                assert forall|d: Seq<u8>| #[trigger] g1.finalize.dom().contains(d) implies g1
                    .commit.dom().contains(d) by {
                    assert(m_fin.dom().contains(d) ==> m_com.dom().contains(d));
                }
            }
            assert(stake_of(this@.pre_commit, c@) == this.pre_commit_vote_outcomes.slots@[pi as int]
                .1@.stake);
            assert(stake_of(this@.commit, c@) == this.commit_vote_outcomes.slots@[ci as int]
                .1@.stake);
            assert(stake_of(this@.finalize, c@) == this.finalize_vote_outcomes.slots@[fi as int]
                .1@.stake);
        }
        let pre_stake = this.pre_commit_vote_outcomes.stake_at(pi);
        let commit_stake = this.commit_vote_outcomes.stake_at(ci);
        let finalize_stake = this.finalize_vote_outcomes.stake_at(fi);
        if pre_stake >= this.failure_threshold {
            // Assemble the pre-commit certificate, at the failure threshold.
            let real_qc_pp = scheme.public_parameter(stake_table_entries, this.failure_threshold);
            let real_qc_sig = scheme.assemble(&real_qc_pp, &this.signers, &this.sig_lists);
            proof {
                assert(vs_fired(g0, v) == Some(CertKind::ViewSyncPreCommit));
            }
            return AppendResult::Certificate(AssembledSignature::ViewSyncPreCommit(real_qc_sig));
        }
        if commit_stake >= this.success_threshold {
            // Assemble the commit certificate.
            let real_qc_pp = scheme.public_parameter(stake_table_entries, this.success_threshold);
            let real_qc_sig = scheme.assemble(&real_qc_pp, &this.signers, &this.sig_lists);
            proof {
                assert(vs_fired(g0, v) == Some(CertKind::ViewSyncCommit));
            }
            return AppendResult::Certificate(AssembledSignature::ViewSyncCommit(real_qc_sig));
        }
        if finalize_stake >= this.success_threshold {
            // Assemble the finalize certificate.
            let real_qc_pp = scheme.public_parameter(stake_table_entries, this.success_threshold);
            let real_qc_sig = scheme.assemble(&real_qc_pp, &this.signers, &this.sig_lists);
            proof {
                assert(vs_fired(g0, v) == Some(CertKind::ViewSyncFinalize));
            }
            return AppendResult::Certificate(AssembledSignature::ViewSyncFinalize(real_qc_sig));
        }
        proof {
            assert(vs_fired(g0, v) is None);
            assert(this.sig_lists@.take(g0.sigs) =~= sigs0);
        }
        AppendResult::Pending(this)
    }
}

/// Ghost state of the unified accumulator: one tally map per vote kind plus
/// the combined `total` map, all keyed by the caller-supplied commitment.
#[verifier::ext_equal]
pub struct UnifiedState {
    /// Commitment to tally of all accepted votes.
    pub total: MapModel,
    /// Commitment to tally of DA votes.
    pub da: MapModel,
    /// Commitment to tally of Yes votes.
    pub yes: MapModel,
    /// Commitment to tally of No votes.
    pub no: MapModel,
    /// Commitment to tally of view-sync pre-commit votes.
    pub pre_commit: MapModel,
    /// Commitment to tally of view-sync commit votes.
    pub commit: MapModel,
    /// Commitment to tally of view-sync finalize votes.
    pub finalize: MapModel,
    /// Stake required for a quorum.
    pub success_threshold: u64,
    /// Stake constituting enough dissent, and the pre-commit trigger.
    pub failure_threshold: u64,
    /// Which committee positions have been counted.
    pub signers: Seq<bool>,
    /// Number of collected signature shares.
    pub sigs: int,
}

/// Well-formedness of the unified ghost state: per-map consistency, the six
/// kind maps' voters all appear in the combined map (the single duplicate
/// check there is authoritative), and every commitment with a recorded voter
/// has been materialized in all seven maps.
pub open spec fn unified_wf(a: UnifiedState) -> bool {
    &&& map_wf(a.total)
    &&& map_wf(a.da)
    &&& map_wf(a.yes)
    &&& map_wf(a.no)
    &&& map_wf(a.pre_commit)
    &&& map_wf(a.commit)
    &&& map_wf(a.finalize)
    &&& a.success_threshold >= 1
    &&& a.failure_threshold >= 1
    &&& popcount(a.signers) == a.sigs
    &&& forall|c: Seq<u8>, k: Seq<u8>| #[trigger] voted(a.da, c, k) ==> voted(a.total, c, k)
    &&& forall|c: Seq<u8>, k: Seq<u8>| #[trigger] voted(a.yes, c, k) ==> voted(a.total, c, k)
    &&& forall|c: Seq<u8>, k: Seq<u8>| #[trigger] voted(a.no, c, k) ==> voted(a.total, c, k)
    &&& forall|c: Seq<u8>, k: Seq<u8>| #[trigger] voted(a.pre_commit, c, k) ==> voted(a.total, c, k)
    &&& forall|c: Seq<u8>, k: Seq<u8>| #[trigger] voted(a.commit, c, k) ==> voted(a.total, c, k)
    &&& forall|c: Seq<u8>, k: Seq<u8>| #[trigger] voted(a.finalize, c, k) ==> voted(a.total, c, k)
    &&& forall|c: Seq<u8>, k: Seq<u8>| #[trigger] voted(a.total, c, k) ==> a.da.dom().contains(c)
        && a.yes.dom().contains(c) && a.no.dom().contains(c) && a.pre_commit.dom().contains(c)
        && a.commit.dom().contains(c) && a.finalize.dom().contains(c)
}

/// Whether the unified accumulator accepts this vote for commitment `c`: a
/// non-timeout kind, voter not yet recorded in the combined map for `c`,
/// committee position not yet counted, and the position in range.
pub open spec fn unified_accepts(a: UnifiedState, c: Seq<u8>, v: VoteModel) -> bool {
    &&& !(v.data is Timeout)
    &&& !voted(materialize(a.total, c), c, v.key)
    &&& 0 <= v.node < a.signers.len()
    &&& !a.signers[v.node]
}

/// Overflow headroom for one unified append.
pub open spec fn unified_can_add(a: UnifiedState, c: Seq<u8>, v: VoteModel) -> bool {
    &&& stake_of(a.total, c) + v.count <= u64::MAX
    &&& stake_of(a.da, c) + v.count <= u64::MAX
    &&& stake_of(a.yes, c) + v.count <= u64::MAX
    &&& stake_of(a.no, c) + v.count <= u64::MAX
    &&& stake_of(a.pre_commit, c) + v.count <= u64::MAX
    &&& stake_of(a.commit, c) + v.count <= u64::MAX
    &&& stake_of(a.finalize, c) + v.count <= u64::MAX
}

/// The unified accumulator's transition for a vote over commitment `c`.  A
/// duplicate found in the combined map rejects before the six kind maps are
/// materialized; an accepted vote credits the combined map plus the map of
/// the vote's kind.
pub open spec fn unified_step(a: UnifiedState, c: Seq<u8>, v: VoteModel) -> UnifiedState {
    let t = materialize(a.total, c);
    if voted(t, c, v.key) {
        UnifiedState { total: t, ..a }
    } else {
        let d = materialize(a.da, c);
        let y = materialize(a.yes, c);
        let n = materialize(a.no, c);
        let p = materialize(a.pre_commit, c);
        let m = materialize(a.commit, c);
        let f = materialize(a.finalize, c);
        if a.signers[v.node] {
            UnifiedState {
                total: t,
                da: d,
                yes: y,
                no: n,
                pre_commit: p,
                commit: m,
                finalize: f,
                ..a
            }
        } else {
            let e = entry_of(v);
            UnifiedState {
                total: credit(t, c, e),
                da: if v.data is DA {
                    credit(d, c, e)
                } else {
                    d
                },
                yes: if v.data is Yes {
                    credit(y, c, e)
                } else {
                    y
                },
                no: if v.data is No {
                    credit(n, c, e)
                } else {
                    n
                },
                pre_commit: if v.data is ViewSyncPreCommit {
                    credit(p, c, e)
                } else {
                    p
                },
                commit: if v.data is ViewSyncCommit {
                    credit(m, c, e)
                } else {
                    m
                },
                finalize: if v.data is ViewSyncFinalize {
                    credit(f, c, e)
                } else {
                    f
                },
                success_threshold: a.success_threshold,
                failure_threshold: a.failure_threshold,
                signers: a.signers.update(v.node, true),
                sigs: a.sigs + 1,
            }
        }
    }
}

/// Which certificate one unified append fires, if any, in the legacy priority
/// order: Yes, No, DA, view-sync commit and finalize — all gated on combined
/// participation — then view-sync pre-commit at the failure threshold alone.
pub open spec fn unified_fired(a: UnifiedState, c: Seq<u8>, v: VoteModel) -> Option<CertKind> {
    if unified_accepts(a, c, v) {
        let a2 = unified_step(a, c, v);
        let s = a.success_threshold;
        let f = a.failure_threshold;
        if stake_of(a2.total, c) >= s && stake_of(a2.yes, c) >= s {
            Some(CertKind::Yes)
        } else if stake_of(a2.total, c) >= s && stake_of(a2.no, c) >= f {
            Some(CertKind::No)
        } else if stake_of(a2.total, c) >= s && stake_of(a2.da, c) >= s {
            Some(CertKind::Da)
        } else if stake_of(a2.total, c) >= s && stake_of(a2.commit, c) >= s {
            Some(CertKind::ViewSyncCommit)
        } else if stake_of(a2.total, c) >= s && stake_of(a2.finalize, c) >= s {
            Some(CertKind::ViewSyncFinalize)
        } else if stake_of(a2.pre_commit, c) >= f {
            Some(CertKind::ViewSyncPreCommit)
        } else {
            None
        }
    } else {
        None
    }
}

/// The payload of one unified append: the commitment under vote, then the
/// voter's encoded key, with the encoded signature share, the committee's
/// stake table, the voter's committee position, the vote data, and the vote
/// token.
pub type UnifiedVote = (
    Commitment,
    (EncodedPublicKey, (EncodedSignature, Vec<StakeTableEntry>, usize, VoteData<Commitment>, VoteToken)),
);

/// The historical superset accumulator: collects signatures over block or
/// leaf commitments of every vote kind at once and dispatches by vote-data
/// tag inside `append`.  New drivers should prefer the per-kind accumulators;
/// this form is kept for compatibility.
pub struct VoteAccumulator {
    /// Map of all tallies accumulated so far, every kind combined.
    pub total_vote_outcomes: VoteMap,
    /// Map of all DA tallies accumulated so far.
    pub da_vote_outcomes: VoteMap,
    /// Map of all Yes tallies accumulated so far.
    pub yes_vote_outcomes: VoteMap,
    /// Map of all No tallies accumulated so far.
    pub no_vote_outcomes: VoteMap,
    /// Map of all view-sync pre-commit tallies accumulated so far.
    pub viewsync_precommit_vote_outcomes: VoteMap,
    /// Map of all view-sync commit tallies accumulated so far.
    pub viewsync_commit_vote_outcomes: VoteMap,
    /// Map of all view-sync finalize tallies accumulated so far.
    pub viewsync_finalize_vote_outcomes: VoteMap,
    /// A quorum's worth of stake, generally two thirds plus one.
    pub success_threshold: u64,
    /// Enough stake to know that a quorum is impossible, generally one third.
    pub failure_threshold: u64,
    /// The valid signature shares collected for certificate aggregation.
    pub sig_lists: Vec<PureSignature>,
    /// Which committee positions have sent a counted share.
    pub signers: Vec<bool>,
}

impl View for VoteAccumulator {
    type V = UnifiedState;

    open spec fn view(&self) -> UnifiedState {
        UnifiedState {
            total: self.total_vote_outcomes@,
            da: self.da_vote_outcomes@,
            yes: self.yes_vote_outcomes@,
            no: self.no_vote_outcomes@,
            pre_commit: self.viewsync_precommit_vote_outcomes@,
            commit: self.viewsync_commit_vote_outcomes@,
            finalize: self.viewsync_finalize_vote_outcomes@,
            success_threshold: self.success_threshold,
            failure_threshold: self.failure_threshold,
            signers: self.signers@,
            sigs: self.sig_lists@.len() as int,
        }
    }
}

impl VoteAccumulator {
    /// Structural well-formedness carried through every append.
    pub open spec fn wf(self) -> bool {
        &&& self.total_vote_outcomes.wf()
        &&& self.da_vote_outcomes.wf()
        &&& self.yes_vote_outcomes.wf()
        &&& self.no_vote_outcomes.wf()
        &&& self.viewsync_precommit_vote_outcomes.wf()
        &&& self.viewsync_commit_vote_outcomes.wf()
        &&& self.viewsync_finalize_vote_outcomes.wf()
        &&& unified_wf(self@)
    }

    /// A fresh accumulator for a committee of `committee_size` voters and the
    /// given non-zero thresholds.
    pub fn new(committee_size: usize, success_threshold: u64, failure_threshold: u64) -> (a: Self)
        requires
            success_threshold >= 1,
            failure_threshold >= 1,
        ensures
            a.wf(),
            a@.total == Map::<Seq<u8>, TallyModel>::empty(),
            a@.da == Map::<Seq<u8>, TallyModel>::empty(),
            a@.yes == Map::<Seq<u8>, TallyModel>::empty(),
            a@.no == Map::<Seq<u8>, TallyModel>::empty(),
            a@.pre_commit == Map::<Seq<u8>, TallyModel>::empty(),
            a@.commit == Map::<Seq<u8>, TallyModel>::empty(),
            a@.finalize == Map::<Seq<u8>, TallyModel>::empty(),
            a@.success_threshold == success_threshold,
            a@.failure_threshold == failure_threshold,
            a@.signers.len() == committee_size,
            forall|i: int| 0 <= i < committee_size ==> !a@.signers[i],
            a@.sigs == 0,
    {
        let signers = empty_signers(committee_size);
        proof {
            lemma_popcount_zero(signers@);
        }
        VoteAccumulator {
            total_vote_outcomes: VoteMap::new(),
            da_vote_outcomes: VoteMap::new(),
            yes_vote_outcomes: VoteMap::new(),
            no_vote_outcomes: VoteMap::new(),
            viewsync_precommit_vote_outcomes: VoteMap::new(),
            viewsync_commit_vote_outcomes: VoteMap::new(),
            viewsync_finalize_vote_outcomes: VoteMap::new(),
            success_threshold,
            failure_threshold,
            sig_lists: Vec::new(),
            signers,
        }
    }

    /// Appends one vote, delivered as the legacy tuple of commitment, key,
    /// signature, stake table, committee position, vote data and token.
    /// Timeout votes are outside this accumulator's scope and excluded by
    /// precondition.
    pub fn append<S: SignatureScheme>(self, val: UnifiedVote, scheme: &S) -> (r: AppendResult<
        Self,
    >)
        requires
            self.wf(),
            val.1.1.2 < self.signers@.len(),
            !(val.1.1.3@ is Timeout),
            unified_can_add(
                self@,
                val.0@,
                VoteModel {
                    key: val.1.0@,
                    sig: val.1.1.0@,
                    data: val.1.1.3@,
                    count: val.1.1.4.vote_count,
                    node: val.1.1.2 as int,
                },
            ),
        ensures
            ({
                let c = val.0@;
                let v = VoteModel {
                    key: val.1.0@,
                    sig: val.1.1.0@,
                    data: val.1.1.3@,
                    count: val.1.1.4.vote_count,
                    node: val.1.1.2 as int,
                };
                match r {
                    AppendResult::Pending(a) => {
                        &&& unified_fired(self@, c, v) is None
                        &&& a@ == unified_step(self@, c, v)
                        &&& a.wf()
                        &&& a.signers@.len() == self.signers@.len()
                        &&& (!unified_accepts(self@, c, v) ==> a.sig_lists@ == self.sig_lists@
                            && a.signers@ == self.signers@)
                        &&& (unified_accepts(self@, c, v) ==> a.sig_lists@.len()
                            == self.sig_lists@.len() + 1 && a.sig_lists@.take(
                            self.sig_lists@.len() as int,
                        ) == self.sig_lists@)
                        &&& (voted(self@.total, c, v.key) ==> a@ == self@)
                    },
                    AppendResult::Certificate(cert) => {
                        &&& unified_fired(self@, c, v) == Some(cert.spec_kind())
                    },
                }
            }),
    {
        let mut this = self;
        let ghost g0 = this@;
        let ghost sigs0 = this.sig_lists@;
        let (commitment, (key, (sig, entries, node_id, vote_data, token))) = val;
        let ghost c = commitment@;
        let ghost v = VoteModel {
            key: key@,
            sig: sig@,
            data: vote_data@,
            count: token.vote_count,
            node: node_id as int,
        };
        // Decode the signature share into its aggregation form.
        let original_signature = scheme.decode(&sig);

        let ti = this.total_vote_outcomes.ensure_entry(&commitment);
        proof {
            lemma_materialize_preserves(g0.total, c);
        }
        // Duplicate voter for this commitment: silently reject.
        if this.total_vote_outcomes.has_voter_at(ti, &key) {
            proof {
                assert(this@ == unified_step(g0, c, v));
                assert(voted(g0.total, c, v.key));
                assert(this@ == g0);
            }
            return AppendResult::Pending(this);
        }
        let di = this.da_vote_outcomes.ensure_entry(&commitment);
        let yi = this.yes_vote_outcomes.ensure_entry(&commitment);
        let ni = this.no_vote_outcomes.ensure_entry(&commitment);
        let pi = this.viewsync_precommit_vote_outcomes.ensure_entry(&commitment);
        let ci = this.viewsync_commit_vote_outcomes.ensure_entry(&commitment);
        let fi = this.viewsync_finalize_vote_outcomes.ensure_entry(&commitment);
        proof {
            lemma_materialize_preserves(g0.da, c);
            lemma_materialize_preserves(g0.yes, c);
            lemma_materialize_preserves(g0.no, c);
            lemma_materialize_preserves(g0.pre_commit, c);
            lemma_materialize_preserves(g0.commit, c);
            lemma_materialize_preserves(g0.finalize, c);
        }
        // Committee position already counted: silently reject.
        if this.signers[node_id] {
            proof {
                assert(this@ == unified_step(g0, c, v));
                assert(!voted(g0.total, c, v.key));
            }
            return AppendResult::Pending(this);
        }
        // Commit the share: the two writes are paired.
        this.signers.set(node_id, true);
        this.sig_lists.push(original_signature);
        // Credit the combined tally and the kind's own tally.
        let entry_total = VoteEntry {
            key: key.clone(),
            sig: sig.clone(),
            data: vote_data.clone(),
            token: token.clone(),
        };
        let entry_kind = VoteEntry { key, sig, data: vote_data, token };
        proof {
            assert(entry_total@ == entry_of(v));
            assert(entry_kind@ == entry_of(v));
            assert(unified_accepts(g0, c, v));
            // A voter recorded for a kind would be recorded in the combined
            // map, which the duplicate check ruled out.
            if has_key(this.da_vote_outcomes.slots@[di as int].1@.votes, v.key) {
                assert(voted(g0.da, c, v.key));
            }
            if has_key(this.yes_vote_outcomes.slots@[yi as int].1@.votes, v.key) {
                assert(voted(g0.yes, c, v.key));
            }
            if has_key(this.no_vote_outcomes.slots@[ni as int].1@.votes, v.key) {
                assert(voted(g0.no, c, v.key));
            }
            if has_key(this.viewsync_precommit_vote_outcomes.slots@[pi as int].1@.votes, v.key) {
                assert(voted(g0.pre_commit, c, v.key));
            }
            if has_key(this.viewsync_commit_vote_outcomes.slots@[ci as int].1@.votes, v.key) {
                assert(voted(g0.commit, c, v.key));
            }
            if has_key(this.viewsync_finalize_vote_outcomes.slots@[fi as int].1@.votes, v.key) {
                assert(voted(g0.finalize, c, v.key));
            }
        }
        let ghost m_total = this.total_vote_outcomes@;
        let ghost m_da = this.da_vote_outcomes@;
        let ghost m_yes = this.yes_vote_outcomes@;
        let ghost m_no = this.no_vote_outcomes@;
        let ghost m_pre = this.viewsync_precommit_vote_outcomes@;
        let ghost m_com = this.viewsync_commit_vote_outcomes@;
        let ghost m_fin = this.viewsync_finalize_vote_outcomes@;
        this.total_vote_outcomes.add_at(ti, entry_total);
        match &entry_kind.data {
            VoteData::DA(_) => this.da_vote_outcomes.add_at(di, entry_kind),
            VoteData::Yes(_) => this.yes_vote_outcomes.add_at(yi, entry_kind),
            VoteData::No(_) => this.no_vote_outcomes.add_at(ni, entry_kind),
            VoteData::ViewSyncPreCommit(_) => this.viewsync_precommit_vote_outcomes.add_at(
                pi,
                entry_kind,
            ),
            VoteData::ViewSyncCommit(_) => this.viewsync_commit_vote_outcomes.add_at(
                ci,
                entry_kind,
            ),
            VoteData::ViewSyncFinalize(_) => this.viewsync_finalize_vote_outcomes.add_at(
                fi,
                entry_kind,
            ),
            VoteData::Timeout(_) => unreached(),
        }
        proof {
            let g1 = unified_step(g0, c, v);
            assert(this@ == g1);
            lemma_popcount_update(g0.signers, v.node);
            lemma_voted_credit(m_total, c, entry_of(v));
            if v.data is DA {
                lemma_voted_credit(m_da, c, entry_of(v));
            } else if v.data is Yes {
                lemma_voted_credit(m_yes, c, entry_of(v));
            } else if v.data is No {
                lemma_voted_credit(m_no, c, entry_of(v));
            } else if v.data is ViewSyncPreCommit {
                lemma_voted_credit(m_pre, c, entry_of(v));
            } else if v.data is ViewSyncCommit {
                lemma_voted_credit(m_com, c, entry_of(v));
            } else {
                lemma_voted_credit(m_fin, c, entry_of(v));
            }
            assert(this.wf()) by {
                assert forall|d: Seq<u8>, k: Seq<u8>| #[trigger] voted(g1.da, d, k) implies voted(
                    g1.total,
                    d,
                    k,
                ) by {
                    assert(voted(m_da, d, k) ==> voted(m_total, d, k));
                }
                assert forall|d: Seq<u8>, k: Seq<u8>| #[trigger] voted(g1.yes, d, k) implies voted(
                    g1.total,
                    d,
                    k,
                ) by {
                    assert(voted(m_yes, d, k) ==> voted(m_total, d, k));
                }
                assert forall|d: Seq<u8>, k: Seq<u8>| #[trigger] voted(g1.no, d, k) implies voted(
                    g1.total,
                    d,
                    k,
                ) by {
                    assert(voted(m_no, d, k) ==> voted(m_total, d, k));
                }
                assert forall|d: Seq<u8>, k: Seq<u8>| #[trigger] voted(
                    g1.pre_commit,
                    d,
                    k,
                ) implies voted(g1.total, d, k) by {
                    assert(voted(m_pre, d, k) ==> voted(m_total, d, k));
                }
                assert forall|d: Seq<u8>, k: Seq<u8>| #[trigger] voted(
                    g1.commit,
                    d,
                    k,
                ) implies voted(g1.total, d, k) by {
                    assert(voted(m_com, d, k) ==> voted(m_total, d, k));
                }
                assert forall|d: Seq<u8>, k: Seq<u8>| #[trigger] voted(
                    g1.finalize,
                    d,
                    k,
                ) implies voted(g1.total, d, k) by {
                    assert(voted(m_fin, d, k) ==> voted(m_total, d, k));
                }
                assert forall|d: Seq<u8>, k: Seq<u8>| #[trigger] voted(g1.total, d, k) implies g1
                    .da.dom().contains(d) && g1.yes.dom().contains(d) && g1.no.dom().contains(d)
                    && g1.pre_commit.dom().contains(d) && g1.commit.dom().contains(d)
                    && g1.finalize.dom().contains(d) by {
                    if voted(m_total, d, k) {
                    } else {
                        assert(d == c);
                    }
                }
            }
            assert(stake_of(this@.total, c) == this.total_vote_outcomes.slots@[ti as int].1@.stake);
            assert(stake_of(this@.da, c) == this.da_vote_outcomes.slots@[di as int].1@.stake);
            assert(stake_of(this@.yes, c) == this.yes_vote_outcomes.slots@[yi as int].1@.stake);
            assert(stake_of(this@.no, c) == this.no_vote_outcomes.slots@[ni as int].1@.stake);
            assert(stake_of(this@.pre_commit, c) == this.viewsync_precommit_vote_outcomes.slots@[pi as int].1@.stake);
            assert(stake_of(this@.commit, c) == this.viewsync_commit_vote_outcomes.slots@[ci as int].1@.stake);
            assert(stake_of(this@.finalize, c) == this.viewsync_finalize_vote_outcomes.slots@[fi as int].1@.stake);
        }
        let total_stake = this.total_vote_outcomes.stake_at(ti);
        let da_stake = this.da_vote_outcomes.stake_at(di);
        let yes_stake = this.yes_vote_outcomes.stake_at(yi);
        let no_stake = this.no_vote_outcomes.stake_at(ni);
        let pre_stake = this.viewsync_precommit_vote_outcomes.stake_at(pi);
        let commit_stake = this.viewsync_commit_vote_outcomes.stake_at(ci);
        let finalize_stake = this.viewsync_finalize_vote_outcomes.stake_at(fi);
        if total_stake >= this.success_threshold {
            let real_qc_pp = scheme.public_parameter(&entries, this.success_threshold);
            if yes_stake >= this.success_threshold {
                let real_qc_sig = scheme.assemble(&real_qc_pp, &this.signers, &this.sig_lists);
                return AppendResult::Certificate(AssembledSignature::Yes(real_qc_sig));
            } else if no_stake >= this.failure_threshold {
                let real_qc_sig = scheme.assemble(&real_qc_pp, &this.signers, &this.sig_lists);
                return AppendResult::Certificate(AssembledSignature::No(real_qc_sig));
            } else if da_stake >= this.success_threshold {
                let real_qc_sig = scheme.assemble(&real_qc_pp, &this.signers, &this.sig_lists);
                return AppendResult::Certificate(AssembledSignature::DA(real_qc_sig));
            } else if commit_stake >= this.success_threshold {
                let real_qc_sig = scheme.assemble(&real_qc_pp, &this.signers, &this.sig_lists);
                return AppendResult::Certificate(AssembledSignature::ViewSyncCommit(real_qc_sig));
            } else if finalize_stake >= this.success_threshold {
                let real_qc_sig = scheme.assemble(&real_qc_pp, &this.signers, &this.sig_lists);
                return AppendResult::Certificate(
                    AssembledSignature::ViewSyncFinalize(real_qc_sig),
                );
            }
        }
        if pre_stake >= this.failure_threshold {
            let real_qc_pp = scheme.public_parameter(&entries, this.failure_threshold);
            let real_qc_sig = scheme.assemble(&real_qc_pp, &this.signers, &this.sig_lists);
            return AppendResult::Certificate(AssembledSignature::ViewSyncPreCommit(real_qc_sig));
        }
        proof {
            assert(unified_fired(g0, c, v) is None);
            assert(this.sig_lists@.take(g0.sigs) =~= sigs0);
        }
        AppendResult::Pending(this)
    }
}

/// Placeholder accumulator: accepts nothing and never fires.  Kept as the
/// neutral element drivers can wire in for vote kinds they do not collect.
pub struct AccumulatorPlaceholder {
}

impl AccumulatorPlaceholder {
    /// Appends one vote by ignoring it.
    pub fn append<V: VoteType, S: SignatureScheme>(
        self,
        _vote: &V,
        _vote_node_id: usize,
        _stake_table_entries: &Vec<StakeTableEntry>,
        _scheme: &S,
    ) -> (r: AppendResult<Self>)
        ensures
            r is Pending,
    {
        AppendResult::Pending(self)
    }
}

} // verus!
