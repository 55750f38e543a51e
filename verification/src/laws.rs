//! The laws the accumulators obey over whole vote sequences.
//!
//! [`crate::accumulate`] pins each single append down as a ghost transition;
//! this module lifts those transitions to runs — folding a vote sequence
//! through an accumulator until it fires — and proves the protocol-level
//! guarantees: the structural invariants hold after any prefix of any vote
//! sequence, and a fired certificate is stable under appending further votes.

use vstd::prelude::*;

use crate::accumulate::{da_accepts, da_can_add, da_fired, da_step, da_wf, quorum_accepts,
    quorum_can_add, quorum_fired,
    quorum_step, quorum_wf, unified_accepts, unified_can_add, unified_fired, unified_step, unified_wf, vs_accepts, vs_can_add,
    vs_fired, vs_step, vs_wf, DaState, QuorumState, UnifiedState, ViewSyncState};
use crate::data::{CertKind, VoteData};
use crate::model::{credit, data_commitment, entry_of, lemma_credit_map_wf,
    lemma_materialize_preserves, lemma_popcount_update, lemma_stake_credit, lemma_voted_credit,
    materialize, stake_of, voted, VoteModel};

verus! {

/// What running a vote sequence through an accumulator produced: the final
/// pending state, or the kind of the certificate that fired first.
pub enum RunOutcome<A> {
    /// The whole sequence was applied and no threshold was reached.
    Pending(A),
    /// A certificate of this kind fired; the accumulator was consumed and
    /// the rest of the sequence never reached it.
    Fired(CertKind),
}

/// One vote for the unified accumulator: the caller-supplied commitment the
/// maps are keyed by, and the vote itself.
pub struct UnifiedVoteModel {
    pub c: Seq<u8>,
    pub v: VoteModel,
}

// ---------------------------------------------------------------------------
// DA accumulator
// ---------------------------------------------------------------------------

/// Folds a vote sequence through the DA accumulator, stopping at the first
/// certificate.
pub open spec fn da_run(a: DaState, vs: Seq<VoteModel>) -> RunOutcome<DaState>
    decreases vs.len(),
{
    if vs.len() == 0 {
        RunOutcome::Pending(a)
    } else if da_fired(a, vs[0]) is Some {
        RunOutcome::Fired(da_fired(a, vs[0])->0)
    } else {
        da_run(da_step(a, vs[0]), vs.subrange(1, vs.len() as int))
    }
}

/// Every vote of the sequence, applied in order, respects the stake headroom
/// and addresses a committee position in range.
pub open spec fn da_run_ok(a: DaState, vs: Seq<VoteModel>) -> bool
    decreases vs.len(),
{
    vs.len() == 0 || {
        &&& da_can_add(a, vs[0])
        &&& 0 <= vs[0].node < a.signers.len()
        &&& da_run_ok(da_step(a, vs[0]), vs.subrange(1, vs.len() as int))
    }
}

/// One DA append preserves well-formedness: tally consistency (each tally's
/// stake equals the sum of its recorded votes' weights), one vote per voter
/// per tally, and the signers/shares bijection.
pub proof fn lemma_da_step_wf(a: DaState, v: VoteModel)
    requires
        da_wf(a),
        da_can_add(a, v),
        0 <= v.node < a.signers.len(),
    ensures
        da_wf(da_step(a, v)),
        da_step(a, v).signers.len() == a.signers.len(),
        da_step(a, v).success_threshold == a.success_threshold,
    decreases 0int,
{
    if v.data is DA {
        let c = data_commitment(v.data);
        lemma_materialize_preserves(a.outcomes, c);
        let m = materialize(a.outcomes, c);
        if !voted(m, c, v.key) && !a.signers[v.node] {
            lemma_popcount_update(a.signers, v.node);
            lemma_credit_map_wf(m, c, entry_of(v));
        }
    }
}

/// I1, I2 and I3 over whole runs: after applying any prefix of any vote
/// sequence to a well-formed DA accumulator, the accumulator is still well
/// formed — every tally's accumulated stake equals the sum of its votes'
/// weights, no voter's key appears twice in one tally, and the number of set
/// signer positions equals the number of collected shares.
pub proof fn lemma_da_run_wf(a: DaState, vs: Seq<VoteModel>)
    requires
        da_wf(a),
        da_run_ok(a, vs),
    ensures
        da_run(a, vs) matches RunOutcome::Pending(b) ==> da_wf(b),
    decreases vs.len(),
{
    if vs.len() > 0 && da_fired(a, vs[0]) is None {
        lemma_da_step_wf(a, vs[0]);
        lemma_da_run_wf(da_step(a, vs[0]), vs.subrange(1, vs.len() as int));
    }
}

/// I4 for the DA accumulator: a run that fired keeps firing the same kind
/// when further votes are appended to the sequence — extra votes can never
/// un-fire a certificate.
pub proof fn lemma_da_fire_monotone(a: DaState, vs: Seq<VoteModel>, ws: Seq<VoteModel>)
    requires
        da_run(a, vs) is Fired,
    ensures
        da_run(a, vs + ws) == da_run(a, vs),
    decreases vs.len(),
{
    let v = vs[0];
    assert((vs + ws)[0] == v);
    if da_fired(a, v) is None {
        assert((vs + ws).subrange(1, (vs + ws).len() as int) =~= vs.subrange(1, vs.len() as int)
            + ws);
        lemma_da_fire_monotone(da_step(a, v), vs.subrange(1, vs.len() as int), ws);
    }
}

// ---------------------------------------------------------------------------
// Quorum accumulator
// ---------------------------------------------------------------------------

/// Folds a vote sequence through the quorum accumulator, stopping at the
/// first certificate.
pub open spec fn quorum_run(a: QuorumState, vs: Seq<VoteModel>) -> RunOutcome<QuorumState>
    decreases vs.len(),
{
    if vs.len() == 0 {
        RunOutcome::Pending(a)
    } else if quorum_fired(a, vs[0]) is Some {
        RunOutcome::Fired(quorum_fired(a, vs[0])->0)
    } else {
        quorum_run(quorum_step(a, vs[0]), vs.subrange(1, vs.len() as int))
    }
}

/// Every vote of the sequence, applied in order, respects the stake headroom
/// and addresses a committee position in range.
pub open spec fn quorum_run_ok(a: QuorumState, vs: Seq<VoteModel>) -> bool
    decreases vs.len(),
{
    vs.len() == 0 || {
        &&& quorum_can_add(a, vs[0])
        &&& 0 <= vs[0].node < a.signers.len()
        &&& quorum_run_ok(quorum_step(a, vs[0]), vs.subrange(1, vs.len() as int))
    }
}

/// One quorum append preserves well-formedness, including the cross-map
/// invariants: the three maps materialize together and every voter recorded
/// for an outcome is recorded in the combined map.
pub proof fn lemma_quorum_step_wf(a: QuorumState, v: VoteModel)
    requires
        quorum_wf(a),
        quorum_can_add(a, v),
        0 <= v.node < a.signers.len(),
    ensures
        quorum_wf(quorum_step(a, v)),
        quorum_step(a, v).signers.len() == a.signers.len(),
        quorum_step(a, v).success_threshold == a.success_threshold,
        quorum_step(a, v).failure_threshold == a.failure_threshold,
    decreases 0int,
{
    if v.data is Yes || v.data is No {
        let c = data_commitment(v.data);
        lemma_materialize_preserves(a.total, c);
        lemma_materialize_preserves(a.yes, c);
        lemma_materialize_preserves(a.no, c);
        let t = materialize(a.total, c);
        let y = materialize(a.yes, c);
        let n = materialize(a.no, c);
        let g1 = quorum_step(a, v);
        if !voted(t, c, v.key) && !a.signers[v.node] {
            lemma_popcount_update(a.signers, v.node);
            lemma_credit_map_wf(t, c, entry_of(v));
            lemma_voted_credit(t, c, entry_of(v));
            if v.data is Yes {
                if voted(y, c, v.key) {
                    assert(voted(a.yes, c, v.key));
                    assert(voted(t, c, v.key));
                }
                lemma_credit_map_wf(y, c, entry_of(v));
                lemma_voted_credit(y, c, entry_of(v));
            } else {
                if voted(n, c, v.key) {
                    assert(voted(a.no, c, v.key));
                    assert(voted(t, c, v.key));
                }
                lemma_credit_map_wf(n, c, entry_of(v));
                lemma_voted_credit(n, c, entry_of(v));
            }
            assert(g1.yes.dom() =~= g1.total.dom());
            assert(g1.no.dom() =~= g1.total.dom());
        } else {
            assert(g1.yes.dom() =~= g1.total.dom());
            assert(g1.no.dom() =~= g1.total.dom());
        }
    }
}

/// I1, I2 and I3 over whole runs of the quorum accumulator: well-formedness
/// holds after applying any prefix of any vote sequence.
pub proof fn lemma_quorum_run_wf(a: QuorumState, vs: Seq<VoteModel>)
    requires
        quorum_wf(a),
        quorum_run_ok(a, vs),
    ensures
        quorum_run(a, vs) matches RunOutcome::Pending(b) ==> quorum_wf(b),
    decreases vs.len(),
{
    if vs.len() > 0 && quorum_fired(a, vs[0]) is None {
        lemma_quorum_step_wf(a, vs[0]);
        lemma_quorum_run_wf(quorum_step(a, vs[0]), vs.subrange(1, vs.len() as int));
    }
}

/// I4 for the quorum accumulator: a run that fired keeps firing the same
/// kind when further votes are appended to the sequence.
pub proof fn lemma_quorum_fire_monotone(a: QuorumState, vs: Seq<VoteModel>, ws: Seq<VoteModel>)
    requires
        quorum_run(a, vs) is Fired,
    ensures
        quorum_run(a, vs + ws) == quorum_run(a, vs),
    decreases vs.len(),
{
    let v = vs[0];
    assert((vs + ws)[0] == v);
    if quorum_fired(a, v) is None {
        assert((vs + ws).subrange(1, (vs + ws).len() as int) =~= vs.subrange(1, vs.len() as int)
            + ws);
        lemma_quorum_fire_monotone(quorum_step(a, v), vs.subrange(1, vs.len() as int), ws);
    }
}

// ---------------------------------------------------------------------------
// View-sync accumulator
// ---------------------------------------------------------------------------

/// Folds a vote sequence through the view-sync accumulator, stopping at the
/// first certificate.
pub open spec fn vs_run(a: ViewSyncState, vs: Seq<VoteModel>) -> RunOutcome<ViewSyncState>
    decreases vs.len(),
{
    if vs.len() == 0 {
        RunOutcome::Pending(a)
    } else if vs_fired(a, vs[0]) is Some {
        RunOutcome::Fired(vs_fired(a, vs[0])->0)
    } else {
        vs_run(vs_step(a, vs[0]), vs.subrange(1, vs.len() as int))
    }
}

/// Every vote of the sequence, applied in order, respects the stake headroom
/// and addresses a committee position in range.
pub open spec fn vs_run_ok(a: ViewSyncState, vs: Seq<VoteModel>) -> bool
    decreases vs.len(),
{
    vs.len() == 0 || {
        &&& vs_can_add(a, vs[0])
        &&& 0 <= vs[0].node < a.signers.len()
        &&& vs_run_ok(vs_step(a, vs[0]), vs.subrange(1, vs.len() as int))
    }
}

/// One view-sync append preserves well-formedness, including the phase maps'
/// materialization chain.
pub proof fn lemma_vs_step_wf(a: ViewSyncState, v: VoteModel)
    requires
        vs_wf(a),
        vs_can_add(a, v),
        0 <= v.node < a.signers.len(),
    ensures
        vs_wf(vs_step(a, v)),
        vs_step(a, v).signers.len() == a.signers.len(),
        vs_step(a, v).success_threshold == a.success_threshold,
        vs_step(a, v).failure_threshold == a.failure_threshold,
    decreases 0int,
{
    if v.data is ViewSyncPreCommit || v.data is ViewSyncCommit || v.data is ViewSyncFinalize {
        let c = data_commitment(v.data);
        lemma_materialize_preserves(a.pre_commit, c);
        lemma_materialize_preserves(a.commit, c);
        lemma_materialize_preserves(a.finalize, c);
        let p = materialize(a.pre_commit, c);
        let m = materialize(a.commit, c);
        let f = materialize(a.finalize, c);
        if !voted(p, c, v.key) && !voted(m, c, v.key) && !voted(f, c, v.key)
            && !a.signers[v.node] {
            lemma_popcount_update(a.signers, v.node);
            if v.data is ViewSyncPreCommit {
                lemma_credit_map_wf(p, c, entry_of(v));
            } else if v.data is ViewSyncCommit {
                lemma_credit_map_wf(m, c, entry_of(v));
            } else {
                lemma_credit_map_wf(f, c, entry_of(v));
            }
        }
    }
}

/// I1, I2 and I3 over whole runs of the view-sync accumulator:
/// well-formedness holds after applying any prefix of any vote sequence.
pub proof fn lemma_vs_run_wf(a: ViewSyncState, vs: Seq<VoteModel>)
    requires
        vs_wf(a),
        vs_run_ok(a, vs),
    ensures
        vs_run(a, vs) matches RunOutcome::Pending(b) ==> vs_wf(b),
    decreases vs.len(),
{
    if vs.len() > 0 && vs_fired(a, vs[0]) is None {
        lemma_vs_step_wf(a, vs[0]);
        lemma_vs_run_wf(vs_step(a, vs[0]), vs.subrange(1, vs.len() as int));
    }
}

/// I4 for the view-sync accumulator: a run that fired keeps firing the same
/// kind when further votes are appended to the sequence.
pub proof fn lemma_vs_fire_monotone(a: ViewSyncState, vs: Seq<VoteModel>, ws: Seq<VoteModel>)
    requires
        vs_run(a, vs) is Fired,
    ensures
        vs_run(a, vs + ws) == vs_run(a, vs),
    decreases vs.len(),
{
    let v = vs[0];
    assert((vs + ws)[0] == v);
    if vs_fired(a, v) is None {
        assert((vs + ws).subrange(1, (vs + ws).len() as int) =~= vs.subrange(1, vs.len() as int)
            + ws);
        lemma_vs_fire_monotone(vs_step(a, v), vs.subrange(1, vs.len() as int), ws);
    }
}

// ---------------------------------------------------------------------------
// Unified accumulator
// ---------------------------------------------------------------------------

/// Folds a vote sequence through the unified accumulator, stopping at the
/// first certificate.
pub open spec fn unified_run(a: UnifiedState, vs: Seq<UnifiedVoteModel>) -> RunOutcome<
    UnifiedState,
>
    decreases vs.len(),
{
    if vs.len() == 0 {
        RunOutcome::Pending(a)
    } else if unified_fired(a, vs[0].c, vs[0].v) is Some {
        RunOutcome::Fired(unified_fired(a, vs[0].c, vs[0].v)->0)
    } else {
        unified_run(unified_step(a, vs[0].c, vs[0].v), vs.subrange(1, vs.len() as int))
    }
}

/// Every vote of the sequence, applied in order, is of a kind the unified
/// accumulator handles and respects headroom and committee bounds.
pub open spec fn unified_run_ok(a: UnifiedState, vs: Seq<UnifiedVoteModel>) -> bool
    decreases vs.len(),
{
    vs.len() == 0 || {
        &&& unified_can_add(a, vs[0].c, vs[0].v)
        &&& !(vs[0].v.data is Timeout)
        &&& 0 <= vs[0].v.node < a.signers.len()
        &&& unified_run_ok(unified_step(a, vs[0].c, vs[0].v), vs.subrange(1, vs.len() as int))
    }
}

/// One unified append preserves well-formedness, including the invariants
/// tying the six kind maps to the combined map.
pub proof fn lemma_unified_step_wf(a: UnifiedState, c: Seq<u8>, v: VoteModel)
    requires
        unified_wf(a),
        unified_can_add(a, c, v),
        !(v.data is Timeout),
        0 <= v.node < a.signers.len(),
    ensures
        unified_wf(unified_step(a, c, v)),
        unified_step(a, c, v).signers.len() == a.signers.len(),
        unified_step(a, c, v).success_threshold == a.success_threshold,
        unified_step(a, c, v).failure_threshold == a.failure_threshold,
    decreases 0int,
{
    lemma_materialize_preserves(a.total, c);
    lemma_materialize_preserves(a.da, c);
    lemma_materialize_preserves(a.yes, c);
    lemma_materialize_preserves(a.no, c);
    lemma_materialize_preserves(a.pre_commit, c);
    lemma_materialize_preserves(a.commit, c);
    lemma_materialize_preserves(a.finalize, c);
    let t = materialize(a.total, c);
    let g1 = unified_step(a, c, v);
    if !voted(t, c, v.key) && !a.signers[v.node] {
        lemma_popcount_update(a.signers, v.node);
        lemma_credit_map_wf(t, c, entry_of(v));
        lemma_voted_credit(t, c, entry_of(v));
        let d = materialize(a.da, c);
        let y = materialize(a.yes, c);
        let n = materialize(a.no, c);
        let p = materialize(a.pre_commit, c);
        let m = materialize(a.commit, c);
        let f = materialize(a.finalize, c);
        if v.data is DA {
            if voted(d, c, v.key) {
                assert(voted(a.da, c, v.key));
            }
            lemma_credit_map_wf(d, c, entry_of(v));
            lemma_voted_credit(d, c, entry_of(v));
        } else if v.data is Yes {
            if voted(y, c, v.key) {
                assert(voted(a.yes, c, v.key));
            }
            lemma_credit_map_wf(y, c, entry_of(v));
            lemma_voted_credit(y, c, entry_of(v));
        } else if v.data is No {
            if voted(n, c, v.key) {
                assert(voted(a.no, c, v.key));
            }
            lemma_credit_map_wf(n, c, entry_of(v));
            lemma_voted_credit(n, c, entry_of(v));
        } else if v.data is ViewSyncPreCommit {
            if voted(p, c, v.key) {
                assert(voted(a.pre_commit, c, v.key));
            }
            lemma_credit_map_wf(p, c, entry_of(v));
            lemma_voted_credit(p, c, entry_of(v));
        } else if v.data is ViewSyncCommit {
            if voted(m, c, v.key) {
                assert(voted(a.commit, c, v.key));
            }
            lemma_credit_map_wf(m, c, entry_of(v));
            lemma_voted_credit(m, c, entry_of(v));
        } else {
            if voted(f, c, v.key) {
                assert(voted(a.finalize, c, v.key));
            }
            lemma_credit_map_wf(f, c, entry_of(v));
            lemma_voted_credit(f, c, entry_of(v));
        }
        assert forall|e: Seq<u8>, k: Seq<u8>| #[trigger] voted(g1.total, e, k) implies g1
            .da.dom().contains(e) && g1.yes.dom().contains(e) && g1.no.dom().contains(e)
            && g1.pre_commit.dom().contains(e) && g1.commit.dom().contains(e)
            && g1.finalize.dom().contains(e) by {
            if voted(a.total, e, k) {
            } else {
                assert(e == c);
            }
        }
    }
}

/// I1, I2 and I3 over whole runs of the unified accumulator:
/// well-formedness holds after applying any prefix of any vote sequence.
pub proof fn lemma_unified_run_wf(a: UnifiedState, vs: Seq<UnifiedVoteModel>)
    requires
        unified_wf(a),
        unified_run_ok(a, vs),
    ensures
        unified_run(a, vs) matches RunOutcome::Pending(b) ==> unified_wf(b),
    decreases vs.len(),
{
    if vs.len() > 0 && unified_fired(a, vs[0].c, vs[0].v) is None {
        lemma_unified_step_wf(a, vs[0].c, vs[0].v);
        lemma_unified_run_wf(unified_step(a, vs[0].c, vs[0].v), vs.subrange(1, vs.len() as int));
    }
}

/// I4 for the unified accumulator: a run that fired keeps firing the same
/// kind when further votes are appended to the sequence.
pub proof fn lemma_unified_fire_monotone(
    a: UnifiedState,
    vs: Seq<UnifiedVoteModel>,
    ws: Seq<UnifiedVoteModel>,
)
    requires
        unified_run(a, vs) is Fired,
    ensures
        unified_run(a, vs + ws) == unified_run(a, vs),
    decreases vs.len(),
{
    let u = vs[0];
    assert((vs + ws)[0] == u);
    if unified_fired(a, u.c, u.v) is None {
        assert((vs + ws).subrange(1, (vs + ws).len() as int) =~= vs.subrange(1, vs.len() as int)
            + ws);
        lemma_unified_fire_monotone(
            unified_step(a, u.c, u.v),
            vs.subrange(1, vs.len() as int),
            ws,
        );
    }
}

// ---------------------------------------------------------------------------
// Order-independence of the DA outcome
// ---------------------------------------------------------------------------

/// Sum of the weights of the votes in `vs` over commitment `c`.
pub open spec fn da_csum(vs: Seq<VoteModel>, c: Seq<u8>) -> int
    decreases vs.len(),
{
    if vs.len() == 0 {
        0
    } else {
        (if data_commitment(vs[0].data) == c {
            vs[0].count as int
        } else {
            0int
        }) + da_csum(vs.subrange(1, vs.len() as int), c)
    }
}

/// Whether some vote in `vs` speaks about commitment `c`.
pub open spec fn has_cvote(vs: Seq<VoteModel>, c: Seq<u8>) -> bool {
    exists|i: int| 0 <= i < vs.len() && data_commitment(vs[i].data) == c
}

/// A DA vote sequence with no duplicates, against accumulator state `a`:
/// every vote is of the DA kind, addresses a fresh committee position in
/// range, comes from a voter not yet recorded, no two votes share a key or a
/// position, and every commitment's tally has room for all its votes.
pub open spec fn da_fresh_inputs(a: DaState, vs: Seq<VoteModel>) -> bool {
    &&& forall|i: int| 0 <= i < vs.len() ==> (#[trigger] vs[i].data) is DA
    &&& forall|i: int| 0 <= i < vs.len() ==> 0 <= #[trigger] vs[i].node < a.signers.len()
        && !a.signers[vs[i].node]
    &&& forall|i: int| 0 <= i < vs.len() ==> !voted(
        a.outcomes,
        data_commitment(#[trigger] vs[i].data),
        vs[i].key,
    )
    &&& forall|i: int, j: int| 0 <= i < j < vs.len() ==> vs[i].key != vs[j].key && vs[i].node
        != vs[j].node
    &&& forall|i: int| 0 <= i < vs.len() ==> stake_of(
        a.outcomes,
        data_commitment(#[trigger] vs[i].data),
    ) + da_csum(vs, data_commitment(vs[i].data)) <= u64::MAX
}

/// A commitment sum is never negative.
proof fn lemma_da_csum_nonneg(vs: Seq<VoteModel>, c: Seq<u8>)
    ensures
        0 <= da_csum(vs, c),
    decreases vs.len(),
{
    if vs.len() > 0 {
        lemma_da_csum_nonneg(vs.subrange(1, vs.len() as int), c);
    }
}

/// A commitment nobody voted about sums to zero.
proof fn lemma_da_csum_no_vote(vs: Seq<VoteModel>, c: Seq<u8>)
    requires
        !has_cvote(vs, c),
    ensures
        da_csum(vs, c) == 0,
    decreases vs.len(),
{
    if vs.len() > 0 {
        let tail = vs.subrange(1, vs.len() as int);
        assert forall|i: int| 0 <= i < tail.len() implies data_commitment(#[trigger] tail[i].data)
            != c by {
            assert(tail[i] == vs[i + 1]);
        }
        lemma_da_csum_no_vote(tail, c);
    }
}

/// Removing one vote removes exactly its contribution from the sum.
proof fn lemma_da_csum_remove(vs: Seq<VoteModel>, j: int, c: Seq<u8>)
    requires
        0 <= j < vs.len(),
    ensures
        da_csum(vs.remove(j), c) == da_csum(vs, c) - if data_commitment(vs[j].data) == c {
            vs[j].count as int
        } else {
            0int
        },
    decreases vs.len(),
{
    let tail = vs.subrange(1, vs.len() as int);
    if j == 0 {
        assert(vs.remove(0) =~= tail);
    } else {
        let r = vs.remove(j);
        assert(r[0] == vs[0]);
        assert(r.subrange(1, r.len() as int) =~= tail.remove(j - 1));
        assert(tail[j - 1] == vs[j]);
        lemma_da_csum_remove(tail, j - 1, c);
    }
}

/// The sum over a commitment depends only on the multiset of votes.
proof fn lemma_da_csum_perm(vs1: Seq<VoteModel>, vs2: Seq<VoteModel>, c: Seq<u8>)
    requires
        vs1.to_multiset() == vs2.to_multiset(),
    ensures
        da_csum(vs1, c) == da_csum(vs2, c),
    decreases vs1.len(),
{
    broadcast use vstd::seq_lib::group_to_multiset_ensures;

    if vs1.len() == 0 {
        assert(vs1.to_multiset().len() == vs1.len());
        assert(vs2.to_multiset().len() == vs2.len());
        assert(vs2.len() == 0);
    } else {
        let v = vs1[0];
        assert(vs1.contains(v));
        assert(vs1.to_multiset().count(v) > 0);
        assert(vs2.to_multiset().count(v) > 0);
        assert(vs2.contains(v));
        let j = choose|j: int| 0 <= j < vs2.len() && vs2[j] == v;
        let tail = vs1.subrange(1, vs1.len() as int);
        assert(vs1.remove(0) =~= tail);
        assert(tail.to_multiset() == vs1.to_multiset().remove(v));
        assert(vs2.remove(j).to_multiset() == vs2.to_multiset().remove(v));
        lemma_da_csum_perm(tail, vs2.remove(j), c);
        lemma_da_csum_remove(vs2, j, c);
    }
}

/// Whether a commitment is voted about depends only on the multiset.
proof fn lemma_has_cvote_perm(vs1: Seq<VoteModel>, vs2: Seq<VoteModel>, c: Seq<u8>)
    requires
        vs1.to_multiset() == vs2.to_multiset(),
        has_cvote(vs1, c),
    ensures
        has_cvote(vs2, c),
{
    broadcast use vstd::seq_lib::group_to_multiset_ensures;

    let i = choose|i: int| 0 <= i < vs1.len() && data_commitment(vs1[i].data) == c;
    assert(vs1.contains(vs1[i]));
    assert(vs1.to_multiset().count(vs1[i]) > 0);
    assert(vs2.to_multiset().count(vs1[i]) > 0);
    assert(vs2.contains(vs1[i]));
    let j = choose|j: int| 0 <= j < vs2.len() && vs2[j] == vs1[i];
    assert(data_commitment(vs2[j].data) == c);
}

/// Unfolds one step of a duplicate-free DA run: the head vote is accepted,
/// and the tail is duplicate-free against the stepped state, with the
/// combined accumulated-plus-pending stake of every commitment unchanged.
proof fn lemma_da_fresh_unfold(a: DaState, vs: Seq<VoteModel>)
    requires
        da_wf(a),
        da_fresh_inputs(a, vs),
        vs.len() > 0,
    ensures
        ({
            let v = vs[0];
            let a1 = da_step(a, v);
            let tail = vs.subrange(1, vs.len() as int);
            &&& da_accepts(a, v)
            &&& da_can_add(a, v)
            &&& da_wf(a1)
            &&& da_fresh_inputs(a1, tail)
            &&& forall|c: Seq<u8>| stake_of(a1.outcomes, c) + da_csum(tail, c) == stake_of(
                a.outcomes,
                c,
            ) + da_csum(vs, c)
            &&& stake_of(a1.outcomes, data_commitment(v.data)) == stake_of(
                a.outcomes,
                data_commitment(v.data),
            ) + v.count
            &&& a1.success_threshold == a.success_threshold
            &&& a1.signers.len() == a.signers.len()
        }),
{
    let v = vs[0];
    let c0 = data_commitment(v.data);
    let tail = vs.subrange(1, vs.len() as int);
    let e = entry_of(v);
    lemma_materialize_preserves(a.outcomes, c0);
    let m = materialize(a.outcomes, c0);
    assert(da_accepts(a, v));
    assert(da_can_add(a, v)) by {
        lemma_da_csum_nonneg(tail, c0);
    }
    lemma_da_step_wf(a, v);
    let a1 = da_step(a, v);
    assert(a1.outcomes == credit(m, c0, e));
    lemma_voted_credit(m, c0, e);
    assert(m[c0].stake == stake_of(a.outcomes, c0));
    assert(m[c0].stake + e.count <= u64::MAX) by {
        lemma_da_csum_nonneg(tail, c0);
    }
    lemma_stake_credit(m, c0, e);
    assert forall|c: Seq<u8>| stake_of(a1.outcomes, c) + da_csum(tail, c) == stake_of(a.outcomes, c)
        + da_csum(vs, c) by {
        if c == c0 {
        } else {
            assert(stake_of(a1.outcomes, c) == stake_of(m, c));
        }
    }
    assert(da_fresh_inputs(a1, tail)) by {
        assert forall|i: int| 0 <= i < tail.len() implies (#[trigger] tail[i].data) is DA
            && 0 <= tail[i].node < a1.signers.len() && !a1.signers[tail[i].node] && !voted(
            a1.outcomes,
            data_commitment(tail[i].data),
            tail[i].key,
        ) && stake_of(a1.outcomes, data_commitment(tail[i].data)) + da_csum(
            tail,
            data_commitment(tail[i].data),
        ) <= u64::MAX by {
            assert(tail[i] == vs[i + 1]);
            assert(vs[i + 1].key != v.key);
            assert(vs[i + 1].node != v.node);
            assert(!voted(a.outcomes, data_commitment(vs[i + 1].data), vs[i + 1].key));
        }
        assert forall|i: int, j: int| 0 <= i < j < tail.len() implies tail[i].key != tail[j].key
            && tail[i].node != tail[j].node by {
            assert(tail[i] == vs[i + 1]);
            assert(tail[j] == vs[j + 1]);
        }
    }
}

/// If, for some commitment voted about in the sequence, the accumulated plus
/// pending stake reaches the success threshold, the run fires.
proof fn lemma_da_run_fires(a: DaState, vs: Seq<VoteModel>, c: Seq<u8>)
    requires
        da_wf(a),
        da_fresh_inputs(a, vs),
        has_cvote(vs, c),
        stake_of(a.outcomes, c) + da_csum(vs, c) >= a.success_threshold,
    ensures
        da_run(a, vs) is Fired,
    decreases vs.len(),
{
    let v = vs[0];
    let c0 = data_commitment(v.data);
    lemma_da_fresh_unfold(a, vs);
    if da_fired(a, v) is Some {
    } else {
        let a1 = da_step(a, v);
        let tail = vs.subrange(1, vs.len() as int);
        if has_cvote(tail, c) {
            lemma_da_run_fires(a1, tail, c);
        } else {
            // The head vote was the only one over `c`, so the head append
            // already reached the threshold and must have fired.
            let i = choose|i: int| 0 <= i < vs.len() && data_commitment(vs[i].data) == c;
            if i > 0 {
                assert(tail[i - 1] == vs[i]);
            }
            assert(c == c0);
            lemma_da_csum_no_vote(tail, c);
            assert(stake_of(a1.outcomes, c0) >= a.success_threshold);
            assert(false);
        }
    }
}

/// Conversely, a fired run means some commitment voted about in the sequence
/// reached the threshold with accumulated plus pending stake.
proof fn lemma_da_fired_sum(a: DaState, vs: Seq<VoteModel>)
    requires
        da_wf(a),
        da_fresh_inputs(a, vs),
        da_run(a, vs) is Fired,
    ensures
        exists|c: Seq<u8>| has_cvote(vs, c) && stake_of(a.outcomes, c) + da_csum(vs, c)
            >= a.success_threshold,
    decreases vs.len(),
{
    let v = vs[0];
    let c0 = data_commitment(v.data);
    let tail = vs.subrange(1, vs.len() as int);
    lemma_da_fresh_unfold(a, vs);
    let a1 = da_step(a, v);
    if da_fired(a, v) is Some {
        lemma_da_csum_nonneg(tail, c0);
        assert(data_commitment(vs[0].data) == c0);
        assert(has_cvote(vs, c0) && stake_of(a.outcomes, c0) + da_csum(vs, c0)
            >= a.success_threshold);
    } else {
        lemma_da_fired_sum(a1, tail);
        let c = choose|c: Seq<u8>| has_cvote(tail, c) && stake_of(a1.outcomes, c) + da_csum(tail, c)
            >= a1.success_threshold;
        let i = choose|i: int| 0 <= i < tail.len() && data_commitment(tail[i].data) == c;
        assert(vs[i + 1] == tail[i]);
        assert(has_cvote(vs, c) && stake_of(a.outcomes, c) + da_csum(vs, c)
            >= a.success_threshold);
    }
}

/// The DA accumulator fires DA certificates only.
proof fn lemma_da_run_kind(a: DaState, vs: Seq<VoteModel>)
    ensures
        da_run(a, vs) matches RunOutcome::Fired(k) ==> k == CertKind::Da,
    decreases vs.len(),
{
    if vs.len() > 0 && da_fired(a, vs[0]) is None {
        lemma_da_run_kind(da_step(a, vs[0]), vs.subrange(1, vs.len() as int));
    }
}

/// I5 for the DA accumulator (order-independence of the outcome): two
/// duplicate-free arrangements of the same votes, applied to the same
/// well-formed state, either both fire — necessarily DA certificates — or
/// both end pending.
pub proof fn lemma_da_order_independent(a: DaState, vs1: Seq<VoteModel>, vs2: Seq<VoteModel>)
    requires
        da_wf(a),
        da_fresh_inputs(a, vs1),
        da_fresh_inputs(a, vs2),
        vs1.to_multiset() == vs2.to_multiset(),
    ensures
        da_run(a, vs1) is Fired <==> da_run(a, vs2) is Fired,
        da_run(a, vs1) is Fired ==> da_run(a, vs1) == RunOutcome::<DaState>::Fired(CertKind::Da)
            && da_run(a, vs2) == RunOutcome::<DaState>::Fired(CertKind::Da),
{
    if da_run(a, vs1) is Fired {
        lemma_da_fired_sum(a, vs1);
        let c = choose|c: Seq<u8>| has_cvote(vs1, c) && stake_of(a.outcomes, c) + da_csum(vs1, c)
            >= a.success_threshold;
        lemma_da_csum_perm(vs1, vs2, c);
        lemma_has_cvote_perm(vs1, vs2, c);
        lemma_da_run_fires(a, vs2, c);
    }
    if da_run(a, vs2) is Fired {
        lemma_da_fired_sum(a, vs2);
        let c = choose|c: Seq<u8>| has_cvote(vs2, c) && stake_of(a.outcomes, c) + da_csum(vs2, c)
            >= a.success_threshold;
        lemma_da_csum_perm(vs2, vs1, c);
        lemma_has_cvote_perm(vs2, vs1, c);
        lemma_da_run_fires(a, vs1, c);
    }
    lemma_da_run_kind(a, vs1);
    lemma_da_run_kind(a, vs2);
}

// ---------------------------------------------------------------------------
// Order-independence of the quorum outcome
// ---------------------------------------------------------------------------

/// Sum of the weights of the Yes votes (if `yes`) or the No votes (if not)
/// in `vs`.
pub open spec fn quorum_sum(vs: Seq<VoteModel>, yes: bool) -> int
    decreases vs.len(),
{
    if vs.len() == 0 {
        0
    } else {
        (if (yes && vs[0].data is Yes) || (!yes && vs[0].data is No) {
            vs[0].count as int
        } else {
            0int
        }) + quorum_sum(vs.subrange(1, vs.len() as int), yes)
    }
}

/// A quorum vote sequence over the single commitment `c`, duplicate-free
/// against state `a`: every vote is Yes or No over `c`, addresses a fresh
/// committee position in range, comes from a voter not yet recorded, no two
/// votes share a key or a position, and the commitment's tallies have room
/// for all the votes.
pub open spec fn quorum_fresh_inputs(a: QuorumState, c: Seq<u8>, vs: Seq<VoteModel>) -> bool {
    &&& forall|i: int| 0 <= i < vs.len() ==> (#[trigger] vs[i].data == VoteData::Yes(c)
        || vs[i].data == VoteData::No(c))
    &&& forall|i: int| 0 <= i < vs.len() ==> 0 <= #[trigger] vs[i].node < a.signers.len()
        && !a.signers[vs[i].node]
    &&& forall|i: int| 0 <= i < vs.len() ==> !voted(a.total, c, #[trigger] vs[i].key)
    &&& forall|i: int, j: int| 0 <= i < j < vs.len() ==> vs[i].key != vs[j].key && vs[i].node
        != vs[j].node
    &&& stake_of(a.total, c) + quorum_sum(vs, true) + quorum_sum(vs, false) <= u64::MAX
}

/// The combined tally of `c` carries exactly the Yes and No stake.
pub open spec fn quorum_balanced(a: QuorumState, c: Seq<u8>) -> bool {
    stake_of(a.total, c) == stake_of(a.yes, c) + stake_of(a.no, c)
}

/// An outcome sum is never negative.
proof fn lemma_quorum_sum_nonneg(vs: Seq<VoteModel>, yes: bool)
    ensures
        0 <= quorum_sum(vs, yes),
    decreases vs.len(),
{
    if vs.len() > 0 {
        lemma_quorum_sum_nonneg(vs.subrange(1, vs.len() as int), yes);
    }
}

/// Removing one vote removes exactly its contribution from the outcome sum.
proof fn lemma_quorum_sum_remove(vs: Seq<VoteModel>, j: int, yes: bool)
    requires
        0 <= j < vs.len(),
    ensures
        quorum_sum(vs.remove(j), yes) == quorum_sum(vs, yes) - if (yes && vs[j].data is Yes) || (
        !yes && vs[j].data is No) {
            vs[j].count as int
        } else {
            0int
        },
    decreases vs.len(),
{
    let tail = vs.subrange(1, vs.len() as int);
    if j == 0 {
        assert(vs.remove(0) =~= tail);
    } else {
        let r = vs.remove(j);
        assert(r[0] == vs[0]);
        assert(r.subrange(1, r.len() as int) =~= tail.remove(j - 1));
        assert(tail[j - 1] == vs[j]);
        lemma_quorum_sum_remove(tail, j - 1, yes);
    }
}

/// The outcome sums depend only on the multiset of votes.
proof fn lemma_quorum_sum_perm(vs1: Seq<VoteModel>, vs2: Seq<VoteModel>, yes: bool)
    requires
        vs1.to_multiset() == vs2.to_multiset(),
    ensures
        quorum_sum(vs1, yes) == quorum_sum(vs2, yes),
    decreases vs1.len(),
{
    broadcast use vstd::seq_lib::group_to_multiset_ensures;

    if vs1.len() == 0 {
        assert(vs1.to_multiset().len() == vs1.len());
        assert(vs2.to_multiset().len() == vs2.len());
        assert(vs2.len() == 0);
    } else {
        let v = vs1[0];
        assert(vs1.contains(v));
        assert(vs1.to_multiset().count(v) > 0);
        assert(vs2.to_multiset().count(v) > 0);
        assert(vs2.contains(v));
        let j = choose|j: int| 0 <= j < vs2.len() && vs2[j] == v;
        let tail = vs1.subrange(1, vs1.len() as int);
        assert(vs1.remove(0) =~= tail);
        assert(tail.to_multiset() == vs1.to_multiset().remove(v));
        assert(vs2.remove(j).to_multiset() == vs2.to_multiset().remove(v));
        lemma_quorum_sum_perm(tail, vs2.remove(j), yes);
        lemma_quorum_sum_remove(vs2, j, yes);
    }
}

/// Unfolds one step of a duplicate-free single-commitment quorum run: the
/// head vote is accepted, the tail stays duplicate-free against the stepped
/// state, the balance of the combined tally is kept, and each outcome's
/// accumulated-plus-pending stake is unchanged.
proof fn lemma_quorum_fresh_unfold(a: QuorumState, c: Seq<u8>, vs: Seq<VoteModel>)
    requires
        quorum_wf(a),
        quorum_balanced(a, c),
        quorum_fresh_inputs(a, c, vs),
        vs.len() > 0,
    ensures
        ({
            let v = vs[0];
            let a1 = quorum_step(a, v);
            let tail = vs.subrange(1, vs.len() as int);
            &&& quorum_accepts(a, v)
            &&& quorum_can_add(a, v)
            &&& quorum_wf(a1)
            &&& quorum_balanced(a1, c)
            &&& quorum_fresh_inputs(a1, c, tail)
            &&& stake_of(a1.yes, c) + quorum_sum(tail, true) == stake_of(a.yes, c) + quorum_sum(
                vs,
                true,
            )
            &&& stake_of(a1.no, c) + quorum_sum(tail, false) == stake_of(a.no, c) + quorum_sum(
                vs,
                false,
            )
            &&& stake_of(a1.yes, c) >= stake_of(a.yes, c)
            &&& stake_of(a1.no, c) >= stake_of(a.no, c)
            &&& a1.success_threshold == a.success_threshold
            &&& a1.failure_threshold == a.failure_threshold
            &&& a1.signers.len() == a.signers.len()
        }),
{
    let v = vs[0];
    let tail = vs.subrange(1, vs.len() as int);
    let e = entry_of(v);
    assert(data_commitment(v.data) == c);
    lemma_materialize_preserves(a.total, c);
    lemma_materialize_preserves(a.yes, c);
    lemma_materialize_preserves(a.no, c);
    let t = materialize(a.total, c);
    let y = materialize(a.yes, c);
    let n = materialize(a.no, c);
    assert(quorum_accepts(a, v));
    assert(quorum_can_add(a, v)) by {
        lemma_quorum_sum_nonneg(tail, true);
        lemma_quorum_sum_nonneg(tail, false);
        lemma_quorum_sum_nonneg(vs, true);
        lemma_quorum_sum_nonneg(vs, false);
    }
    lemma_quorum_step_wf(a, v);
    let a1 = quorum_step(a, v);
    lemma_voted_credit(t, c, e);
    assert(t[c].stake == stake_of(a.total, c));
    lemma_stake_credit(t, c, e);
    if v.data is Yes {
        lemma_stake_credit(y, c, e);
    } else {
        lemma_stake_credit(n, c, e);
    }
    assert(quorum_fresh_inputs(a1, c, tail)) by {
        assert forall|i: int| 0 <= i < tail.len() implies (#[trigger] tail[i].data
            == VoteData::Yes(c) || tail[i].data == VoteData::No(c)) && 0 <= tail[i].node
            < a1.signers.len() && !a1.signers[tail[i].node] && !voted(
            a1.total,
            c,
            tail[i].key,
        ) by {
            assert(tail[i] == vs[i + 1]);
            assert(vs[i + 1].key != v.key);
            assert(vs[i + 1].node != v.node);
            assert(!voted(a.total, c, vs[i + 1].key));
        }
        assert forall|i: int, j: int| 0 <= i < j < tail.len() implies tail[i].key != tail[j].key
            && tail[i].node != tail[j].node by {
            assert(tail[i] == vs[i + 1]);
            assert(tail[j] == vs[j + 1]);
        }
    }
}

/// If the pending Yes stake reaches the success threshold and the No side can
/// never reach the failure threshold, the run fires a Yes certificate — in
/// whatever order the votes arrive.
proof fn lemma_quorum_run_fires_yes(a: QuorumState, c: Seq<u8>, vs: Seq<VoteModel>)
    requires
        quorum_wf(a),
        quorum_balanced(a, c),
        quorum_fresh_inputs(a, c, vs),
        stake_of(a.yes, c) + quorum_sum(vs, true) >= a.success_threshold,
        stake_of(a.no, c) + quorum_sum(vs, false) < a.failure_threshold,
        stake_of(a.yes, c) < a.success_threshold,
    ensures
        quorum_run(a, vs) == RunOutcome::<QuorumState>::Fired(CertKind::Yes),
    decreases vs.len(),
{
    lemma_quorum_sum_nonneg(vs, true);
    let v = vs[0];
    lemma_quorum_fresh_unfold(a, c, vs);
    let a1 = quorum_step(a, v);
    let tail = vs.subrange(1, vs.len() as int);
    lemma_quorum_sum_nonneg(tail, true);
    lemma_quorum_sum_nonneg(tail, false);
    if quorum_fired(a, v) is Some {
        assert(stake_of(a1.no, c) < a.failure_threshold);
        assert(quorum_fired(a, v) == Some(CertKind::Yes));
    } else {
        assert(stake_of(a1.yes, c) < a.success_threshold) by {
            if stake_of(a1.yes, c) >= a.success_threshold {
                assert(stake_of(a1.total, c) >= stake_of(a1.yes, c));
                assert(quorum_fired(a, v) is Some);
            }
        }
        lemma_quorum_run_fires_yes(a1, c, tail);
    }
}

/// If the pending participation reaches the quorum, the pending dissent
/// reaches the failure threshold, and the Yes side can never reach the
/// success threshold, the run fires a No certificate — in whatever order the
/// votes arrive.
proof fn lemma_quorum_run_fires_no(a: QuorumState, c: Seq<u8>, vs: Seq<VoteModel>)
    requires
        quorum_wf(a),
        quorum_balanced(a, c),
        quorum_fresh_inputs(a, c, vs),
        stake_of(a.total, c) + quorum_sum(vs, true) + quorum_sum(vs, false)
            >= a.success_threshold,
        stake_of(a.no, c) + quorum_sum(vs, false) >= a.failure_threshold,
        stake_of(a.yes, c) + quorum_sum(vs, true) < a.success_threshold,
        !(stake_of(a.total, c) >= a.success_threshold && stake_of(a.no, c)
            >= a.failure_threshold),
    ensures
        quorum_run(a, vs) == RunOutcome::<QuorumState>::Fired(CertKind::No),
    decreases vs.len(),
{
    if vs.len() == 0 {
    } else {
        let v = vs[0];
        lemma_quorum_fresh_unfold(a, c, vs);
        let a1 = quorum_step(a, v);
        let tail = vs.subrange(1, vs.len() as int);
        lemma_quorum_sum_nonneg(tail, true);
        lemma_quorum_sum_nonneg(tail, false);
        lemma_quorum_sum_nonneg(vs, true);
        lemma_quorum_sum_nonneg(vs, false);
        if quorum_fired(a, v) is Some {
            assert(stake_of(a1.yes, c) < a.success_threshold);
            assert(quorum_fired(a, v) == Some(CertKind::No));
        } else {
            assert(!(stake_of(a1.total, c) >= a.success_threshold && stake_of(a1.no, c)
                >= a.failure_threshold));
            assert(stake_of(a1.total, c) == stake_of(a.total, c) + v.count);
            lemma_quorum_run_fires_no(a1, c, tail);
        }
    }
}

/// If the Yes side can never reach the success threshold and either the
/// participation can never reach the quorum or the dissent can never reach
/// the failure threshold, the run ends pending — in whatever order the votes
/// arrive.
proof fn lemma_quorum_run_pending(a: QuorumState, c: Seq<u8>, vs: Seq<VoteModel>)
    requires
        quorum_wf(a),
        quorum_balanced(a, c),
        quorum_fresh_inputs(a, c, vs),
        stake_of(a.yes, c) + quorum_sum(vs, true) < a.success_threshold,
        stake_of(a.total, c) + quorum_sum(vs, true) + quorum_sum(vs, false) < a.success_threshold
            || stake_of(a.no, c) + quorum_sum(vs, false) < a.failure_threshold,
    ensures
        quorum_run(a, vs) is Pending,
    decreases vs.len(),
{
    if vs.len() > 0 {
        let v = vs[0];
        lemma_quorum_fresh_unfold(a, c, vs);
        let a1 = quorum_step(a, v);
        let tail = vs.subrange(1, vs.len() as int);
        lemma_quorum_sum_nonneg(tail, true);
        lemma_quorum_sum_nonneg(tail, false);
        assert(quorum_fired(a, v) is None) by {
            assert(stake_of(a1.yes, c) < a.success_threshold);
            assert(stake_of(a1.total, c) == stake_of(a1.yes, c) + stake_of(a1.no, c));
        }
        lemma_quorum_run_pending(a1, c, tail);
    }
}

/// I5 for the quorum accumulator (order-independence of the outcome): over a
/// single commitment, two duplicate-free arrangements of the same votes fire
/// the same certificate kind, or both end pending, provided the vote set does
/// not satisfy both outcomes at once.  When the full set satisfies both the
/// Yes and the No condition, the outcome genuinely depends on arrival order
/// and no such law holds.
pub proof fn lemma_quorum_order_independent(
    a: QuorumState,
    c: Seq<u8>,
    vs1: Seq<VoteModel>,
    vs2: Seq<VoteModel>,
)
    requires
        quorum_wf(a),
        quorum_balanced(a, c),
        quorum_fresh_inputs(a, c, vs1),
        quorum_fresh_inputs(a, c, vs2),
        vs1.to_multiset() == vs2.to_multiset(),
        stake_of(a.yes, c) < a.success_threshold,
        !(stake_of(a.total, c) >= a.success_threshold && stake_of(a.no, c)
            >= a.failure_threshold),
        !(stake_of(a.yes, c) + quorum_sum(vs1, true) >= a.success_threshold && stake_of(a.no, c)
            + quorum_sum(vs1, false) >= a.failure_threshold),
    ensures
        quorum_run(a, vs1) is Fired <==> quorum_run(a, vs2) is Fired,
        quorum_run(a, vs1) matches RunOutcome::Fired(k) ==> quorum_run(a, vs2)
            == RunOutcome::<QuorumState>::Fired(k),
{
    lemma_quorum_sum_perm(vs1, vs2, true);
    lemma_quorum_sum_perm(vs1, vs2, false);
    let y = stake_of(a.yes, c) + quorum_sum(vs1, true);
    let n = stake_of(a.no, c) + quorum_sum(vs1, false);
    let t = stake_of(a.total, c) + quorum_sum(vs1, true) + quorum_sum(vs1, false);
    if y >= a.success_threshold {
        lemma_quorum_run_fires_yes(a, c, vs1);
        lemma_quorum_run_fires_yes(a, c, vs2);
    } else if t >= a.success_threshold && n >= a.failure_threshold {
        lemma_quorum_run_fires_no(a, c, vs1);
        lemma_quorum_run_fires_no(a, c, vs2);
    } else {
        lemma_quorum_run_pending(a, c, vs1);
        lemma_quorum_run_pending(a, c, vs2);
    }
}

// ---------------------------------------------------------------------------
// Order-independence of the view-sync outcome
// ---------------------------------------------------------------------------

/// Sum of the weights of the votes in `vs` of the given phase: 0 for
/// pre-commit, 1 for commit, 2 for finalize.
pub open spec fn vs_sum(vs: Seq<VoteModel>, phase: int) -> int
    decreases vs.len(),
{
    if vs.len() == 0 {
        0
    } else {
        (if (phase == 0 && vs[0].data is ViewSyncPreCommit) || (phase == 1
            && vs[0].data is ViewSyncCommit) || (phase == 2 && vs[0].data is ViewSyncFinalize) {
            vs[0].count as int
        } else {
            0int
        }) + vs_sum(vs.subrange(1, vs.len() as int), phase)
    }
}

/// A view-sync vote sequence over the single commitment `c`, duplicate-free
/// against state `a`: every vote is a view-sync vote over `c`, addresses a
/// fresh committee position in range, comes from a voter not recorded in any
/// phase, no two votes share a key or a position, and each phase's tally has
/// room for all the votes.
pub open spec fn vs_fresh_inputs(a: ViewSyncState, c: Seq<u8>, vs: Seq<VoteModel>) -> bool {
    &&& forall|i: int| 0 <= i < vs.len() ==> (#[trigger] vs[i].data
        == VoteData::ViewSyncPreCommit(c) || vs[i].data == VoteData::ViewSyncCommit(c)
        || vs[i].data == VoteData::ViewSyncFinalize(c))
    &&& forall|i: int| 0 <= i < vs.len() ==> 0 <= #[trigger] vs[i].node < a.signers.len()
        && !a.signers[vs[i].node]
    &&& forall|i: int| 0 <= i < vs.len() ==> !voted(a.pre_commit, c, #[trigger] vs[i].key)
        && !voted(a.commit, c, vs[i].key) && !voted(a.finalize, c, vs[i].key)
    &&& forall|i: int, j: int| 0 <= i < j < vs.len() ==> vs[i].key != vs[j].key && vs[i].node
        != vs[j].node
    &&& stake_of(a.pre_commit, c) + vs_sum(vs, 0) + vs_sum(vs, 1) + vs_sum(vs, 2) <= u64::MAX
    &&& stake_of(a.commit, c) + vs_sum(vs, 0) + vs_sum(vs, 1) + vs_sum(vs, 2) <= u64::MAX
    &&& stake_of(a.finalize, c) + vs_sum(vs, 0) + vs_sum(vs, 1) + vs_sum(vs, 2) <= u64::MAX
}

/// A phase sum is never negative.
proof fn lemma_vs_sum_nonneg(vs: Seq<VoteModel>, phase: int)
    ensures
        0 <= vs_sum(vs, phase),
    decreases vs.len(),
{
    if vs.len() > 0 {
        lemma_vs_sum_nonneg(vs.subrange(1, vs.len() as int), phase);
    }
}

/// Removing one vote removes exactly its contribution from the phase sum.
proof fn lemma_vs_sum_remove(vs: Seq<VoteModel>, j: int, phase: int)
    requires
        0 <= j < vs.len(),
    ensures
        vs_sum(vs.remove(j), phase) == vs_sum(vs, phase) - if (phase == 0
            && vs[j].data is ViewSyncPreCommit) || (phase == 1 && vs[j].data is ViewSyncCommit)
            || (phase == 2 && vs[j].data is ViewSyncFinalize) {
            vs[j].count as int
        } else {
            0int
        },
    decreases vs.len(),
{
    let tail = vs.subrange(1, vs.len() as int);
    if j == 0 {
        assert(vs.remove(0) =~= tail);
    } else {
        let r = vs.remove(j);
        assert(r[0] == vs[0]);
        assert(r.subrange(1, r.len() as int) =~= tail.remove(j - 1));
        assert(tail[j - 1] == vs[j]);
        lemma_vs_sum_remove(tail, j - 1, phase);
    }
}

/// The phase sums depend only on the multiset of votes.
proof fn lemma_vs_sum_perm(vs1: Seq<VoteModel>, vs2: Seq<VoteModel>, phase: int)
    requires
        vs1.to_multiset() == vs2.to_multiset(),
    ensures
        vs_sum(vs1, phase) == vs_sum(vs2, phase),
    decreases vs1.len(),
{
    broadcast use vstd::seq_lib::group_to_multiset_ensures;

    if vs1.len() == 0 {
        assert(vs1.to_multiset().len() == vs1.len());
        assert(vs2.to_multiset().len() == vs2.len());
        assert(vs2.len() == 0);
    } else {
        let v = vs1[0];
        assert(vs1.contains(v));
        assert(vs1.to_multiset().count(v) > 0);
        assert(vs2.to_multiset().count(v) > 0);
        assert(vs2.contains(v));
        let j = choose|j: int| 0 <= j < vs2.len() && vs2[j] == v;
        let tail = vs1.subrange(1, vs1.len() as int);
        assert(vs1.remove(0) =~= tail);
        assert(tail.to_multiset() == vs1.to_multiset().remove(v));
        assert(vs2.remove(j).to_multiset() == vs2.to_multiset().remove(v));
        lemma_vs_sum_perm(tail, vs2.remove(j), phase);
        lemma_vs_sum_remove(vs2, j, phase);
    }
}

/// Unfolds one step of a duplicate-free single-commitment view-sync run.
proof fn lemma_vs_fresh_unfold(a: ViewSyncState, c: Seq<u8>, vs: Seq<VoteModel>)
    requires
        vs_wf(a),
        vs_fresh_inputs(a, c, vs),
        vs.len() > 0,
    ensures
        ({
            let v = vs[0];
            let a1 = vs_step(a, v);
            let tail = vs.subrange(1, vs.len() as int);
            &&& vs_accepts(a, v)
            &&& vs_can_add(a, v)
            &&& vs_wf(a1)
            &&& vs_fresh_inputs(a1, c, tail)
            &&& stake_of(a1.pre_commit, c) + vs_sum(tail, 0) == stake_of(a.pre_commit, c)
                + vs_sum(vs, 0)
            &&& stake_of(a1.commit, c) + vs_sum(tail, 1) == stake_of(a.commit, c) + vs_sum(vs, 1)
            &&& stake_of(a1.finalize, c) + vs_sum(tail, 2) == stake_of(a.finalize, c) + vs_sum(
                vs,
                2,
            )
            &&& stake_of(a1.pre_commit, c) >= stake_of(a.pre_commit, c)
            &&& stake_of(a1.commit, c) >= stake_of(a.commit, c)
            &&& stake_of(a1.finalize, c) >= stake_of(a.finalize, c)
            &&& a1.success_threshold == a.success_threshold
            &&& a1.failure_threshold == a.failure_threshold
            &&& a1.signers.len() == a.signers.len()
        }),
{
    let v = vs[0];
    let tail = vs.subrange(1, vs.len() as int);
    let e = entry_of(v);
    assert(data_commitment(v.data) == c);
    lemma_materialize_preserves(a.pre_commit, c);
    lemma_materialize_preserves(a.commit, c);
    lemma_materialize_preserves(a.finalize, c);
    let p = materialize(a.pre_commit, c);
    let m = materialize(a.commit, c);
    let f = materialize(a.finalize, c);
    assert(vs_accepts(a, v));
    assert(vs_can_add(a, v)) by {
        lemma_vs_sum_nonneg(tail, 0);
        lemma_vs_sum_nonneg(tail, 1);
        lemma_vs_sum_nonneg(tail, 2);
        lemma_vs_sum_nonneg(vs, 0);
        lemma_vs_sum_nonneg(vs, 1);
        lemma_vs_sum_nonneg(vs, 2);
    }
    lemma_vs_step_wf(a, v);
    let a1 = vs_step(a, v);
    if v.data is ViewSyncPreCommit {
        lemma_voted_credit(p, c, e);
        lemma_stake_credit(p, c, e);
    } else if v.data is ViewSyncCommit {
        lemma_voted_credit(m, c, e);
        lemma_stake_credit(m, c, e);
    } else {
        lemma_voted_credit(f, c, e);
        lemma_stake_credit(f, c, e);
    }
    assert(vs_fresh_inputs(a1, c, tail)) by {
        assert forall|i: int| 0 <= i < tail.len() implies (#[trigger] tail[i].data
            == VoteData::ViewSyncPreCommit(c) || tail[i].data == VoteData::ViewSyncCommit(c)
            || tail[i].data == VoteData::ViewSyncFinalize(c)) && 0 <= tail[i].node
            < a1.signers.len() && !a1.signers[tail[i].node] && !voted(
            a1.pre_commit,
            c,
            tail[i].key,
        ) && !voted(a1.commit, c, tail[i].key) && !voted(a1.finalize, c, tail[i].key) by {
            assert(tail[i] == vs[i + 1]);
            assert(vs[i + 1].key != v.key);
            assert(vs[i + 1].node != v.node);
            assert(!voted(a.pre_commit, c, vs[i + 1].key));
            assert(!voted(a.commit, c, vs[i + 1].key));
            assert(!voted(a.finalize, c, vs[i + 1].key));
        }
        assert forall|i: int, j: int| 0 <= i < j < tail.len() implies tail[i].key != tail[j].key
            && tail[i].node != tail[j].node by {
            assert(tail[i] == vs[i + 1]);
            assert(tail[j] == vs[j + 1]);
        }
    }
}

/// If the pending pre-commit stake reaches the failure threshold and neither
/// of the later phases can ever reach the success threshold, the run fires a
/// pre-commit certificate — in whatever order the votes arrive.
proof fn lemma_vs_run_fires_pre(a: ViewSyncState, c: Seq<u8>, vs: Seq<VoteModel>)
    requires
        vs_wf(a),
        vs_fresh_inputs(a, c, vs),
        stake_of(a.pre_commit, c) + vs_sum(vs, 0) >= a.failure_threshold,
        stake_of(a.commit, c) + vs_sum(vs, 1) < a.success_threshold,
        stake_of(a.finalize, c) + vs_sum(vs, 2) < a.success_threshold,
        stake_of(a.pre_commit, c) < a.failure_threshold,
    ensures
        vs_run(a, vs) == RunOutcome::<ViewSyncState>::Fired(CertKind::ViewSyncPreCommit),
    decreases vs.len(),
{
    lemma_vs_sum_nonneg(vs, 0);
    let v = vs[0];
    lemma_vs_fresh_unfold(a, c, vs);
    let a1 = vs_step(a, v);
    let tail = vs.subrange(1, vs.len() as int);
    lemma_vs_sum_nonneg(tail, 0);
    lemma_vs_sum_nonneg(tail, 1);
    lemma_vs_sum_nonneg(tail, 2);
    if vs_fired(a, v) is Some {
        assert(stake_of(a1.commit, c) < a.success_threshold);
        assert(stake_of(a1.finalize, c) < a.success_threshold);
        assert(vs_fired(a, v) == Some(CertKind::ViewSyncPreCommit));
    } else {
        assert(stake_of(a1.pre_commit, c) < a.failure_threshold);
        lemma_vs_run_fires_pre(a1, c, tail);
    }
}

/// If the pending commit stake reaches the success threshold, the pre-commit
/// side can never reach the failure threshold, and the finalize side can
/// never reach the success threshold, the run fires a commit certificate —
/// in whatever order the votes arrive.
proof fn lemma_vs_run_fires_commit(a: ViewSyncState, c: Seq<u8>, vs: Seq<VoteModel>)
    requires
        vs_wf(a),
        vs_fresh_inputs(a, c, vs),
        stake_of(a.commit, c) + vs_sum(vs, 1) >= a.success_threshold,
        stake_of(a.pre_commit, c) + vs_sum(vs, 0) < a.failure_threshold,
        stake_of(a.finalize, c) + vs_sum(vs, 2) < a.success_threshold,
        stake_of(a.commit, c) < a.success_threshold,
    ensures
        vs_run(a, vs) == RunOutcome::<ViewSyncState>::Fired(CertKind::ViewSyncCommit),
    decreases vs.len(),
{
    lemma_vs_sum_nonneg(vs, 1);
    let v = vs[0];
    lemma_vs_fresh_unfold(a, c, vs);
    let a1 = vs_step(a, v);
    let tail = vs.subrange(1, vs.len() as int);
    lemma_vs_sum_nonneg(tail, 0);
    lemma_vs_sum_nonneg(tail, 1);
    lemma_vs_sum_nonneg(tail, 2);
    if vs_fired(a, v) is Some {
        assert(stake_of(a1.pre_commit, c) < a.failure_threshold);
        assert(stake_of(a1.finalize, c) < a.success_threshold);
        assert(vs_fired(a, v) == Some(CertKind::ViewSyncCommit));
    } else {
        assert(stake_of(a1.commit, c) < a.success_threshold);
        lemma_vs_run_fires_commit(a1, c, tail);
    }
}

/// If the pending finalize stake reaches the success threshold and neither
/// of the earlier phases can ever reach its own threshold, the run fires a
/// finalize certificate — in whatever order the votes arrive.
proof fn lemma_vs_run_fires_finalize(a: ViewSyncState, c: Seq<u8>, vs: Seq<VoteModel>)
    requires
        vs_wf(a),
        vs_fresh_inputs(a, c, vs),
        stake_of(a.finalize, c) + vs_sum(vs, 2) >= a.success_threshold,
        stake_of(a.pre_commit, c) + vs_sum(vs, 0) < a.failure_threshold,
        stake_of(a.commit, c) + vs_sum(vs, 1) < a.success_threshold,
        stake_of(a.finalize, c) < a.success_threshold,
    ensures
        vs_run(a, vs) == RunOutcome::<ViewSyncState>::Fired(CertKind::ViewSyncFinalize),
    decreases vs.len(),
{
    lemma_vs_sum_nonneg(vs, 2);
    let v = vs[0];
    lemma_vs_fresh_unfold(a, c, vs);
    let a1 = vs_step(a, v);
    let tail = vs.subrange(1, vs.len() as int);
    lemma_vs_sum_nonneg(tail, 0);
    lemma_vs_sum_nonneg(tail, 1);
    lemma_vs_sum_nonneg(tail, 2);
    if vs_fired(a, v) is Some {
        assert(stake_of(a1.pre_commit, c) < a.failure_threshold);
        assert(stake_of(a1.commit, c) < a.success_threshold);
        assert(vs_fired(a, v) == Some(CertKind::ViewSyncFinalize));
    } else {
        assert(stake_of(a1.finalize, c) < a.success_threshold);
        lemma_vs_run_fires_finalize(a1, c, tail);
    }
}

/// If no phase can ever reach its threshold, the run ends pending — in
/// whatever order the votes arrive.
proof fn lemma_vs_run_pending(a: ViewSyncState, c: Seq<u8>, vs: Seq<VoteModel>)
    requires
        vs_wf(a),
        vs_fresh_inputs(a, c, vs),
        stake_of(a.pre_commit, c) + vs_sum(vs, 0) < a.failure_threshold,
        stake_of(a.commit, c) + vs_sum(vs, 1) < a.success_threshold,
        stake_of(a.finalize, c) + vs_sum(vs, 2) < a.success_threshold,
    ensures
        vs_run(a, vs) is Pending,
    decreases vs.len(),
{
    if vs.len() > 0 {
        let v = vs[0];
        lemma_vs_fresh_unfold(a, c, vs);
        let a1 = vs_step(a, v);
        let tail = vs.subrange(1, vs.len() as int);
        lemma_vs_sum_nonneg(tail, 0);
        lemma_vs_sum_nonneg(tail, 1);
        lemma_vs_sum_nonneg(tail, 2);
        assert(vs_fired(a, v) is None) by {
            assert(stake_of(a1.pre_commit, c) < a.failure_threshold);
            assert(stake_of(a1.commit, c) < a.success_threshold);
            assert(stake_of(a1.finalize, c) < a.success_threshold);
        }
        lemma_vs_run_pending(a1, c, tail);
    }
}

/// I5 for the view-sync accumulator (order-independence of the outcome):
/// over a single commitment, two duplicate-free arrangements of the same
/// votes fire the same certificate kind, or both end pending, provided at
/// most one phase's threshold is satisfiable by the full vote set.  When two
/// phases are satisfiable at once the outcome genuinely depends on arrival
/// order and no such law holds.
pub proof fn lemma_vs_order_independent(
    a: ViewSyncState,
    c: Seq<u8>,
    vs1: Seq<VoteModel>,
    vs2: Seq<VoteModel>,
)
    requires
        vs_wf(a),
        vs_fresh_inputs(a, c, vs1),
        vs_fresh_inputs(a, c, vs2),
        vs1.to_multiset() == vs2.to_multiset(),
        stake_of(a.pre_commit, c) < a.failure_threshold,
        stake_of(a.commit, c) < a.success_threshold,
        stake_of(a.finalize, c) < a.success_threshold,
        !(stake_of(a.pre_commit, c) + vs_sum(vs1, 0) >= a.failure_threshold && stake_of(
            a.commit,
            c,
        ) + vs_sum(vs1, 1) >= a.success_threshold),
        !(stake_of(a.pre_commit, c) + vs_sum(vs1, 0) >= a.failure_threshold && stake_of(
            a.finalize,
            c,
        ) + vs_sum(vs1, 2) >= a.success_threshold),
        !(stake_of(a.commit, c) + vs_sum(vs1, 1) >= a.success_threshold && stake_of(
            a.finalize,
            c,
        ) + vs_sum(vs1, 2) >= a.success_threshold),
    ensures
        vs_run(a, vs1) is Fired <==> vs_run(a, vs2) is Fired,
        vs_run(a, vs1) matches RunOutcome::Fired(k) ==> vs_run(a, vs2)
            == RunOutcome::<ViewSyncState>::Fired(k),
{
    lemma_vs_sum_perm(vs1, vs2, 0);
    lemma_vs_sum_perm(vs1, vs2, 1);
    lemma_vs_sum_perm(vs1, vs2, 2);
    let p = stake_of(a.pre_commit, c) + vs_sum(vs1, 0);
    let m = stake_of(a.commit, c) + vs_sum(vs1, 1);
    let f = stake_of(a.finalize, c) + vs_sum(vs1, 2);
    if p >= a.failure_threshold {
        lemma_vs_run_fires_pre(a, c, vs1);
        lemma_vs_run_fires_pre(a, c, vs2);
    } else if m >= a.success_threshold {
        lemma_vs_run_fires_commit(a, c, vs1);
        lemma_vs_run_fires_commit(a, c, vs2);
    } else if f >= a.success_threshold {
        lemma_vs_run_fires_finalize(a, c, vs1);
        lemma_vs_run_fires_finalize(a, c, vs2);
    } else {
        lemma_vs_run_pending(a, c, vs1);
        lemma_vs_run_pending(a, c, vs2);
    }
}

// ---------------------------------------------------------------------------
// Order-independence of the unified outcome
// ---------------------------------------------------------------------------

/// The kind index of a unified vote's data: 0 for DA, 1 for Yes, 2 for No,
/// 3 for view-sync pre-commit, 4 for commit, 5 for finalize.  Timeout data
/// is outside the unified accumulator's scope.
pub open spec fn unified_kind_of(d: VoteData<Seq<u8>>) -> int {
    match d {
        VoteData::DA(_) => 0,
        VoteData::Yes(_) => 1,
        VoteData::No(_) => 2,
        VoteData::Timeout(_) => 6,
        VoteData::ViewSyncPreCommit(_) => 3,
        VoteData::ViewSyncCommit(_) => 4,
        VoteData::ViewSyncFinalize(_) => 5,
    }
}

/// Sum of the weights of the votes in `vs` of kind `k`.
pub open spec fn unified_sum(vs: Seq<UnifiedVoteModel>, k: int) -> int
    decreases vs.len(),
{
    if vs.len() == 0 {
        0
    } else {
        (if unified_kind_of(vs[0].v.data) == k {
            vs[0].v.count as int
        } else {
            0int
        }) + unified_sum(vs.subrange(1, vs.len() as int), k)
    }
}

/// Sum of the weights of all the votes in `vs`.
pub open spec fn unified_sum_all(vs: Seq<UnifiedVoteModel>) -> int
    decreases vs.len(),
{
    if vs.len() == 0 {
        0
    } else {
        vs[0].v.count + unified_sum_all(vs.subrange(1, vs.len() as int))
    }
}

/// A unified vote sequence over the single commitment `c`, duplicate-free
/// against state `a`.
pub open spec fn unified_fresh_inputs(
    a: UnifiedState,
    c: Seq<u8>,
    vs: Seq<UnifiedVoteModel>,
) -> bool {
    &&& forall|i: int| 0 <= i < vs.len() ==> (#[trigger] vs[i].c) == c && !(vs[i].v.data
        is Timeout)
    &&& forall|i: int| 0 <= i < vs.len() ==> 0 <= #[trigger] vs[i].v.node < a.signers.len()
        && !a.signers[vs[i].v.node]
    &&& forall|i: int| 0 <= i < vs.len() ==> !voted(a.total, c, #[trigger] vs[i].v.key)
    &&& forall|i: int, j: int| 0 <= i < j < vs.len() ==> vs[i].v.key != vs[j].v.key
        && vs[i].v.node != vs[j].v.node
    &&& stake_of(a.total, c) + unified_sum_all(vs) <= u64::MAX
    &&& stake_of(a.da, c) + unified_sum_all(vs) <= u64::MAX
    &&& stake_of(a.yes, c) + unified_sum_all(vs) <= u64::MAX
    &&& stake_of(a.no, c) + unified_sum_all(vs) <= u64::MAX
    &&& stake_of(a.pre_commit, c) + unified_sum_all(vs) <= u64::MAX
    &&& stake_of(a.commit, c) + unified_sum_all(vs) <= u64::MAX
    &&& stake_of(a.finalize, c) + unified_sum_all(vs) <= u64::MAX
}

/// The combined tally of `c` carries exactly the stake of the six kinds.
pub open spec fn unified_balanced(a: UnifiedState, c: Seq<u8>) -> bool {
    stake_of(a.total, c) == stake_of(a.da, c) + stake_of(a.yes, c) + stake_of(a.no, c)
        + stake_of(a.pre_commit, c) + stake_of(a.commit, c) + stake_of(a.finalize, c)
}

/// Kind sums are non-negative and bounded by the sum of all weights.
proof fn lemma_unified_sum_bounds(vs: Seq<UnifiedVoteModel>, k: int)
    ensures
        0 <= unified_sum(vs, k) <= unified_sum_all(vs),
    decreases vs.len(),
{
    if vs.len() > 0 {
        lemma_unified_sum_bounds(vs.subrange(1, vs.len() as int), k);
    }
}

/// Removing one vote removes exactly its contributions from the sums.
proof fn lemma_unified_sum_remove(vs: Seq<UnifiedVoteModel>, j: int, k: int)
    requires
        0 <= j < vs.len(),
    ensures
        unified_sum(vs.remove(j), k) == unified_sum(vs, k) - if unified_kind_of(vs[j].v.data)
            == k {
            vs[j].v.count as int
        } else {
            0int
        },
        unified_sum_all(vs.remove(j)) == unified_sum_all(vs) - vs[j].v.count,
    decreases vs.len(),
{
    let tail = vs.subrange(1, vs.len() as int);
    if j == 0 {
        assert(vs.remove(0) =~= tail);
    } else {
        let r = vs.remove(j);
        assert(r[0] == vs[0]);
        assert(r.subrange(1, r.len() as int) =~= tail.remove(j - 1));
        assert(tail[j - 1] == vs[j]);
        lemma_unified_sum_remove(tail, j - 1, k);
    }
}

/// The sums depend only on the multiset of votes.
proof fn lemma_unified_sum_perm(vs1: Seq<UnifiedVoteModel>, vs2: Seq<UnifiedVoteModel>, k: int)
    requires
        vs1.to_multiset() == vs2.to_multiset(),
    ensures
        unified_sum(vs1, k) == unified_sum(vs2, k),
        unified_sum_all(vs1) == unified_sum_all(vs2),
    decreases vs1.len(),
{
    broadcast use vstd::seq_lib::group_to_multiset_ensures;

    if vs1.len() == 0 {
        assert(vs1.to_multiset().len() == vs1.len());
        assert(vs2.to_multiset().len() == vs2.len());
        assert(vs2.len() == 0);
    } else {
        let v = vs1[0];
        assert(vs1.contains(v));
        assert(vs1.to_multiset().count(v) > 0);
        assert(vs2.to_multiset().count(v) > 0);
        assert(vs2.contains(v));
        let j = choose|j: int| 0 <= j < vs2.len() && vs2[j] == v;
        let tail = vs1.subrange(1, vs1.len() as int);
        assert(vs1.remove(0) =~= tail);
        assert(tail.to_multiset() == vs1.to_multiset().remove(v));
        assert(vs2.remove(j).to_multiset() == vs2.to_multiset().remove(v));
        lemma_unified_sum_perm(tail, vs2.remove(j), k);
        lemma_unified_sum_remove(vs2, j, k);
    }
}

/// Unfolds one step of a duplicate-free single-commitment unified run.
proof fn lemma_unified_fresh_unfold(a: UnifiedState, c: Seq<u8>, vs: Seq<UnifiedVoteModel>)
    requires
        unified_wf(a),
        unified_balanced(a, c),
        unified_fresh_inputs(a, c, vs),
        vs.len() > 0,
    ensures
        ({
            let v = vs[0].v;
            let a1 = unified_step(a, c, v);
            let tail = vs.subrange(1, vs.len() as int);
            &&& unified_accepts(a, c, v)
            &&& unified_can_add(a, c, v)
            &&& unified_wf(a1)
            &&& unified_balanced(a1, c)
            &&& unified_fresh_inputs(a1, c, tail)
            &&& stake_of(a1.total, c) + unified_sum_all(tail) == stake_of(a.total, c)
                + unified_sum_all(vs)
            &&& stake_of(a1.da, c) + unified_sum(tail, 0) == stake_of(a.da, c) + unified_sum(
                vs,
                0,
            )
            &&& stake_of(a1.yes, c) + unified_sum(tail, 1) == stake_of(a.yes, c) + unified_sum(
                vs,
                1,
            )
            &&& stake_of(a1.no, c) + unified_sum(tail, 2) == stake_of(a.no, c) + unified_sum(
                vs,
                2,
            )
            &&& stake_of(a1.pre_commit, c) + unified_sum(tail, 3) == stake_of(a.pre_commit, c)
                + unified_sum(vs, 3)
            &&& stake_of(a1.commit, c) + unified_sum(tail, 4) == stake_of(a.commit, c)
                + unified_sum(vs, 4)
            &&& stake_of(a1.finalize, c) + unified_sum(tail, 5) == stake_of(a.finalize, c)
                + unified_sum(vs, 5)
            &&& stake_of(a1.total, c) == stake_of(a.total, c) + v.count
            &&& stake_of(a1.da, c) >= stake_of(a.da, c)
            &&& stake_of(a1.yes, c) >= stake_of(a.yes, c)
            &&& stake_of(a1.no, c) >= stake_of(a.no, c)
            &&& stake_of(a1.pre_commit, c) >= stake_of(a.pre_commit, c)
            &&& stake_of(a1.commit, c) >= stake_of(a.commit, c)
            &&& stake_of(a1.finalize, c) >= stake_of(a.finalize, c)
            &&& a1.success_threshold == a.success_threshold
            &&& a1.failure_threshold == a.failure_threshold
            &&& a1.signers.len() == a.signers.len()
        }),
{
    let v = vs[0].v;
    let tail = vs.subrange(1, vs.len() as int);
    let e = entry_of(v);
    lemma_materialize_preserves(a.total, c);
    lemma_materialize_preserves(a.da, c);
    lemma_materialize_preserves(a.yes, c);
    lemma_materialize_preserves(a.no, c);
    lemma_materialize_preserves(a.pre_commit, c);
    lemma_materialize_preserves(a.commit, c);
    lemma_materialize_preserves(a.finalize, c);
    let t = materialize(a.total, c);
    assert(vs[0].c == c);
    assert(!voted(a.total, c, vs[0].v.key));
    assert(0 <= vs[0].v.node < a.signers.len() && !a.signers[vs[0].v.node]);
    assert(unified_accepts(a, c, v));
    assert(unified_can_add(a, c, v)) by {
        lemma_unified_sum_bounds(tail, 0);
        assert(unified_sum_all(vs) == v.count + unified_sum_all(tail));
    }
    lemma_unified_step_wf(a, c, v);
    let a1 = unified_step(a, c, v);
    lemma_voted_credit(t, c, e);
    lemma_stake_credit(t, c, e);
    let k = unified_kind_of(v.data);
    if v.data is DA {
        lemma_stake_credit(materialize(a.da, c), c, e);
    } else if v.data is Yes {
        lemma_stake_credit(materialize(a.yes, c), c, e);
    } else if v.data is No {
        lemma_stake_credit(materialize(a.no, c), c, e);
    } else if v.data is ViewSyncPreCommit {
        lemma_stake_credit(materialize(a.pre_commit, c), c, e);
    } else if v.data is ViewSyncCommit {
        lemma_stake_credit(materialize(a.commit, c), c, e);
    } else {
        lemma_stake_credit(materialize(a.finalize, c), c, e);
    }
    assert(unified_fresh_inputs(a1, c, tail)) by {
        lemma_unified_sum_bounds(tail, k);
        assert(unified_sum_all(vs) == v.count + unified_sum_all(tail));
        assert(stake_of(a1.total, c) == stake_of(a.total, c) + v.count);
        assert(stake_of(a1.da, c) <= stake_of(a.da, c) + v.count);
        assert(stake_of(a1.yes, c) <= stake_of(a.yes, c) + v.count);
        assert(stake_of(a1.no, c) <= stake_of(a.no, c) + v.count);
        assert(stake_of(a1.pre_commit, c) <= stake_of(a.pre_commit, c) + v.count);
        assert(stake_of(a1.commit, c) <= stake_of(a.commit, c) + v.count);
        assert(stake_of(a1.finalize, c) <= stake_of(a.finalize, c) + v.count);
        assert forall|i: int| 0 <= i < tail.len() implies (#[trigger] tail[i].c) == c && !(
        tail[i].v.data is Timeout) && 0 <= tail[i].v.node < a1.signers.len()
            && !a1.signers[tail[i].v.node] && !voted(a1.total, c, tail[i].v.key) by {
            assert(tail[i] == vs[i + 1]);
            assert(vs[i + 1].c == c);
            assert(vs[i + 1].v.key != v.key);
            assert(vs[i + 1].v.node != v.node);
            assert(!voted(a.total, c, vs[i + 1].v.key));
        }
        assert forall|i: int, j: int| 0 <= i < j < tail.len() implies tail[i].v.key
            != tail[j].v.key && tail[i].v.node != tail[j].v.node by {
            assert(tail[i] == vs[i + 1]);
            assert(tail[j] == vs[j + 1]);
        }
    }
}

/// The six satisfiability conditions of the unified accumulator over the
/// full vote set: whether each outcome's thresholds can ever be met once all
/// the votes are in.
pub open spec fn unified_sat(
    a: UnifiedState,
    c: Seq<u8>,
    vs: Seq<UnifiedVoteModel>,
    k: CertKind,
) -> bool {
    let t = stake_of(a.total, c) + unified_sum_all(vs);
    match k {
        CertKind::Da => stake_of(a.da, c) + unified_sum(vs, 0) >= a.success_threshold,
        CertKind::Yes => stake_of(a.yes, c) + unified_sum(vs, 1) >= a.success_threshold,
        CertKind::No => t >= a.success_threshold && stake_of(a.no, c) + unified_sum(vs, 2)
            >= a.failure_threshold,
        CertKind::ViewSyncPreCommit => stake_of(a.pre_commit, c) + unified_sum(vs, 3)
            >= a.failure_threshold,
        CertKind::ViewSyncCommit => stake_of(a.commit, c) + unified_sum(vs, 4)
            >= a.success_threshold,
        CertKind::ViewSyncFinalize => stake_of(a.finalize, c) + unified_sum(vs, 5)
            >= a.success_threshold,
    }
}

/// The unified accumulator's thresholds have not yet been crossed: no
/// outcome is already satisfied by the accumulated stake alone.
pub open spec fn unified_unfired(a: UnifiedState, c: Seq<u8>) -> bool {
    &&& stake_of(a.da, c) < a.success_threshold
    &&& stake_of(a.yes, c) < a.success_threshold
    &&& !(stake_of(a.total, c) >= a.success_threshold && stake_of(a.no, c)
        >= a.failure_threshold)
    &&& stake_of(a.pre_commit, c) < a.failure_threshold
    &&& stake_of(a.commit, c) < a.success_threshold
    &&& stake_of(a.finalize, c) < a.success_threshold
}

/// If exactly the outcome `k` is satisfiable by the full vote set, the run
/// fires `k` — in whatever order the votes arrive.
proof fn lemma_unified_run_fires(
    a: UnifiedState,
    c: Seq<u8>,
    vs: Seq<UnifiedVoteModel>,
    k: CertKind,
)
    requires
        unified_wf(a),
        unified_balanced(a, c),
        unified_fresh_inputs(a, c, vs),
        unified_unfired(a, c),
        unified_sat(a, c, vs, k),
        forall|other: CertKind| other != k ==> !unified_sat(a, c, vs, other),
    ensures
        unified_run(a, vs) == RunOutcome::<UnifiedState>::Fired(k),
    decreases vs.len(),
{
    lemma_unified_sum_bounds(vs, 0);
    lemma_unified_sum_bounds(vs, 1);
    lemma_unified_sum_bounds(vs, 2);
    lemma_unified_sum_bounds(vs, 3);
    lemma_unified_sum_bounds(vs, 4);
    lemma_unified_sum_bounds(vs, 5);
    if vs.len() == 0 {
        // An empty sequence contradicts the premises: `k` satisfied by the
        // accumulated stake alone is ruled out by `unified_unfired`.
        assert(!unified_sat(a, c, vs, CertKind::Da));
        assert(!unified_sat(a, c, vs, CertKind::Yes));
        assert(!unified_sat(a, c, vs, CertKind::No));
        assert(!unified_sat(a, c, vs, CertKind::ViewSyncPreCommit));
        assert(!unified_sat(a, c, vs, CertKind::ViewSyncCommit));
        assert(!unified_sat(a, c, vs, CertKind::ViewSyncFinalize));
    } else {
        let v = vs[0].v;
        lemma_unified_fresh_unfold(a, c, vs);
        assert(vs[0].c == c);
        let a1 = unified_step(a, c, v);
        let tail = vs.subrange(1, vs.len() as int);
        lemma_unified_sum_bounds(tail, 0);
        lemma_unified_sum_bounds(tail, 1);
        lemma_unified_sum_bounds(tail, 2);
        lemma_unified_sum_bounds(tail, 3);
        lemma_unified_sum_bounds(tail, 4);
        lemma_unified_sum_bounds(tail, 5);
        // Outcomes other than `k` stay below their thresholds after this
        // step, because their full sums already fail.
        assert(!unified_sat(a, c, vs, CertKind::Da) ==> stake_of(a1.da, c)
            < a.success_threshold);
        assert(!unified_sat(a, c, vs, CertKind::Yes) ==> stake_of(a1.yes, c)
            < a.success_threshold);
        assert(!unified_sat(a, c, vs, CertKind::No) ==> !(stake_of(a1.total, c)
            >= a.success_threshold && stake_of(a1.no, c) >= a.failure_threshold));
        assert(!unified_sat(a, c, vs, CertKind::ViewSyncPreCommit) ==> stake_of(a1.pre_commit, c)
            < a.failure_threshold);
        assert(!unified_sat(a, c, vs, CertKind::ViewSyncCommit) ==> stake_of(a1.commit, c)
            < a.success_threshold);
        assert(!unified_sat(a, c, vs, CertKind::ViewSyncFinalize) ==> stake_of(a1.finalize, c)
            < a.success_threshold);
        if unified_fired(a, c, v) is Some {
            assert(unified_fired(a, c, v) == Some(k)) by {
                if k == CertKind::Yes {
                    assert(stake_of(a1.total, c) >= stake_of(a1.yes, c));
                }
                if k == CertKind::Da {
                    assert(stake_of(a1.total, c) >= stake_of(a1.da, c));
                }
                if k == CertKind::ViewSyncCommit {
                    assert(stake_of(a1.total, c) >= stake_of(a1.commit, c));
                }
                if k == CertKind::ViewSyncFinalize {
                    assert(stake_of(a1.total, c) >= stake_of(a1.finalize, c));
                }
            }
        } else {
            // The stepped state has not crossed `k`'s thresholds either, or
            // the step would have fired.
            assert(unified_unfired(a1, c)) by {
                assert(stake_of(a1.total, c) >= stake_of(a1.yes, c));
                assert(stake_of(a1.total, c) >= stake_of(a1.da, c));
                assert(stake_of(a1.total, c) >= stake_of(a1.commit, c));
                assert(stake_of(a1.total, c) >= stake_of(a1.finalize, c));
            }
            assert forall|other: CertKind| other != k implies !unified_sat(a1, c, tail, other) by {
                assert(!unified_sat(a, c, vs, other));
                assert(stake_of(a1.total, c) + unified_sum_all(tail) == stake_of(a.total, c)
                    + unified_sum_all(vs));
                if other == CertKind::Da {
                    assert(stake_of(a1.da, c) + unified_sum(tail, 0) == stake_of(a.da, c)
                        + unified_sum(vs, 0));
                } else if other == CertKind::Yes {
                    assert(stake_of(a1.yes, c) + unified_sum(tail, 1) == stake_of(a.yes, c)
                        + unified_sum(vs, 1));
                } else if other == CertKind::No {
                    assert(stake_of(a1.no, c) + unified_sum(tail, 2) == stake_of(a.no, c)
                        + unified_sum(vs, 2));
                } else if other == CertKind::ViewSyncPreCommit {
                    assert(stake_of(a1.pre_commit, c) + unified_sum(tail, 3) == stake_of(
                        a.pre_commit,
                        c,
                    ) + unified_sum(vs, 3));
                } else if other == CertKind::ViewSyncCommit {
                    assert(stake_of(a1.commit, c) + unified_sum(tail, 4) == stake_of(a.commit, c)
                        + unified_sum(vs, 4));
                } else {
                    assert(stake_of(a1.finalize, c) + unified_sum(tail, 5) == stake_of(
                        a.finalize,
                        c,
                    ) + unified_sum(vs, 5));
                }
            }
            assert(unified_sat(a1, c, tail, k));
            lemma_unified_run_fires(a1, c, tail, k);
        }
    }
}

/// If no outcome is satisfiable by the full vote set, the run ends pending —
/// in whatever order the votes arrive.
proof fn lemma_unified_run_pending(a: UnifiedState, c: Seq<u8>, vs: Seq<UnifiedVoteModel>)
    requires
        unified_wf(a),
        unified_balanced(a, c),
        unified_fresh_inputs(a, c, vs),
        forall|k: CertKind| !unified_sat(a, c, vs, k),
    ensures
        unified_run(a, vs) is Pending,
    decreases vs.len(),
{
    if vs.len() > 0 {
        let v = vs[0].v;
        lemma_unified_fresh_unfold(a, c, vs);
        assert(vs[0].c == c);
        let a1 = unified_step(a, c, v);
        let tail = vs.subrange(1, vs.len() as int);
        lemma_unified_sum_bounds(tail, 0);
        lemma_unified_sum_bounds(tail, 1);
        lemma_unified_sum_bounds(tail, 2);
        lemma_unified_sum_bounds(tail, 3);
        lemma_unified_sum_bounds(tail, 4);
        lemma_unified_sum_bounds(tail, 5);
        lemma_unified_sum_bounds(vs, 0);
        lemma_unified_sum_bounds(vs, 1);
        lemma_unified_sum_bounds(vs, 2);
        lemma_unified_sum_bounds(vs, 3);
        lemma_unified_sum_bounds(vs, 4);
        lemma_unified_sum_bounds(vs, 5);
        assert(!unified_sat(a, c, vs, CertKind::Da));
        assert(!unified_sat(a, c, vs, CertKind::Yes));
        assert(!unified_sat(a, c, vs, CertKind::No));
        assert(!unified_sat(a, c, vs, CertKind::ViewSyncPreCommit));
        assert(!unified_sat(a, c, vs, CertKind::ViewSyncCommit));
        assert(!unified_sat(a, c, vs, CertKind::ViewSyncFinalize));
        assert(unified_fired(a, c, v) is None);
        assert forall|k: CertKind| !unified_sat(a1, c, tail, k) by {
            assert(!unified_sat(a, c, vs, k));
            assert(stake_of(a1.total, c) + unified_sum_all(tail) == stake_of(a.total, c)
                + unified_sum_all(vs));
            if k == CertKind::Da {
                assert(stake_of(a1.da, c) + unified_sum(tail, 0) == stake_of(a.da, c)
                    + unified_sum(vs, 0));
            } else if k == CertKind::Yes {
                assert(stake_of(a1.yes, c) + unified_sum(tail, 1) == stake_of(a.yes, c)
                    + unified_sum(vs, 1));
            } else if k == CertKind::No {
                assert(stake_of(a1.no, c) + unified_sum(tail, 2) == stake_of(a.no, c)
                    + unified_sum(vs, 2));
            } else if k == CertKind::ViewSyncPreCommit {
                assert(stake_of(a1.pre_commit, c) + unified_sum(tail, 3) == stake_of(
                    a.pre_commit,
                    c,
                ) + unified_sum(vs, 3));
            } else if k == CertKind::ViewSyncCommit {
                assert(stake_of(a1.commit, c) + unified_sum(tail, 4) == stake_of(a.commit, c)
                    + unified_sum(vs, 4));
            } else {
                assert(stake_of(a1.finalize, c) + unified_sum(tail, 5) == stake_of(
                    a.finalize,
                    c,
                ) + unified_sum(vs, 5));
            }
        }
        lemma_unified_run_pending(a1, c, tail);
    }
}

/// I5 for the unified accumulator (order-independence of the outcome): over
/// a single commitment, two duplicate-free arrangements of the same votes
/// fire the same certificate kind, or both end pending, provided at most one
/// outcome is satisfiable by the full vote set.  When two outcomes are
/// satisfiable at once the winner genuinely depends on arrival order and no
/// such law holds.
pub proof fn lemma_unified_order_independent(
    a: UnifiedState,
    c: Seq<u8>,
    vs1: Seq<UnifiedVoteModel>,
    vs2: Seq<UnifiedVoteModel>,
)
    requires
        unified_wf(a),
        unified_balanced(a, c),
        unified_fresh_inputs(a, c, vs1),
        unified_fresh_inputs(a, c, vs2),
        vs1.to_multiset() == vs2.to_multiset(),
        unified_unfired(a, c),
        forall|k1: CertKind, k2: CertKind| k1 != k2 ==> !(unified_sat(a, c, vs1, k1)
            && unified_sat(a, c, vs1, k2)),
    ensures
        unified_run(a, vs1) is Fired <==> unified_run(a, vs2) is Fired,
        unified_run(a, vs1) matches RunOutcome::Fired(k) ==> unified_run(a, vs2)
            == RunOutcome::<UnifiedState>::Fired(k),
{
    lemma_unified_sum_perm(vs1, vs2, 0);
    lemma_unified_sum_perm(vs1, vs2, 1);
    lemma_unified_sum_perm(vs1, vs2, 2);
    lemma_unified_sum_perm(vs1, vs2, 3);
    lemma_unified_sum_perm(vs1, vs2, 4);
    lemma_unified_sum_perm(vs1, vs2, 5);
    assert forall|k: CertKind| unified_sat(a, c, vs1, k) == unified_sat(a, c, vs2, k) by {}
    if exists|k: CertKind| unified_sat(a, c, vs1, k) {
        let k = choose|k: CertKind| unified_sat(a, c, vs1, k);
        assert forall|other: CertKind| other != k implies !unified_sat(a, c, vs1, other) by {}
        assert forall|other: CertKind| other != k implies !unified_sat(a, c, vs2, other) by {}
        lemma_unified_run_fires(a, c, vs1, k);
        lemma_unified_run_fires(a, c, vs2, k);
    } else {
        assert forall|k: CertKind| !unified_sat(a, c, vs2, k) by {
            assert(!unified_sat(a, c, vs1, k));
        }
        lemma_unified_run_pending(a, c, vs1);
        lemma_unified_run_pending(a, c, vs2);
    }
}

} // verus!
