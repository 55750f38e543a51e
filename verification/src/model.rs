//! Ghost model of accumulator state.
//!
//! Every accumulator's observable state is abstracted to maps from commitment
//! bytes to tallies, a signer sequence, and a count of collected shares.  The
//! executable accumulators' contracts are stated as transitions over this
//! model, and the crate's laws are proved about it.

use vstd::prelude::*;

use crate::data::VoteData;

verus! {

/// One tallied vote as recorded inside a tally: the voter's encoded key, the
/// encoded signature share, the vote data, and the stake the vote carried.
pub struct EntryModel {
    pub key: Seq<u8>,
    pub sig: Seq<u8>,
    pub data: VoteData<Seq<u8>>,
    pub count: u64,
}

/// One per-commitment tally: the accumulated stake and the recorded votes.
#[verifier::ext_equal]
pub struct TallyModel {
    pub stake: u64,
    pub votes: Seq<EntryModel>,
}

/// A vote as an accumulator sees it: key, signature, data, stake weight, and
/// the voter's committee position.
pub struct VoteModel {
    pub key: Seq<u8>,
    pub sig: Seq<u8>,
    pub data: VoteData<Seq<u8>>,
    pub count: u64,
    pub node: int,
}

/// A vote map's abstract value: commitment bytes to tally.
pub type MapModel = Map<Seq<u8>, TallyModel>;

/// The tally a commitment starts from: no stake, no votes.
pub open spec fn empty_tally() -> TallyModel {
    TallyModel { stake: 0, votes: Seq::empty() }
}

/// Sum of the stake weights of a sequence of recorded votes.
pub open spec fn sum_counts(votes: Seq<EntryModel>) -> int
    decreases votes.len(),
{
    if votes.len() == 0 {
        0
    } else {
        sum_counts(votes.drop_last()) + votes.last().count
    }
}

/// Whether some recorded vote carries the key `k`.
pub open spec fn has_key(votes: Seq<EntryModel>, k: Seq<u8>) -> bool {
    exists|i: int| 0 <= i < votes.len() && votes[i].key == k
}

/// No two recorded votes carry the same key.
pub open spec fn keys_unique(votes: Seq<EntryModel>) -> bool {
    forall|i: int, j: int| 0 <= i < j < votes.len() ==> votes[i].key != votes[j].key
}

/// A tally is well formed when its keys are unique and its stake field equals
/// the sum of its recorded votes' weights.
pub open spec fn tally_wf(t: TallyModel) -> bool {
    &&& keys_unique(t.votes)
    &&& t.stake == sum_counts(t.votes)
}

/// A vote map is well formed when every tally in it is.
pub open spec fn map_wf(m: MapModel) -> bool {
    forall|c: Seq<u8>| #[trigger] m.dom().contains(c) ==> tally_wf(m[c])
}

/// The accumulated stake credited to commitment `c`, zero if `c` has no tally.
pub open spec fn stake_of(m: MapModel, c: Seq<u8>) -> u64 {
    if m.dom().contains(c) {
        m[c].stake
    } else {
        0
    }
}

/// Whether voter `k` already has a recorded vote for commitment `c`.
pub open spec fn voted(m: MapModel, c: Seq<u8>, k: Seq<u8>) -> bool {
    m.dom().contains(c) && has_key(m[c].votes, k)
}

/// Materializes an empty tally for `c` if the map has none yet.
pub open spec fn materialize(m: MapModel, c: Seq<u8>) -> MapModel {
    if m.dom().contains(c) {
        m
    } else {
        m.insert(c, empty_tally())
    }
}

/// Credits one vote to the tally of `c`, which must be present: adds the
/// vote's weight to the stake and records the entry.
pub open spec fn credit(m: MapModel, c: Seq<u8>, e: EntryModel) -> MapModel {
    m.insert(
        c,
        TallyModel { stake: (m[c].stake + e.count) as u64, votes: m[c].votes.push(e) },
    )
}

/// Number of set positions in a signer sequence.
pub open spec fn popcount(s: Seq<bool>) -> int
    decreases s.len(),
{
    if s.len() == 0 {
        0
    } else {
        popcount(s.drop_last()) + if s.last() {
            1int
        } else {
            0int
        }
    }
}

/// The commitment a vote's data speaks about.
pub open spec fn data_commitment(d: VoteData<Seq<u8>>) -> Seq<u8> {
    match d {
        VoteData::DA(c) => c,
        VoteData::Yes(c) => c,
        VoteData::No(c) => c,
        VoteData::Timeout(c) => c,
        VoteData::ViewSyncPreCommit(c) => c,
        VoteData::ViewSyncCommit(c) => c,
        VoteData::ViewSyncFinalize(c) => c,
    }
}

/// The entry recorded for an accepted vote.
pub open spec fn entry_of(v: VoteModel) -> EntryModel {
    EntryModel { key: v.key, sig: v.sig, data: v.data, count: v.count }
}

/// Recording one more vote leaves exactly the old keys plus the new one.
pub proof fn lemma_has_key_push(votes: Seq<EntryModel>, e: EntryModel, k: Seq<u8>)
    ensures
        has_key(votes.push(e), k) <==> (has_key(votes, k) || e.key == k),
{
    if has_key(votes, k) {
        let i = choose|i: int| 0 <= i < votes.len() && votes[i].key == k;
        assert(votes.push(e)[i].key == k);
    }
    if e.key == k {
        assert(votes.push(e)[votes.len() as int].key == k);
    }
    if has_key(votes.push(e), k) {
        let i = choose|i: int| 0 <= i < votes.push(e).len() && votes.push(e)[i].key == k;
        if i < votes.len() {
            assert(votes[i].key == k);
        }
    }
}

/// Crediting a vote to `c` records exactly one more voter, for `c`, and
/// leaves every other commitment's voters alone.
pub proof fn lemma_voted_credit(m: MapModel, c: Seq<u8>, e: EntryModel)
    requires
        m.dom().contains(c),
    ensures
        forall|d: Seq<u8>, k: Seq<u8>| #[trigger] voted(credit(m, c, e), d, k) <==> (voted(m, d, k)
            || (d == c && k == e.key)),
{
    assert forall|d: Seq<u8>, k: Seq<u8>| #[trigger] voted(credit(m, c, e), d, k) <==> (voted(
        m,
        d,
        k,
    ) || (d == c && k == e.key)) by {
        if d == c {
            lemma_has_key_push(m[c].votes, e, k);
        }
    }
}

/// Crediting a vote raises exactly the credited commitment's stake, by the
/// vote's weight.
pub proof fn lemma_stake_credit(m: MapModel, c: Seq<u8>, e: EntryModel)
    requires
        m.dom().contains(c),
        m[c].stake + e.count <= u64::MAX,
    ensures
        stake_of(credit(m, c, e), c) == m[c].stake + e.count,
        forall|d: Seq<u8>| d != c ==> stake_of(credit(m, c, e), d) == stake_of(m, d),
{
}

/// Crediting a new voter's vote keeps every tally well formed.
pub proof fn lemma_credit_map_wf(m: MapModel, c: Seq<u8>, e: EntryModel)
    requires
        map_wf(m),
        m.dom().contains(c),
        !has_key(m[c].votes, e.key),
        m[c].stake + e.count <= u64::MAX,
    ensures
        map_wf(credit(m, c, e)),
        stake_of(credit(m, c, e), c) == m[c].stake + e.count,
{
    let m2 = credit(m, c, e);
    assert(tally_wf(m2[c])) by {
        assert forall|a: int, b: int| 0 <= a < b < m2[c].votes.len() implies m2[c].votes[a].key
            != m2[c].votes[b].key by {
            if b == m2[c].votes.len() - 1 {
                assert(m2[c].votes[a] == m[c].votes[a]);
            }
        }
        lemma_sum_counts_push(m[c].votes, e);
    }
    assert forall|d: Seq<u8>| #[trigger] m2.dom().contains(d) implies tally_wf(m2[d]) by {
        if d != c {
            assert(m2[d] == m[d]);
        }
    }
}

/// Materializing an empty tally changes no stake and no recorded voter.
pub proof fn lemma_materialize_preserves(m: MapModel, c: Seq<u8>)
    ensures
        forall|d: Seq<u8>| #[trigger] stake_of(materialize(m, c), d) == stake_of(m, d),
        forall|d: Seq<u8>, k: Seq<u8>| #[trigger] voted(materialize(m, c), d, k) == voted(m, d, k),
        materialize(m, c).dom().contains(c),
        map_wf(m) ==> map_wf(materialize(m, c)),
{
    assert forall|d: Seq<u8>, k: Seq<u8>| #[trigger] voted(materialize(m, c), d, k) == voted(
        m,
        d,
        k,
    ) by {
        if d == c && !m.dom().contains(c) {
            assert(!has_key(empty_tally().votes, k));
        }
    }
    if map_wf(m) {
        assert forall|d: Seq<u8>| #[trigger] materialize(m, c).dom().contains(d) implies tally_wf(
            materialize(m, c)[d],
        ) by {
            if !m.dom().contains(d) {
                assert(materialize(m, c)[d] == empty_tally());
            }
        }
    }
}

/// Pushing one vote extends the sum by that vote's weight.
pub proof fn lemma_sum_counts_push(votes: Seq<EntryModel>, e: EntryModel)
    ensures
        sum_counts(votes.push(e)) == sum_counts(votes) + e.count,
{
    assert(votes.push(e).drop_last() =~= votes);
}

/// Setting a cleared position raises the popcount by one; setting an already
/// set position leaves it unchanged.
pub proof fn lemma_popcount_update(s: Seq<bool>, i: int)
    requires
        0 <= i < s.len(),
    ensures
        popcount(s.update(i, true)) == popcount(s) + if s[i] {
            0int
        } else {
            1int
        },
    decreases s.len(),
{
    let t = s.update(i, true);
    if i == s.len() - 1 {
        assert(t.drop_last() =~= s.drop_last());
    } else {
        assert(t.drop_last() =~= s.drop_last().update(i, true));
        lemma_popcount_update(s.drop_last(), i);
    }
}

/// A sequence of cleared positions has popcount zero.
pub proof fn lemma_popcount_zero(s: Seq<bool>)
    requires
        forall|i: int| 0 <= i < s.len() ==> !s[i],
    ensures
        popcount(s) == 0,
    decreases s.len(),
{
    if s.len() > 0 {
        lemma_popcount_zero(s.drop_last());
    }
}

} // verus!
