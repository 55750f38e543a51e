//! Per-payload tallies keyed by content commitment.
//!
//! A [`VoteMap`] maps each payload commitment to the stake accumulated for
//! it and the votes recorded for it, one per voter.  Votes with different
//! payload commitments are aggregated independently; the inner record list
//! enforces per-voter uniqueness for one payload.  Its abstract value is the
//! [`MapModel`] the accumulator contracts are stated over.

use vstd::prelude::*;
use vstd::pervasive::VecAdditionalExecFns;

use crate::data::{bytes_eq, Commitment, EncodedPublicKey, EncodedSignature, VoteData, VoteToken};
use crate::model::{credit, empty_tally, has_key, keys_unique, lemma_sum_counts_push, map_wf,
    materialize, stake_of, tally_wf, voted, EntryModel, MapModel, TallyModel};

verus! {

/// One recorded vote: the voter's encoded key, the encoded signature share,
/// the vote data, and the vote token it arrived with.
#[derive(Debug)]
pub struct VoteEntry {
    pub key: EncodedPublicKey,
    pub sig: EncodedSignature,
    pub data: VoteData<Commitment>,
    pub token: VoteToken,
}

impl View for VoteEntry {
    type V = EntryModel;

    open spec fn view(&self) -> EntryModel {
        EntryModel { key: self.key@, sig: self.sig@, data: self.data@, count: self.token.vote_count }
    }
}

/// The recorded votes as the model sees them.
pub open spec fn votes_view(s: Seq<VoteEntry>) -> Seq<EntryModel> {
    s.map_values(|e: VoteEntry| e@)
}

/// The tally for one commitment: accumulated stake and recorded votes.
#[derive(Debug)]
pub struct Tally {
    pub stake: u64,
    pub votes: Vec<VoteEntry>,
}

impl View for Tally {
    type V = TallyModel;

    open spec fn view(&self) -> TallyModel {
        TallyModel { stake: self.stake, votes: votes_view(self.votes@) }
    }
}

/// Mapping of commitments to tallies.
#[derive(Debug)]
pub struct VoteMap {
    pub slots: Vec<(Commitment, Tally)>,
}

/// The abstract map described by a slot sequence: later slots shadow earlier
/// ones, though a well-formed map never has two slots for one commitment.
pub open spec fn slots_map(s: Seq<(Commitment, Tally)>) -> MapModel
    decreases s.len(),
{
    if s.len() == 0 {
        Map::empty()
    } else {
        slots_map(s.drop_last()).insert(s.last().0@, s.last().1@)
    }
}

/// Whether some slot holds commitment `c`.
pub open spec fn has_commit(s: Seq<(Commitment, Tally)>, c: Seq<u8>) -> bool {
    exists|i: int| 0 <= i < s.len() && s[i].0@ == c
}

/// No two slots hold the same commitment.
pub open spec fn commits_distinct(s: Seq<(Commitment, Tally)>) -> bool {
    forall|i: int, j: int| 0 <= i < j < s.len() ==> s[i].0@ != s[j].0@
}

impl View for VoteMap {
    type V = MapModel;

    open spec fn view(&self) -> MapModel {
        slots_map(self.slots@)
    }
}

/// The abstract map's domain is exactly the commitments the slots hold.
pub proof fn lemma_slots_map_dom(s: Seq<(Commitment, Tally)>)
    ensures
        forall|c: Seq<u8>| #[trigger] slots_map(s).dom().contains(c) <==> has_commit(s, c),
    decreases s.len(),
{
    if s.len() > 0 {
        lemma_slots_map_dom(s.drop_last());
        assert forall|c: Seq<u8>| #[trigger] slots_map(s).dom().contains(c) implies has_commit(
            s,
            c,
        ) by {
            if c == s.last().0@ {
                assert(s[s.len() - 1].0@ == c);
            } else {
                assert(slots_map(s.drop_last()).dom().contains(c));
                let i = choose|i: int| 0 <= i < s.drop_last().len() && s.drop_last()[i].0@ == c;
                assert(s[i].0@ == c);
            }
        }
        assert forall|c: Seq<u8>| has_commit(s, c) implies #[trigger] slots_map(s).dom().contains(
            c,
        ) by {
            let i = choose|i: int| 0 <= i < s.len() && s[i].0@ == c;
            if i == s.len() - 1 {
                assert(c == s.last().0@);
            } else {
                assert(s.drop_last()[i].0@ == c);
                assert(has_commit(s.drop_last(), c));
                assert(slots_map(s.drop_last()).dom().contains(c));
            }
        }
    }
}

/// With distinct commitments, the abstract map sends each slot's commitment
/// to that slot's tally.
pub proof fn lemma_slots_map_at(s: Seq<(Commitment, Tally)>, i: int)
    requires
        commits_distinct(s),
        0 <= i < s.len(),
    ensures
        slots_map(s).dom().contains(s[i].0@),
        slots_map(s)[s[i].0@] == s[i].1@,
    decreases s.len(),
{
    if i == s.len() - 1 {
    } else {
        assert(s.drop_last()[i] == s[i]);
        lemma_slots_map_at(s.drop_last(), i);
        assert(s.last().0@ != s[i].0@);
    }
}

/// Replacing slot `i` by a pair with the same commitment updates just that
/// commitment's tally.
pub proof fn lemma_slots_map_update(s: Seq<(Commitment, Tally)>, i: int, p: (Commitment, Tally))
    requires
        commits_distinct(s),
        0 <= i < s.len(),
        p.0@ == s[i].0@,
    ensures
        slots_map(s.update(i, p)) == slots_map(s).insert(s[i].0@, p.1@),
    decreases s.len(),
{
    let u = s.update(i, p);
    if i == s.len() - 1 {
        assert(u.drop_last() =~= s.drop_last());
        assert(u.last() == p);
        assert(slots_map(u) =~= slots_map(s).insert(s[i].0@, p.1@));
    } else {
        assert(u.drop_last() =~= s.drop_last().update(i, p));
        assert(s.drop_last()[i] == s[i]);
        lemma_slots_map_update(s.drop_last(), i, p);
        assert(u.last() == s.last());
        assert(s.last().0@ != s[i].0@);
        assert(slots_map(u) =~= slots_map(s).insert(s[i].0@, p.1@));
    }
}

impl VoteMap {
    /// Structural well-formedness: one slot per commitment, every tally
    /// internally consistent.
    pub open spec fn wf(self) -> bool {
        &&& commits_distinct(self.slots@)
        &&& map_wf(self@)
    }

    /// An empty map.
    pub fn new() -> (m: VoteMap)
        ensures
            m.wf(),
            m@ == Map::<Seq<u8>, TallyModel>::empty(),
            m.slots@.len() == 0,
    {
        VoteMap { slots: Vec::new() }
    }

    /// Finds the slot holding commitment `c`, if any.
    pub fn find(&self, c: &Commitment) -> (r: Option<usize>)
        ensures
            match r {
                Some(i) => i < self.slots@.len() && self.slots@[i as int].0@ == c@,
                None => !has_commit(self.slots@, c@),
            },
    {
        let n = self.slots.len();
        let mut i: usize = 0;
        while i < n
            invariant
                i <= n,
                n == self.slots@.len(),
                forall|j: int| 0 <= j < i ==> self.slots@[j].0@ != c@,
            decreases n - i,
        {
            if bytes_eq(&self.slots[i].0.bytes, &c.bytes) {
                return Some(i);
            }
            i += 1;
        }
        None
    }

    /// Looks up the slot for commitment `c`, materializing an empty tally if
    /// the map has none, and returns its index.  Stakes and recorded voters
    /// are untouched for every commitment.
    pub fn ensure_entry(&mut self, c: &Commitment) -> (i: usize)
        requires
            old(self).wf(),
        ensures
            final(self).wf(),
            final(self)@ == materialize(old(self)@, c@),
            i < final(self).slots@.len(),
            final(self).slots@[i as int].0@ == c@,
            final(self)@.dom().contains(c@),
            final(self)@[c@] == final(self).slots@[i as int].1@,
            forall|d: Seq<u8>| stake_of(final(self)@, d) == stake_of(old(self)@, d),
            forall|d: Seq<u8>, k: Seq<u8>| voted(final(self)@, d, k) == voted(old(self)@, d, k),
    {
        proof {
            lemma_slots_map_dom(self.slots@);
        }
        match self.find(c) {
            Some(i) => {
                proof {
                    lemma_slots_map_at(self.slots@, i as int);
                }
                i
            },
            None => {
                let cc = c.clone();
                let i = self.slots.len();
                self.slots.push((cc, Tally { stake: 0, votes: Vec::new() }));
                proof {
                    let s_old = old(self).slots@;
                    let s_new = self.slots@;
                    assert(s_new.drop_last() =~= s_old);
                    assert(s_new.last().1@.votes =~= Seq::<EntryModel>::empty());
                    assert(s_new.last().1@ =~= empty_tally());
                    assert(self@ == old(self)@.insert(c@, empty_tally()));
                    assert forall|a: int, b: int| 0 <= a < b < s_new.len() implies s_new[a].0@
                        != s_new[b].0@ by {
                        if b == s_new.len() - 1 {
                            assert(s_old[a].0@ != c@);
                        }
                    }
                    assert(map_wf(self@));
                    lemma_slots_map_at(self.slots@, i as int);
                    assert forall|d: Seq<u8>| stake_of(self@, d) == stake_of(old(self)@, d) by {
                        if d != c@ {
                        } else {
                            assert(stake_of(self@, d) == 0);
                        }
                    }
                    assert forall|d: Seq<u8>, k: Seq<u8>|
                        voted(self@, d, k) == voted(old(self)@, d, k) by {
                        if d == c@ {
                            assert(!has_key(empty_tally().votes, k));
                        }
                    }
                }
                i
            },
        }
    }

    /// Whether voter `k` already has a recorded vote in slot `i`.
    pub fn has_voter_at(&self, i: usize, k: &EncodedPublicKey) -> (r: bool)
        requires
            i < self.slots@.len(),
        ensures
            r == has_key(self.slots@[i as int].1@.votes, k@),
    {
        let votes = &self.slots[i].1.votes;
        let n = votes.len();
        let mut j: usize = 0;
        while j < n
            invariant
                j <= n,
                n == votes@.len(),
                votes@ == self.slots@[i as int].1.votes@,
                i < self.slots@.len(),
                forall|l: int| 0 <= l < j ==> votes@[l]@.key != k@,
            decreases n - j,
        {
            if bytes_eq(&votes[j].key.0, &k.0) {
                proof {
                    assert(votes_view(votes@)[j as int].key == k@);
                }
                return true;
            }
            j += 1;
        }
        proof {
            assert forall|l: int| 0 <= l < votes_view(votes@).len() implies votes_view(votes@)[l].key
                != k@ by {
                assert(votes@[l]@.key != k@);
            }
        }
        false
    }

    /// The accumulated stake recorded in slot `i`.
    pub fn stake_at(&self, i: usize) -> (r: u64)
        requires
            i < self.slots@.len(),
        ensures
            r == self.slots@[i as int].1@.stake,
    {
        self.slots[i].1.stake
    }

    /// Credits one vote to slot `i`: adds the vote's weight to the stake and
    /// records the entry.  The voter must be new to this slot and the stake
    /// must have room.
    pub fn add_at(&mut self, i: usize, e: VoteEntry)
        requires
            old(self).wf(),
            i < old(self).slots@.len(),
            !has_key(old(self).slots@[i as int].1@.votes, e@.key),
            old(self).slots@[i as int].1@.stake + e@.count <= u64::MAX,
        ensures
            final(self).wf(),
            final(self)@ == credit(old(self)@, old(self).slots@[i as int].0@, e@),
            final(self).slots@.len() == old(self).slots@.len(),
            final(self).slots@[i as int].0@ == old(self).slots@[i as int].0@,
            final(self).slots@[i as int].1@.stake == old(self).slots@[i as int].1@.stake
                + e@.count,
    {
        let ghost s_old = self.slots@;
        let ghost c = s_old[i as int].0@;
        let ghost e_model = e@;
        let mut slot: (Commitment, Tally) = (
            Commitment { bytes: Vec::new() },
            Tally { stake: 0, votes: Vec::new() },
        );
        self.slots.set_and_swap(i, &mut slot);
        let (c0, mut t) = slot;
        let ghost t_old = t@;
        let count = e.token.vote_count;
        t.stake = t.stake + count;
        t.votes.push(e);
        proof {
            assert(t.votes@.drop_last() =~= old(self).slots@[i as int].1.votes@);
            assert(votes_view(t.votes@) =~= votes_view(t.votes@.drop_last()).push(e_model));
            assert(t@ == TallyModel {
                stake: (t_old.stake + e_model.count) as u64,
                votes: t_old.votes.push(e_model),
            });
        }
        self.slots.set(i, (c0, t));
        proof {
            let s_new = self.slots@;
            let p = s_new[i as int];
            assert(s_new =~= s_old.update(i as int, p));
            assert(p.0@ == c);
            lemma_slots_map_at(s_old, i as int);
            assert(old(self)@[c] == t_old);
            lemma_slots_map_update(s_old, i as int, p);
            assert(self@ == credit(old(self)@, c, e_model));
            assert forall|a: int, b: int| 0 <= a < b < s_new.len() implies s_new[a].0@
                != s_new[b].0@ by {
                assert(s_new[a].0@ == s_old[a].0@ || a == i);
                assert(s_new[b].0@ == s_old[b].0@ || b == i);
            }
            assert(tally_wf(p.1@)) by {
                assert(keys_unique(t_old.votes));
                assert forall|a: int, b: int| 0 <= a < b < p.1@.votes.len() implies p.1@.votes[a].key
                    != p.1@.votes[b].key by {
                    if b == p.1@.votes.len() - 1 {
                        assert(p.1@.votes[a] == t_old.votes[a]);
                        assert(!has_key(t_old.votes, e_model.key));
                    }
                }
                lemma_sum_counts_push(t_old.votes, e_model);
            }
            assert forall|d: Seq<u8>| #[trigger] self@.dom().contains(d) implies tally_wf(
                self@[d],
            ) by {
                if d != c {
                    assert(old(self)@.dom().contains(d));
                    assert(self@[d] == old(self)@[d]);
                }
            }
        }
    }
}

} // verus!
