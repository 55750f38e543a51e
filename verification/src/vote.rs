//! The votes consensus nodes send, and the interface the accumulators
//! consume them through.

use vstd::prelude::*;

use crate::data::{Commitment, EncodedPublicKey, EncodedSignature, QuorumCertificate, VoteData,
    VoteToken};
use crate::model::VoteModel;

verus! {

/// The vote sent by consensus messages, as the accumulators consume it:
/// every vote exposes its view, its voter's encoded key, its encoded
/// signature share, the data it was signed over, and its vote token.
///
/// The spec-level accessors are total; `data_ok` marks the votes whose data
/// and token the executable getters can actually produce (a timeout vote
/// carries neither in a form this interface can return).
pub trait VoteType: Sized {
    /// The view this vote was cast for.
    spec fn spec_view(&self) -> u64;

    /// The voter's encoded public key.
    spec fn spec_key(&self) -> Seq<u8>;

    /// The encoded signature share.
    spec fn spec_signature(&self) -> Seq<u8>;

    /// The data this vote was signed over.
    spec fn spec_data(&self) -> VoteData<Seq<u8>>;

    /// The stake weight carried by this vote's token.
    spec fn spec_count(&self) -> u64;

    /// Whether the data and token getters are defined for this vote.
    spec fn data_ok(&self) -> bool;

    /// Get the view this vote was cast for.
    fn get_view(&self) -> (v: u64)
        ensures
            v == self.spec_view(),
    ;

    /// Get the voter's encoded public key.
    fn get_key(&self) -> (k: EncodedPublicKey)
        ensures
            k@ == self.spec_key(),
    ;

    /// Get the encoded signature share.
    fn get_signature(&self) -> (s: EncodedSignature)
        ensures
            s@ == self.spec_signature(),
    ;

    /// Get the data this vote was signed over.
    fn get_data(&self) -> (d: VoteData<Commitment>)
        requires
            self.data_ok(),
        ensures
            d@ == self.spec_data(),
    ;

    /// Get the vote token of this vote.
    fn get_vote_token(&self) -> (t: VoteToken)
        requires
            self.data_ok(),
        ensures
            t.vote_count == self.spec_count(),
    ;
}

/// The ghost record an accumulator sees of a vote at committee position
/// `node`.
pub open spec fn vote_model<V: VoteType>(v: V, node: int) -> VoteModel {
    VoteModel {
        key: v.spec_key(),
        sig: v.spec_signature(),
        data: v.spec_data(),
        count: v.spec_count(),
        node,
    }
}

/// A vote on a DA proposal.
#[derive(Debug, PartialEq, Eq)]
pub struct DAVote {
    /// The signature share associated with this vote: encoded key and
    /// encoded signature.
    pub signature: (EncodedPublicKey, EncodedSignature),
    /// The block commitment being voted on.
    pub block_commitment: Commitment,
    /// The view this vote was cast for.
    pub current_view: u64,
    /// The vote token generated by this replica.
    pub vote_token: VoteToken,
    /// The vote data this vote is signed over.
    pub vote_data: VoteData<Commitment>,
}

impl DAVote {
    /// The voter's key in its encoded form.
    pub fn signature_key(&self) -> (k: EncodedPublicKey)
        ensures
            k@ == self.signature.0@,
    {
        self.signature.0.clone()
    }
}

impl VoteType for DAVote {
    open spec fn spec_view(&self) -> u64 {
        self.current_view
    }

    open spec fn spec_key(&self) -> Seq<u8> {
        self.signature.0@
    }

    open spec fn spec_signature(&self) -> Seq<u8> {
        self.signature.1@
    }

    open spec fn spec_data(&self) -> VoteData<Seq<u8>> {
        self.vote_data@
    }

    open spec fn spec_count(&self) -> u64 {
        self.vote_token.vote_count
    }

    open spec fn data_ok(&self) -> bool {
        true
    }

    fn get_view(&self) -> u64 {
        self.current_view
    }

    fn get_key(&self) -> EncodedPublicKey {
        self.signature_key()
    }

    fn get_signature(&self) -> EncodedSignature {
        self.signature.1.clone()
    }

    fn get_data(&self) -> VoteData<Commitment> {
        self.vote_data.clone()
    }

    fn get_vote_token(&self) -> VoteToken {
        self.vote_token.clone()
    }
}

/// A positive or negative vote on a validating or commitment proposal.
#[derive(Debug, PartialEq, Eq)]
pub struct YesOrNoVote {
    /// Commitment of the quorum certificate justifying this vote.
    pub justify_qc_commitment: Commitment,
    /// The signature share associated with this vote.
    pub signature: (EncodedPublicKey, EncodedSignature),
    /// The leaf commitment being voted on.
    pub leaf_commitment: Commitment,
    /// The view this vote was cast for.
    pub current_view: u64,
    /// The vote token generated by this replica.
    pub vote_token: VoteToken,
    /// The vote data this vote is signed over.
    pub vote_data: VoteData<Commitment>,
}

/// A timeout vote.
#[derive(Debug, PartialEq, Eq)]
pub struct TimeoutVote {
    /// The highest valid quorum certificate this node knows about.
    pub high_qc: QuorumCertificate,
    /// The signature share associated with this vote.
    pub signature: (EncodedPublicKey, EncodedSignature),
    /// The view this vote was cast for.
    pub current_view: u64,
    /// The vote token generated by this replica.
    pub vote_token: VoteToken,
    /// The vote data this vote is signed over.
    pub vote_data: VoteData<Commitment>,
}

/// Votes on a validating or commitment proposal.
#[derive(Debug, PartialEq, Eq)]
pub enum QuorumVote {
    /// Positive vote.
    Yes(YesOrNoVote),
    /// Negative vote.
    No(YesOrNoVote),
    /// Timeout vote.
    Timeout(TimeoutVote),
}

impl QuorumVote {
    /// Get the encoded signature.
    pub fn signature(&self) -> (s: EncodedSignature)
        ensures
            s@ == self.spec_signature(),
    {
        match self {
            QuorumVote::Yes(vote) | QuorumVote::No(vote) => vote.signature.1.clone(),
            QuorumVote::Timeout(vote) => vote.signature.1.clone(),
        }
    }

    /// Get the voter's key in its encoded form.
    pub fn signature_key(&self) -> (k: EncodedPublicKey)
        ensures
            k@ == self.spec_key(),
    {
        match self {
            QuorumVote::Yes(vote) | QuorumVote::No(vote) => vote.signature.0.clone(),
            QuorumVote::Timeout(vote) => vote.signature.0.clone(),
        }
    }
}

impl VoteType for QuorumVote {
    open spec fn spec_view(&self) -> u64 {
        match self {
            QuorumVote::Yes(v) => v.current_view,
            QuorumVote::No(v) => v.current_view,
            QuorumVote::Timeout(v) => v.current_view,
        }
    }

    open spec fn spec_key(&self) -> Seq<u8> {
        match self {
            QuorumVote::Yes(v) => v.signature.0@,
            QuorumVote::No(v) => v.signature.0@,
            QuorumVote::Timeout(v) => v.signature.0@,
        }
    }

    open spec fn spec_signature(&self) -> Seq<u8> {
        match self {
            QuorumVote::Yes(v) => v.signature.1@,
            QuorumVote::No(v) => v.signature.1@,
            QuorumVote::Timeout(v) => v.signature.1@,
        }
    }

    open spec fn spec_data(&self) -> VoteData<Seq<u8>> {
        match self {
            QuorumVote::Yes(v) => v.vote_data@,
            QuorumVote::No(v) => v.vote_data@,
            QuorumVote::Timeout(v) => v.vote_data@,
        }
    }

    open spec fn spec_count(&self) -> u64 {
        match self {
            QuorumVote::Yes(v) => v.vote_token.vote_count,
            QuorumVote::No(v) => v.vote_token.vote_count,
            QuorumVote::Timeout(v) => v.vote_token.vote_count,
        }
    }

    open spec fn data_ok(&self) -> bool {
        !(self is Timeout)
    }

    fn get_view(&self) -> u64 {
        match self {
            QuorumVote::Yes(v) | QuorumVote::No(v) => v.current_view,
            QuorumVote::Timeout(v) => v.current_view,
        }
    }

    fn get_key(&self) -> EncodedPublicKey {
        self.signature_key()
    }

    fn get_signature(&self) -> EncodedSignature {
        self.signature()
    }

    fn get_data(&self) -> VoteData<Commitment> {
        match self {
            QuorumVote::Yes(v) | QuorumVote::No(v) => v.vote_data.clone(),
            QuorumVote::Timeout(_) => unreached(),
        }
    }

    fn get_vote_token(&self) -> VoteToken {
        match self {
            QuorumVote::Yes(v) | QuorumVote::No(v) => v.vote_token.clone(),
            QuorumVote::Timeout(_) => unreached(),
        }
    }
}

/// The internals of a view sync vote.
#[derive(Debug, PartialEq, Eq)]
pub struct ViewSyncVoteInternal {
    /// The public key associated with the relay, in its encoded form.
    pub relay_pub_key: EncodedPublicKey,
    /// The relay this vote is intended for.
    pub relay: u64,
    /// The view number we are trying to sync on.
    pub round: u64,
    /// This node's signature over the vote data.
    pub signature: (EncodedPublicKey, EncodedSignature),
    /// The vote token generated by this replica.
    pub vote_token: VoteToken,
    /// The vote data this vote is signed over.
    pub vote_data: VoteData<Commitment>,
}

/// The data view sync votes are signed over: the designated relay and the
/// round to synchronize on.  Its commitment — a domain-separated hash of the
/// relay key bytes and the round — is computed by the commitment scheme
/// outside this crate and carried inside the vote data.
#[derive(Debug, PartialEq, Eq)]
pub struct ViewSyncData {
    /// The relay this vote is intended for, in its encoded form.
    pub relay: EncodedPublicKey,
    /// The view number we are trying to sync on.
    pub round: u64,
}

/// Votes to synchronize the network on a single view.
#[derive(Debug, PartialEq, Eq)]
pub enum ViewSyncVote {
    /// Pre-commit vote.
    PreCommit(ViewSyncVoteInternal),
    /// Commit vote.
    Commit(ViewSyncVoteInternal),
    /// Finalize vote.
    Finalize(ViewSyncVoteInternal),
}

impl ViewSyncVote {
    /// Get the encoded signature.
    pub fn signature(&self) -> (s: EncodedSignature)
        ensures
            s@ == self.spec_signature(),
    {
        match self {
            ViewSyncVote::PreCommit(vote_internal) => vote_internal.signature.1.clone(),
            ViewSyncVote::Commit(vote_internal) => vote_internal.signature.1.clone(),
            ViewSyncVote::Finalize(vote_internal) => vote_internal.signature.1.clone(),
        }
    }

    /// Get the voter's key in its encoded form.
    pub fn signature_key(&self) -> (k: EncodedPublicKey)
        ensures
            k@ == self.spec_key(),
    {
        match self {
            ViewSyncVote::PreCommit(vote_internal) => vote_internal.signature.0.clone(),
            ViewSyncVote::Commit(vote_internal) => vote_internal.signature.0.clone(),
            ViewSyncVote::Finalize(vote_internal) => vote_internal.signature.0.clone(),
        }
    }

    /// Get the relay.
    pub fn relay(&self) -> (r: u64)
        ensures
            r == self.spec_relay(),
    {
        match self {
            ViewSyncVote::PreCommit(vote_internal) => vote_internal.relay,
            ViewSyncVote::Commit(vote_internal) => vote_internal.relay,
            ViewSyncVote::Finalize(vote_internal) => vote_internal.relay,
        }
    }

    /// Get the round number.
    pub fn round(&self) -> (r: u64)
        ensures
            r == self.spec_view(),
    {
        match self {
            ViewSyncVote::PreCommit(vote_internal) => vote_internal.round,
            ViewSyncVote::Commit(vote_internal) => vote_internal.round,
            ViewSyncVote::Finalize(vote_internal) => vote_internal.round,
        }
    }

    /// The relay this vote is intended for.
    pub open spec fn spec_relay(&self) -> u64 {
        match self {
            ViewSyncVote::PreCommit(v) => v.relay,
            ViewSyncVote::Commit(v) => v.relay,
            ViewSyncVote::Finalize(v) => v.relay,
        }
    }
}

impl VoteType for ViewSyncVote {
    open spec fn spec_view(&self) -> u64 {
        match self {
            ViewSyncVote::PreCommit(v) => v.round,
            ViewSyncVote::Commit(v) => v.round,
            ViewSyncVote::Finalize(v) => v.round,
        }
    }

    open spec fn spec_key(&self) -> Seq<u8> {
        match self {
            ViewSyncVote::PreCommit(v) => v.signature.0@,
            ViewSyncVote::Commit(v) => v.signature.0@,
            ViewSyncVote::Finalize(v) => v.signature.0@,
        }
    }

    open spec fn spec_signature(&self) -> Seq<u8> {
        match self {
            ViewSyncVote::PreCommit(v) => v.signature.1@,
            ViewSyncVote::Commit(v) => v.signature.1@,
            ViewSyncVote::Finalize(v) => v.signature.1@,
        }
    }

    open spec fn spec_data(&self) -> VoteData<Seq<u8>> {
        match self {
            ViewSyncVote::PreCommit(v) => v.vote_data@,
            ViewSyncVote::Commit(v) => v.vote_data@,
            ViewSyncVote::Finalize(v) => v.vote_data@,
        }
    }

    open spec fn spec_count(&self) -> u64 {
        match self {
            ViewSyncVote::PreCommit(v) => v.vote_token.vote_count,
            ViewSyncVote::Commit(v) => v.vote_token.vote_count,
            ViewSyncVote::Finalize(v) => v.vote_token.vote_count,
        }
    }

    open spec fn data_ok(&self) -> bool {
        true
    }

    fn get_view(&self) -> u64 {
        self.round()
    }

    fn get_key(&self) -> EncodedPublicKey {
        self.signature_key()
    }

    fn get_signature(&self) -> EncodedSignature {
        self.signature()
    }

    fn get_data(&self) -> VoteData<Commitment> {
        match self {
            ViewSyncVote::PreCommit(vote_internal) => vote_internal.vote_data.clone(),
            ViewSyncVote::Commit(vote_internal) => vote_internal.vote_data.clone(),
            ViewSyncVote::Finalize(vote_internal) => vote_internal.vote_data.clone(),
        }
    }

    fn get_vote_token(&self) -> VoteToken {
        match self {
            ViewSyncVote::PreCommit(vote_internal) => vote_internal.vote_token.clone(),
            ViewSyncVote::Commit(vote_internal) => vote_internal.vote_token.clone(),
            ViewSyncVote::Finalize(vote_internal) => vote_internal.vote_token.clone(),
        }
    }
}

} // verus!
