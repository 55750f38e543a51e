//! Core data model: byte-encoded keys and signatures, commitments, vote
//! tokens, the vote-data tag, and assembled certificates.

use vstd::prelude::*;

verus! {

/// A public key in its canonical wire encoding.  The accumulators treat keys
/// as opaque byte strings and use them only as equality keys.
#[derive(Debug, PartialEq, Eq)]
pub struct EncodedPublicKey(pub Vec<u8>);

impl View for EncodedPublicKey {
    type V = Seq<u8>;

    open spec fn view(&self) -> Seq<u8> {
        self.0@
    }
}

/// A signature share in its wire encoding, as carried inside a vote.
#[derive(Debug, PartialEq, Eq)]
pub struct EncodedSignature(pub Vec<u8>);

impl View for EncodedSignature {
    type V = Seq<u8>;

    open spec fn view(&self) -> Seq<u8> {
        self.0@
    }
}

/// A fixed-size content hash of some payload, used as an equality key.  Votes
/// over byte-equal payloads share a commitment; votes whose commitments differ
/// are tallied independently.
#[derive(Debug, PartialEq, Eq)]
pub struct Commitment {
    pub bytes: Vec<u8>,
}

impl View for Commitment {
    type V = Seq<u8>;

    open spec fn view(&self) -> Seq<u8> {
        self.bytes@
    }
}

/// A per-vote proof of eligibility carrying the voter's effective stake for
/// this view.
#[derive(Debug, PartialEq, Eq)]
pub struct VoteToken {
    pub vote_count: u64,
}

impl VoteToken {
    /// The stake weight this token certifies.
    pub fn vote_count(&self) -> (c: u64)
        ensures
            c == self.vote_count,
    {
        self.vote_count
    }
}

/// Per-voter public material required by the threshold-signature scheme, in
/// the scheme's own encoding.  Opaque to the accumulators.
#[derive(Debug, PartialEq, Eq)]
pub struct StakeTableEntry(pub Vec<u8>);

impl View for StakeTableEntry {
    type V = Seq<u8>;

    open spec fn view(&self) -> Seq<u8> {
        self.0@
    }
}

/// A signature share in the pure form suitable for aggregation, produced by
/// the scheme's decoder.  Opaque to the accumulators.
#[derive(Debug, PartialEq, Eq)]
pub struct PureSignature(pub Vec<u8>);

impl View for PureSignature {
    type V = Seq<u8>;

    open spec fn view(&self) -> Seq<u8> {
        self.0@
    }
}

/// The scheme's public parameters for one committee and threshold, in the
/// scheme's own encoding.
#[derive(Debug, PartialEq, Eq)]
pub struct PublicParameter(pub Vec<u8>);

/// An aggregated threshold signature, in the scheme's own encoding.
#[derive(Debug, PartialEq, Eq)]
pub struct AggregateSignature(pub Vec<u8>);

/// Identifies what a vote is signed over: the certificate kind being pursued,
/// together with the commitment of the payload under vote.
#[derive(Debug, PartialEq, Eq)]
pub enum VoteData<C> {
    /// Vote for data availability of a block.
    DA(C),
    /// Positive vote on a leaf.
    Yes(C),
    /// Negative vote on a leaf.
    No(C),
    /// Timeout vote on a view.  Carried in the data model; no accumulator in
    /// this crate produces timeout certificates.
    Timeout(C),
    /// View-synchronization vote, pre-commit phase.
    ViewSyncPreCommit(C),
    /// View-synchronization vote, commit phase.
    ViewSyncCommit(C),
    /// View-synchronization vote, finalize phase.
    ViewSyncFinalize(C),
}

impl<C: View> View for VoteData<C> {
    type V = VoteData<C::V>;

    open spec fn view(&self) -> VoteData<C::V> {
        match self {
            VoteData::DA(c) => VoteData::DA(c@),
            VoteData::Yes(c) => VoteData::Yes(c@),
            VoteData::No(c) => VoteData::No(c@),
            VoteData::Timeout(c) => VoteData::Timeout(c@),
            VoteData::ViewSyncPreCommit(c) => VoteData::ViewSyncPreCommit(c@),
            VoteData::ViewSyncCommit(c) => VoteData::ViewSyncCommit(c@),
            VoteData::ViewSyncFinalize(c) => VoteData::ViewSyncFinalize(c@),
        }
    }
}

/// The kind of certificate an accumulator fired.
#[derive(Debug, Clone, Copy, PartialEq, Eq, Structural)]
pub enum CertKind {
    /// Data-availability certificate.
    Da,
    /// Validating quorum certificate, positive outcome.
    Yes,
    /// Validating quorum certificate, negative outcome.
    No,
    /// View-synchronization pre-commit certificate.
    ViewSyncPreCommit,
    /// View-synchronization commit certificate.
    ViewSyncCommit,
    /// View-synchronization finalize certificate.
    ViewSyncFinalize,
}

/// A terminal certificate payload: the aggregated threshold signature, tagged
/// with the outcome that reached its threshold.
#[derive(Debug, PartialEq, Eq)]
pub enum AssembledSignature {
    /// Data-availability certificate.
    DA(AggregateSignature),
    /// Quorum certificate with a Yes outcome.
    Yes(AggregateSignature),
    /// Quorum certificate with a No outcome.
    No(AggregateSignature),
    /// View-synchronization pre-commit certificate.
    ViewSyncPreCommit(AggregateSignature),
    /// View-synchronization commit certificate.
    ViewSyncCommit(AggregateSignature),
    /// View-synchronization finalize certificate.
    ViewSyncFinalize(AggregateSignature),
}

impl AssembledSignature {
    /// The certificate kind of this assembled signature.
    pub open spec fn spec_kind(&self) -> CertKind {
        match self {
            AssembledSignature::DA(_) => CertKind::Da,
            AssembledSignature::Yes(_) => CertKind::Yes,
            AssembledSignature::No(_) => CertKind::No,
            AssembledSignature::ViewSyncPreCommit(_) => CertKind::ViewSyncPreCommit,
            AssembledSignature::ViewSyncCommit(_) => CertKind::ViewSyncCommit,
            AssembledSignature::ViewSyncFinalize(_) => CertKind::ViewSyncFinalize,
        }
    }

    /// Returns which kind of certificate this is.
    pub fn kind(&self) -> (k: CertKind)
        ensures
            k == self.spec_kind(),
    {
        match self {
            AssembledSignature::DA(_) => CertKind::Da,
            AssembledSignature::Yes(_) => CertKind::Yes,
            AssembledSignature::No(_) => CertKind::No,
            AssembledSignature::ViewSyncPreCommit(_) => CertKind::ViewSyncPreCommit,
            AssembledSignature::ViewSyncCommit(_) => CertKind::ViewSyncCommit,
            AssembledSignature::ViewSyncFinalize(_) => CertKind::ViewSyncFinalize,
        }
    }
}

/// A quorum certificate: the assembled threshold signature over a leaf
/// commitment for one view.
#[derive(Debug, PartialEq, Eq)]
pub struct QuorumCertificate {
    /// Commitment of the leaf the certificate speaks about.
    pub leaf_commitment: Commitment,
    /// The view this certificate was formed in.
    pub view_number: u64,
    /// The assembled threshold signature backing the certificate.
    pub signatures: AssembledSignature,
    /// Whether this is the genesis certificate, which carries no real
    /// signature material.
    pub is_genesis: bool,
}

/// Copies a byte vector; the copy's contents equal the original's.
pub fn clone_bytes(v: &Vec<u8>) -> (r: Vec<u8>)
    ensures
        r@ == v@,
{
    let r = v.clone();
    proof {
        assert(r@ =~= v@);
    }
    r
}

/// Compares two byte vectors for equality of contents.
pub fn bytes_eq(a: &Vec<u8>, b: &Vec<u8>) -> (r: bool)
    ensures
        r == (a@ == b@),
{
    if a.len() != b.len() {
        proof {
            assert(a@ != b@);
        }
        return false;
    }
    let n = a.len();
    let mut i: usize = 0;
    while i < n
        invariant
            n == a@.len() == b@.len(),
            i <= n,
            forall|j: int| 0 <= j < i ==> a@[j] == b@[j],
        decreases n - i,
    {
        if a[i] != b[i] {
            proof {
                assert(a@ != b@);
            }
            return false;
        }
        i += 1;
    }
    proof {
        assert(a@ =~= b@);
    }
    true
}

impl Clone for EncodedPublicKey {
    /// The clone carries the same bytes.
    fn clone(&self) -> (r: Self)
        ensures
            r@ == self@,
    {
        EncodedPublicKey(clone_bytes(&self.0))
    }
}

impl Clone for EncodedSignature {
    /// The clone carries the same bytes.
    fn clone(&self) -> (r: Self)
        ensures
            r@ == self@,
    {
        EncodedSignature(clone_bytes(&self.0))
    }
}

impl Clone for Commitment {
    /// The clone carries the same bytes.
    fn clone(&self) -> (r: Self)
        ensures
            r@ == self@,
    {
        Commitment { bytes: clone_bytes(&self.bytes) }
    }
}

impl Clone for VoteToken {
    /// The clone carries the same stake weight.
    fn clone(&self) -> (r: Self)
        ensures
            r == *self,
    {
        VoteToken { vote_count: self.vote_count }
    }
}

impl Clone for StakeTableEntry {
    /// The clone carries the same bytes.
    fn clone(&self) -> (r: Self)
        ensures
            r@ == self@,
    {
        StakeTableEntry(clone_bytes(&self.0))
    }
}

impl Clone for PureSignature {
    /// The clone carries the same bytes.
    fn clone(&self) -> (r: Self)
        ensures
            r@ == self@,
    {
        PureSignature(clone_bytes(&self.0))
    }
}

impl Clone for VoteData<Commitment> {
    /// The clone's view equals the original's.
    fn clone(&self) -> (r: Self)
        ensures
            r@ == self@,
    {
        match self {
            VoteData::DA(c) => VoteData::DA(c.clone()),
            VoteData::Yes(c) => VoteData::Yes(c.clone()),
            VoteData::No(c) => VoteData::No(c.clone()),
            VoteData::Timeout(c) => VoteData::Timeout(c.clone()),
            VoteData::ViewSyncPreCommit(c) => VoteData::ViewSyncPreCommit(c.clone()),
            VoteData::ViewSyncCommit(c) => VoteData::ViewSyncCommit(c.clone()),
            VoteData::ViewSyncFinalize(c) => VoteData::ViewSyncFinalize(c.clone()),
        }
    }
}

} // verus!
