//! The per-validator state machine. A validator drives a sequence of
//! numbered views; in each view it either runs primary logic (collect
//! votes or new-views, build a certificate, propose) or non-primary logic
//! (await the proposal, validate it, vote, maybe commit by the three-chain
//! rule). The functions here are the decision core: they take the
//! validator's state and one incoming message and produce the new state
//! and the outgoing actions. Channels, timers and logging live with the
//! embedding host.

use vstd::prelude::*;

use crate::block::{Block, BlockV};
use crate::certificates::{
    spec_aggqc_valid, spec_find_high_qc, spec_happy_qcs, spec_qc_from_votes, spec_qc_valid,
    spec_supermajority, spec_aggqc_from_newviews, supermajority_count, AggQC, AggQcV,
    CertificateV, QcV, QuorumCertificate, QC,
};
use crate::crypto::{
    genesis_marker, public_key_bytes, sig_bytes_seq, signature_ok, sign_bytes, zero_key_bytes,
    PrivateKey, PublicKey, Signature,
};
use crate::encoding::{block_encodable, certificate_encodable, message_type_encodable};
use crate::message::{
    sign_for, spec_message_verified, MessageType, MessageTypeV, NewView, NewViewV, SignedMessage,
    SignedMessageV, Vote, VoteV,
};

use std::collections::VecDeque;

verus! {

/// A validator's identity: a display name, its key pair, and its
/// deterministic index in the cluster's agreed total order.
pub struct Identity {
    pub name: String,
    pub private_key: PrivateKey,
    pub public_key: PublicKey,
    /// Deterministic index agreed at bootstrap; any total order works
    /// provided every validator uses the same one.
    pub index: u64,
}

/// Whether an identity's public key is the one derived from its private
/// key.
pub open spec fn identity_wf(id: Identity) -> bool {
    id.public_key@ == public_key_bytes(id.private_key@)
}

/// Mathematical model of a [`ViewRecord`].
pub ghost struct ViewV {
    pub height: u64,
    pub leader: Seq<u8>,
    pub block: BlockV,
    pub blockhash: Seq<u8>,
}

/// A local record of an accepted proposal: the height it was accepted at,
/// the proposing leader, the block, and the proposal signature that serves
/// as the block's identifier.
#[derive(Debug)]
pub struct ViewRecord {
    pub height: u64,
    pub leader: PublicKey,
    pub block: Block,
    pub blockhash: Signature,
}

impl vstd::view::View for ViewRecord {
    type V = ViewV;

    open spec fn view(&self) -> ViewV {
        ViewV {
            height: self.height,
            leader: self.leader@,
            block: self.block@,
            blockhash: self.blockhash@,
        }
    }
}

impl Clone for ViewRecord {
    fn clone(&self) -> (r: ViewRecord)
        ensures
            r@ == self@,
    {
        ViewRecord {
            height: self.height,
            leader: self.leader.clone(),
            block: self.block.clone(),
            blockhash: self.blockhash.clone(),
        }
    }
}

/// The models of a sequence of view records.
pub open spec fn views_dv(s: Seq<ViewRecord>) -> Seq<ViewV> {
    Seq::new(s.len(), |i: int| s[i]@)
}

/// Mathematical model of [`Primary`].
pub ghost enum PrimaryV {
    OurTurn,
    Peer(Seq<u8>),
}

/// Who leads a view: this validator, or the peer with the given key.
#[derive(Debug)]
pub enum Primary {
    OurTurn,
    Peer(PublicKey),
}

impl vstd::view::View for Primary {
    type V = PrimaryV;

    open spec fn view(&self) -> PrimaryV {
        match self {
            Primary::OurTurn => PrimaryV::OurTurn,
            Primary::Peer(k) => PrimaryV::Peer(k@),
        }
    }
}

/// How a view handler came to return: a vote was dispatched, or the
/// view-local deadline elapsed first.
#[derive(Debug)]
pub enum ConsensusResult {
    Success,
    Timeout,
}

/// Per-validator state: identity, the ordered peer table (all other
/// validators, in cluster-index order), the full quorum (peers then self),
/// the one-slot buffer for a vote addressed to ourselves, the current
/// view, and the FIFO of accepted-but-not-yet-executed view records.
pub struct Endpoint {
    pub identity: Identity,
    pub peers: Vec<PublicKey>,
    pub quorum: Vec<PublicKey>,
    pub self_vote: Option<SignedMessage>,
    pub current_view: u64,
    pub recent_views: VecDeque<ViewRecord>,
}

impl Endpoint {
    /// Structural well-formedness: the quorum is the peer table followed
    /// by this validator's own key, and the validator's index addresses a
    /// quorum slot.
    pub open spec fn wf(self) -> bool {
        &&& self.quorum@.len() == self.peers@.len() + 1
        &&& forall|i: int| 0 <= i < self.peers@.len() ==> self.quorum@[i]@ == #[trigger] self.peers@[i]@
        &&& self.quorum@[self.peers@.len() as int]@ == self.identity.public_key@
        &&& self.identity.index < self.quorum@.len()
        &&& self.quorum@.len() <= u64::MAX
        &&& identity_wf(self.identity)
    }

    /// A fresh endpoint at genesis: view 0, no records, quorum assembled
    /// from the peer keys plus our own.
    pub fn new_genesis(identity: Identity, peers: Vec<PublicKey>) -> (r: Endpoint)
        requires
            identity.index < peers@.len() + 1,
            peers@.len() < u64::MAX,
            identity_wf(identity),
        ensures
            r.wf(),
            r.identity.public_key@ == identity.public_key@,
            r.identity.private_key@ == identity.private_key@,
            r.identity.index == identity.index,
            r.peers@.len() == peers@.len(),
            forall|i: int| 0 <= i < peers@.len() ==> r.peers@[i]@ == #[trigger] peers@[i]@,
            r.self_vote is None,
            r.current_view == 0,
            r.recent_views@.len() == 0,
    {
        let mut quorum: Vec<PublicKey> = Vec::new();
        let mut i: usize = 0;
        while i < peers.len()
            invariant
                i <= peers@.len(),
                quorum@.len() == i,
                forall|j: int| 0 <= j < i ==> quorum@[j]@ == #[trigger] peers@[j]@,
            decreases peers@.len() - i,
        {
            quorum.push(peers[i].clone());
            i += 1;
        }
        quorum.push(identity.public_key.clone());
        Endpoint {
            identity,
            peers,
            quorum,
            self_vote: None,
            current_view: 0,
            recent_views: VecDeque::new(),
        }
    }

    /// Size of the quorum.
    pub open spec fn spec_quorum_size(self) -> int {
        self.quorum@.len() as int
    }

    /// The leader of `view` under round-robin rotation: the validator
    /// whose cluster index is `view mod n`. The peer table holds the other
    /// validators in cluster-index order with our own slot skipped.
    pub open spec fn spec_primary_for_view(self, view: u64) -> PrimaryV {
        let idx = view as int % self.spec_quorum_size();
        if idx == self.identity.index as int {
            PrimaryV::OurTurn
        } else if idx < self.identity.index as int {
            PrimaryV::Peer(self.peers@[idx]@)
        } else {
            PrimaryV::Peer(self.peers@[idx - 1]@)
        }
    }

    /// Deterministic function that determines the primary from a view.
    pub fn primary_for_view(&self, view: u64) -> (r: Primary)
        requires
            self.wf(),
        ensures
            r@ == self.spec_primary_for_view(view),
    {
        let n = self.quorum.len() as u64;
        let primary_index = view % n;
        if primary_index == self.identity.index {
            Primary::OurTurn
        } else if primary_index < self.identity.index {
            Primary::Peer(self.peers[primary_index as usize].clone())
        } else {
            Primary::Peer(self.peers[(primary_index - 1) as usize].clone())
        }
    }

    /// Leader rotation is periodic: the leader of `v + n` is the leader of
    /// `v`, where `n` is the quorum size.
    pub proof fn lemma_primary_rotation_periodic(self, v: u64)
        requires
            self.wf(),
            v + self.spec_quorum_size() <= u64::MAX,
        ensures
            self.spec_primary_for_view((v + self.spec_quorum_size()) as u64)
                == self.spec_primary_for_view(v),
    {
        let n = self.spec_quorum_size();
        vstd::arithmetic::div_mod::lemma_mod_add_multiples_vanish(v as int, n);
        assert((v + n) as u64 as int % n == (n + v) % n);
    }

    /// With a single-validator quorum the sole validator leads every view.
    pub proof fn lemma_single_validator_always_leader(self, v: u64)
        requires
            self.wf(),
            self.spec_quorum_size() == 1,
        ensures
            self.spec_primary_for_view(v) == PrimaryV::OurTurn,
    {
        vstd::arithmetic::div_mod::lemma_mod_self_0(1);
        vstd::arithmetic::div_mod::lemma_small_mod(0, 1);
        assert(v as int % 1 == 0) by {
            vstd::arithmetic::div_mod::lemma_mod_breakdown(v as int, 1, 1);
        }
    }

    /// Whether `num` validators are strictly more than two thirds of the
    /// quorum.
    pub fn is_supermajority(&self, num: usize) -> (r: bool)
        ensures
            r == spec_supermajority(num as int, self.spec_quorum_size()),
    {
        supermajority_count(num, self.quorum.len())
    }

    /// Step to the next view. Views only ever grow, one at a time.
    pub fn advance_view(&mut self)
        requires
            old(self).current_view < u64::MAX,
        ensures
            final(self).current_view == old(self).current_view + 1,
            final(self).identity == old(self).identity,
            final(self).peers == old(self).peers,
            final(self).quorum == old(self).quorum,
            final(self).self_vote == old(self).self_vote,
            final(self).recent_views == old(self).recent_views,
    {
        self.current_view = self.current_view + 1;
    }
}

/// Mathematical model of a [`VoteBucket`].
pub ghost struct VoteBucketV {
    pub vote: VoteV,
    pub sigs: Seq<Seq<u8>>,
    pub signers: Seq<Seq<u8>>,
}

/// One tally group: a vote together with the signatures and deduplicated,
/// insertion-ordered signers collected for it. `sigs[i]` is `signers[i]`'s
/// signature.
#[derive(Debug)]
pub struct VoteBucket {
    pub vote: Vote,
    pub sigs: Vec<Signature>,
    pub signers: Vec<PublicKey>,
}

impl vstd::view::View for VoteBucket {
    type V = VoteBucketV;

    open spec fn view(&self) -> VoteBucketV {
        VoteBucketV {
            vote: self.vote@,
            sigs: self.sigs.deep_view(),
            signers: self.signers.deep_view(),
        }
    }
}

impl DeepView for VoteBucket {
    type V = VoteBucketV;

    open spec fn deep_view(&self) -> VoteBucketV {
        self@
    }
}

/// The index of the first bucket holding `v`, or -1 when none does.
pub open spec fn spec_bucket_index(votes: Seq<VoteBucketV>, v: VoteV) -> int
    decreases votes.len(),
{
    if votes.len() == 0 {
        -1
    } else if votes[0].vote == v {
        0
    } else {
        let rest = spec_bucket_index(votes.drop_first(), v);
        if rest == -1 {
            -1
        } else {
            rest + 1
        }
    }
}

/// How the tally changes when `signer`'s signature `sig` over `v` arrives:
/// a fresh bucket is opened for a vote not seen before; a repeated signer
/// changes nothing; otherwise the signature and signer are appended to the
/// vote's bucket.
pub open spec fn spec_insert_vote(
    votes: Seq<VoteBucketV>,
    v: VoteV,
    sig: Seq<u8>,
    signer: Seq<u8>,
) -> Seq<VoteBucketV> {
    let k = spec_bucket_index(votes, v);
    if k == -1 {
        votes.push(VoteBucketV { vote: v, sigs: seq![sig], signers: seq![signer] })
    } else if votes[k].signers.contains(signer) {
        votes
    } else {
        votes.update(
            k,
            VoteBucketV {
                vote: v,
                sigs: votes[k].sigs.push(sig),
                signers: votes[k].signers.push(signer),
            },
        )
    }
}

/// The index of the most-subscribed bucket: scanning in order, a bucket
/// replaces the running best only when its signer count is strictly
/// greater, starting from zero, so the earliest bucket among maxima wins
/// and a bucket needs at least one signer to be picked at all. -1 when no
/// bucket qualifies.
pub open spec fn spec_max_bucket(votes: Seq<VoteBucketV>) -> int
    decreases votes.len(),
{
    if votes.len() == 0 {
        -1
    } else {
        let prev = spec_max_bucket(votes.drop_last());
        if prev == -1 {
            if votes.last().signers.len() > 0 {
                votes.len() - 1
            } else {
                -1
            }
        } else {
            if votes.last().signers.len() > votes[prev].signers.len() {
                votes.len() - 1
            } else {
                prev
            }
        }
    }
}

/// A bucket index is either -1 or a position holding the vote searched
/// for, with no earlier position holding it.
pub proof fn lemma_bucket_index_spec(votes: Seq<VoteBucketV>, v: VoteV)
    ensures
        spec_bucket_index(votes, v) == -1 ==> forall|j: int|
            0 <= j < votes.len() ==> votes[j].vote != v,
        spec_bucket_index(votes, v) != -1 ==> {
            let k = spec_bucket_index(votes, v);
            &&& 0 <= k < votes.len()
            &&& votes[k].vote == v
            &&& forall|j: int| 0 <= j < k ==> votes[j].vote != v
        },
    decreases votes.len(),
{
    if votes.len() > 0 && votes[0].vote != v {
        lemma_bucket_index_spec(votes.drop_first(), v);
        let rest = spec_bucket_index(votes.drop_first(), v);
        if rest == -1 {
            assert forall|j: int| 0 <= j < votes.len() implies votes[j].vote != v by {
                if j > 0 {
                    assert(votes.drop_first()[j - 1] == votes[j]);
                }
            }
        } else {
            assert(votes.drop_first()[rest] == votes[rest + 1]);
            assert forall|j: int| 0 <= j < rest + 1 implies votes[j].vote != v by {
                if j > 0 {
                    assert(votes.drop_first()[j - 1] == votes[j]);
                }
            }
        }
    }
}

/// The first index found by a forward scan is the bucket index.
pub proof fn lemma_bucket_index_found(votes: Seq<VoteBucketV>, v: VoteV, i: int)
    requires
        0 <= i < votes.len(),
        votes[i].vote == v,
        forall|j: int| 0 <= j < i ==> votes[j].vote != v,
    ensures
        spec_bucket_index(votes, v) == i,
    decreases i,
{
    if i > 0 {
        assert(votes.drop_first()[i - 1] == votes[i]);
        assert forall|j: int| 0 <= j < i - 1 implies votes.drop_first()[j].vote != v by {
            assert(votes.drop_first()[j] == votes[j + 1]);
        }
        lemma_bucket_index_found(votes.drop_first(), v, i - 1);
    }
}

/// A forward scan that found no match means there is no bucket.
pub proof fn lemma_bucket_index_absent(votes: Seq<VoteBucketV>, v: VoteV)
    requires
        forall|j: int| 0 <= j < votes.len() ==> votes[j].vote != v,
    ensures
        spec_bucket_index(votes, v) == -1,
    decreases votes.len(),
{
    if votes.len() > 0 {
        assert forall|j: int| 0 <= j < votes.len() - 1 implies votes.drop_first()[j].vote != v by {
            assert(votes.drop_first()[j] == votes[j + 1]);
        }
        lemma_bucket_index_absent(votes.drop_first(), v);
    }
}

/// Inserting a vote for height `w` into a tally whose buckets all sit at
/// height `w` keeps every bucket at height `w`.
pub proof fn lemma_insert_vote_view_uniform(
    votes: Seq<VoteBucketV>,
    v: VoteV,
    sig: Seq<u8>,
    signer: Seq<u8>,
    w: u64,
)
    requires
        forall|j: int| 0 <= j < votes.len() ==> (#[trigger] votes[j]).vote.view == w,
        v.view == w,
    ensures
        forall|j: int|
            0 <= j < spec_insert_vote(votes, v, sig, signer).len() ==> (#[trigger] spec_insert_vote(
                votes,
                v,
                sig,
                signer,
            )[j]).vote.view == w,
{
    lemma_bucket_index_spec(votes, v);
}

/// Inserting a vote never shrinks a bucket and never drops one, and a
/// signer is recorded at most once per bucket: if the signers of every
/// bucket are distinct beforehand, they are distinct afterwards.
pub proof fn lemma_insert_vote_signers_distinct(
    votes: Seq<VoteBucketV>,
    v: VoteV,
    sig: Seq<u8>,
    signer: Seq<u8>,
)
    requires
        forall|j: int| 0 <= j < votes.len() ==> bucket_signers_distinct(#[trigger] votes[j]),
    ensures
        forall|j: int|
            0 <= j < spec_insert_vote(votes, v, sig, signer).len() ==> bucket_signers_distinct(
                #[trigger] spec_insert_vote(votes, v, sig, signer)[j],
            ),
{
    lemma_bucket_index_spec(votes, v);
    let out = spec_insert_vote(votes, v, sig, signer);
    let k = spec_bucket_index(votes, v);
    if k != -1 && !votes[k].signers.contains(signer) {
        let b2 = out[k];
        assert forall|x: int, y: int|
            0 <= x < y < b2.signers.len() implies b2.signers[x] != b2.signers[y] by {
            if y < b2.signers.len() - 1 {
                assert(bucket_signers_distinct(votes[k]));
            } else {
                assert(b2.signers[y] == signer);
                assert(votes[k].signers[x] == b2.signers[x]);
                assert(!votes[k].signers.contains(signer));
            }
        }
    }
}

/// No signer occurs twice in a bucket: a validator votes at most once per
/// vote group.
pub open spec fn bucket_signers_distinct(b: VoteBucketV) -> bool {
    forall|x: int, y: int| 0 <= x < y < b.signers.len() ==> b.signers[x] != b.signers[y]
}

/// Whether `key` occurs in `keys`, comparing by bytes.
pub fn key_in(keys: &Vec<PublicKey>, key: &PublicKey) -> (r: bool)
    ensures
        r == keys.deep_view().contains(key@),
{
    let ghost dv = keys.deep_view();
    let mut found = false;
    let mut i: usize = 0;
    while i < keys.len()
        invariant
            i <= keys@.len(),
            dv == keys.deep_view(),
            dv.len() == keys@.len(),
            forall|j: int| 0 <= j < keys@.len() ==> dv[j] == #[trigger] keys@[j]@,
            found ==> dv.contains(key@),
            !found ==> forall|j: int| 0 <= j < i ==> dv[j] != key@,
        decreases keys@.len() - i,
    {
        if keys[i] == *key {
            found = true;
            proof {
                assert(dv[i as int] == key@);
            }
        }
        i += 1;
    }
    found
}

/// Copy a list of new-view declarations.
pub fn clone_new_views(nvs: &Vec<NewView>) -> (r: Vec<NewView>)
    ensures
        r.deep_view() == nvs.deep_view(),
        r@.len() == nvs@.len(),
{
    let mut r: Vec<NewView> = Vec::new();
    let mut i: usize = 0;
    while i < nvs.len()
        invariant
            i <= nvs@.len(),
            r@.len() == i,
            forall|j: int| 0 <= j < i ==> r@[j]@ == nvs@[j]@,
        decreases nvs@.len() - i,
    {
        r.push(nvs[i].clone());
        i += 1;
    }
    proof {
        assert(r.deep_view() =~= nvs.deep_view());
    }
    r
}

/// The primary's per-view aggregation state: vote tally groups keyed by
/// the vote, and the new-view declarations with their signatures and
/// deduplicated, insertion-ordered signers (`new_view_sigs[i]` belongs to
/// `new_view_signers[i]`).
pub struct PrimaryCollector {
    pub votes: Vec<VoteBucket>,
    pub new_views: Vec<NewView>,
    pub new_view_sigs: Vec<Signature>,
    pub new_view_signers: Vec<PublicKey>,
}

impl PrimaryCollector {
    /// An empty tally.
    pub fn new() -> (r: PrimaryCollector)
        ensures
            r.votes.deep_view() == Seq::<VoteBucketV>::empty(),
            r.new_views.deep_view() == Seq::<NewViewV>::empty(),
            r.new_view_sigs.deep_view() == Seq::<Seq<u8>>::empty(),
            r.new_view_signers.deep_view() == Seq::<Seq<u8>>::empty(),
    {
        let r = PrimaryCollector {
            votes: Vec::new(),
            new_views: Vec::new(),
            new_view_sigs: Vec::new(),
            new_view_signers: Vec::new(),
        };
        proof {
            assert(r.votes.deep_view() =~= Seq::<VoteBucketV>::empty());
            assert(r.new_views.deep_view() =~= Seq::<NewViewV>::empty());
            assert(r.new_view_sigs.deep_view() =~= Seq::<Seq<u8>>::empty());
            assert(r.new_view_signers.deep_view() =~= Seq::<Seq<u8>>::empty());
        }
        r
    }

    /// Record `transmitter`'s signature over `vote`, grouping by the vote
    /// and deduplicating signers within a group.
    pub fn insert_vote(&mut self, vote: Vote, signature: Signature, transmitter: PublicKey)
        ensures
            final(self).votes.deep_view() == spec_insert_vote(
                old(self).votes.deep_view(),
                vote@,
                signature@,
                transmitter@,
            ),
            final(self).new_views == old(self).new_views,
            final(self).new_view_sigs == old(self).new_view_sigs,
            final(self).new_view_signers == old(self).new_view_signers,
    {
        let ghost votes0 = self.votes.deep_view();
        let mut k: usize = 0;
        let mut found = false;
        let mut i: usize = 0;
        while i < self.votes.len()
            invariant
                i <= self.votes@.len(),
                votes0 == self.votes.deep_view(),
                votes0.len() == self.votes@.len(),
                forall|j: int| 0 <= j < self.votes@.len() ==> votes0[j] == #[trigger] self.votes@[j]@,
                found ==> (k < i && votes0[k as int].vote == vote@ && forall|j: int|
                    0 <= j < k ==> votes0[j].vote != vote@),
                !found ==> forall|j: int| 0 <= j < i ==> votes0[j].vote != vote@,
            decreases self.votes@.len() - i,
    {
            if !found && self.votes[i].vote == vote {
                k = i;
                found = true;
                proof {
                    assert(votes0[i as int].vote == vote@);
                }
            }
            i += 1;
        }
        if !found {
            proof {
                lemma_bucket_index_absent(votes0, vote@);
            }
            let mut sigs: Vec<Signature> = Vec::new();
            sigs.push(signature);
            let mut signers: Vec<PublicKey> = Vec::new();
            signers.push(transmitter);
            self.votes.push(VoteBucket { vote, sigs, signers });
            proof {
                assert(self.votes@.last()@.sigs =~= seq![signature@]);
                assert(self.votes@.last()@.signers =~= seq![transmitter@]);
                assert(self.votes.deep_view() =~= spec_insert_vote(
                    votes0,
                    vote@,
                    signature@,
                    transmitter@,
                ));
            }
        } else {
            proof {
                lemma_bucket_index_found(votes0, vote@, k as int);
            }
            if key_in(&self.votes[k].signers, &transmitter) {
                proof {
                    assert(self.votes.deep_view() =~= spec_insert_vote(
                        votes0,
                        vote@,
                        signature@,
                        transmitter@,
                    ));
                }
            } else {
                let mut bucket = self.votes.remove(k);
                bucket.sigs.push(signature);
                bucket.signers.push(transmitter);
                self.votes.insert(k, bucket);
                proof {
                    assert(self.votes@[k as int]@.sigs =~= votes0[k as int].sigs.push(
                        signature@,
                    ));
                    assert(self.votes@[k as int]@.signers =~= votes0[k as int].signers.push(
                        transmitter@,
                    ));
                    assert(self.votes.deep_view() =~= spec_insert_vote(
                        votes0,
                        vote@,
                        signature@,
                        transmitter@,
                    ));
                }
            }
        }
    }

    /// The index of the most-subscribed vote bucket, if any bucket has a
    /// signer at all.
    pub fn max_bucket_index(&self) -> (r: Option<usize>)
        ensures
            match r {
                Some(k) => spec_max_bucket(self.votes.deep_view()) == k as int && k
                    < self.votes@.len(),
                None => spec_max_bucket(self.votes.deep_view()) == -1,
            },
    {
        let ghost dv = self.votes.deep_view();
        let mut best: Option<usize> = None;
        let mut high_count: usize = 0;
        let mut i: usize = 0;
        while i < self.votes.len()
            invariant
                i <= self.votes@.len(),
                dv == self.votes.deep_view(),
                dv.len() == self.votes@.len(),
                forall|j: int| 0 <= j < self.votes@.len() ==> dv[j] == #[trigger] self.votes@[j]@,
                match best {
                    Some(k) => spec_max_bucket(dv.take(i as int)) == k as int && (k as int) < i
                        as int && high_count == dv[k as int].signers.len() && high_count > 0,
                    None => spec_max_bucket(dv.take(i as int)) == -1 && high_count == 0,
                },
            decreases self.votes@.len() - i,
        {
            proof {
                assert(dv.take(i as int + 1).drop_last() =~= dv.take(i as int));
            }
            if self.votes[i].signers.len() > high_count {
                high_count = self.votes[i].signers.len();
                best = Some(i);
            }
            i += 1;
        }
        proof {
            assert(dv.take(dv.len() as int) =~= dv);
        }
        best
    }
}

/// What `primary_handle_message` guarantees when the incoming message is a
/// vote that passed the signature and membership gates.
pub open spec fn primary_vote_case(
    ep: Endpoint,
    c0: PrimaryCollector,
    c1: PrimaryCollector,
    m: SignedMessageV,
    v: VoteV,
    r: Option<QuorumCertificate>,
) -> bool {
    &&& c1.new_views == c0.new_views
    &&& c1.new_view_sigs == c0.new_view_sigs
    &&& c1.new_view_signers == c0.new_view_signers
    &&& if v.view != ep.current_view - 1 {
        c1.votes == c0.votes && r is None
    } else {
        let votes1 = spec_insert_vote(c0.votes.deep_view(), v, m.signature, m.transmitter);
        let k = spec_max_bucket(votes1);
        &&& c1.votes.deep_view() == votes1
        &&& if k != -1 && spec_supermajority(
            votes1[k].signers.len() as int,
            ep.spec_quorum_size(),
        ) {
            &&& (r is Some <==> (votes1[k].sigs.len() > 0 && forall|i: int|
                0 <= i < votes1[k].sigs.len() ==> signature_ok(#[trigger] votes1[k].sigs[i])))
            &&& r is Some ==> r->0@ == CertificateV::Happy(
                spec_qc_from_votes(
                    votes1[k].vote,
                    votes1[k].sigs,
                    votes1[k].signers,
                    ep.identity.private_key@,
                ),
            )
        } else {
            r is None
        }
    }
}

/// What `primary_handle_message` guarantees when the incoming message is a
/// new-view declaration that passed the signature and membership gates.
pub open spec fn primary_new_view_case(
    ep: Endpoint,
    c0: PrimaryCollector,
    c1: PrimaryCollector,
    m: SignedMessageV,
    nv: NewViewV,
    r: Option<QuorumCertificate>,
) -> bool {
    &&& c1.votes == c0.votes
    &&& if nv.view != ep.current_view {
        &&& c1.new_views == c0.new_views
        &&& c1.new_view_sigs == c0.new_view_sigs
        &&& c1.new_view_signers == c0.new_view_signers
        &&& r is None
    } else {
        let fresh = !c0.new_view_signers.deep_view().contains(m.transmitter);
        let nvs1 = if fresh {
            c0.new_views.deep_view().push(nv)
        } else {
            c0.new_views.deep_view()
        };
        let nvsigs1 = if fresh {
            c0.new_view_sigs.deep_view().push(m.signature)
        } else {
            c0.new_view_sigs.deep_view()
        };
        let nvsigners1 = if fresh {
            c0.new_view_signers.deep_view().push(m.transmitter)
        } else {
            c0.new_view_signers.deep_view()
        };
        &&& c1.new_views.deep_view() == nvs1
        &&& c1.new_view_sigs.deep_view() == nvsigs1
        &&& c1.new_view_signers.deep_view() == nvsigners1
        &&& if spec_supermajority(c1.new_view_sigs.deep_view().len() as int, ep.spec_quorum_size()) {
            &&& (r is Some <==> (c1.new_view_sigs.deep_view().len() > 0 && forall|i: int|
                0 <= i < c1.new_view_sigs.deep_view().len() ==> signature_ok(
                    #[trigger] c1.new_view_sigs.deep_view()[i],
                )))
            &&& r is Some ==> r->0@ == CertificateV::Sad(
                spec_aggqc_from_newviews(
                    c1.new_views.deep_view(),
                    c1.new_view_sigs.deep_view(),
                    c1.new_view_signers.deep_view(),
                    ep.identity.private_key@,
                ),
            )
        } else {
            r is None
        }
    }
}

impl Endpoint {
    /// Primary-side handling of one incoming message. A message that
    /// fails signature verification, or whose transmitter is not a known
    /// peer, is dropped with no effect. A vote for the previous view joins the tally; when
    /// the most-subscribed vote group reaches a supermajority a happy
    /// certificate is built from exactly that group. A new-view
    /// declaration for the current view joins the declaration list unless
    /// its sender already declared; when the declarations reach a
    /// supermajority a sad certificate is built from them. Block proposals
    /// are dropped: a primary never consumes proposals.
    #[verifier::rlimit(60)]
    #[verifier::spinoff_prover]
    pub fn primary_handle_message(
        &self,
        collector: &mut PrimaryCollector,
        msg: SignedMessage,
    ) -> (r: Option<QuorumCertificate>)
        requires
            self.wf(),
            self.current_view >= 2,
            message_type_encodable(msg.message_type@),
        ensures
            ({
                let dropped = !spec_message_verified(msg@) || !self.peers.deep_view().contains(
                    msg@.transmitter,
                );
                if dropped {
                    *final(collector) == *old(collector) && r is None
                } else {
                    match msg@.message_type {
                        MessageTypeV::Vote(v) => primary_vote_case(
                            *self,
                            *old(collector),
                            *final(collector),
                            msg@,
                            v,
                            r,
                        ),
                        MessageTypeV::NewView(nv) => primary_new_view_case(
                            *self,
                            *old(collector),
                            *final(collector),
                            msg@,
                            nv,
                            r,
                        ),
                        MessageTypeV::Block(_) => {
                            *final(collector) == *old(collector) && r is None
                        },
                    }
                }
            }),
    {
        if !msg.verify() {
            return None;
        }
        let SignedMessage { message_type, transmitter, signature } = msg;
        proof {
            assert(msg@.message_type == message_type@);
            assert(msg@.transmitter == transmitter@);
            assert(msg@.signature == signature@);
        }
        if !key_in(&self.peers, &transmitter) {
            return None;
        }
        match message_type {
            MessageType::Vote(v) => {
                if v.view != self.current_view - 1 {
                    return None;
                }
                collector.insert_vote(v, signature, transmitter);
                let k = match collector.max_bucket_index() {
                    Some(k) => k,
                    None => {
                        return None;
                    },
                };
                if !self.is_supermajority(collector.votes[k].signers.len()) {
                    return None;
                }
                let bucket_vote = collector.votes[k].vote.clone();
                let signers = crate::crypto::clone_keys(&collector.votes[k].signers);
                let r = QuorumCertificate::from_votes(
                    bucket_vote,
                    &collector.votes[k].sigs,
                    signers,
                    &self.identity.private_key,
                );
                proof {
                    let votes1 = collector.votes.deep_view();
                    let sigs_here = collector.votes@[k as int].sigs;
                    assert(sig_bytes_seq(sigs_here@) =~= votes1[k as int].sigs);
                    assert forall|i: int|
                        #![trigger votes1[k as int].sigs[i]]
                        #![trigger sigs_here@[i]]
                        0 <= i < votes1[k as int].sigs.len() implies (signature_ok(
                        votes1[k as int].sigs[i],
                    ) == signature_ok(sigs_here@[i]@)) by {
                        assert(votes1[k as int].sigs[i] == sigs_here@[i]@);
                    }
                    assert(primary_vote_case(*self, *old(collector), *collector, msg@, v@, r));
                }
                r
            },
            MessageType::NewView(eta) => {
                let ghost eta_v0 = eta@;
                if eta.view != self.current_view {
                    return None;
                }
                if !key_in(&collector.new_view_signers, &transmitter) {
                    let ghost nvs0 = collector.new_views.deep_view();
                    let ghost nvsigs0 = collector.new_view_sigs.deep_view();
                    let ghost nvsigners0 = collector.new_view_signers.deep_view();
                    let ghost eta_v = eta@;
                    collector.new_views.push(eta);
                    collector.new_view_sigs.push(signature);
                    collector.new_view_signers.push(transmitter);
                    proof {
                        assert(collector.new_views.deep_view() =~= nvs0.push(eta_v));
                        assert(collector.new_view_sigs.deep_view() =~= nvsigs0.push(signature@));
                        assert(collector.new_view_signers.deep_view() =~= nvsigners0.push(
                            transmitter@,
                        ));
                    }
                }
                if !self.is_supermajority(collector.new_view_sigs.len()) {
                    proof {
                        assert(collector.new_view_sigs.deep_view().len()
                            == collector.new_view_sigs@.len());
                        assert(!spec_supermajority(
                            collector.new_view_sigs.deep_view().len() as int,
                            self.spec_quorum_size(),
                        ));
                    }
                    return None;
                }
                let etas = clone_new_views(&collector.new_views);
                let sigs = crate::crypto::clone_sigs(&collector.new_view_sigs);
                let signers = crate::crypto::clone_keys(&collector.new_view_signers);
                let ghost sigs_v = sigs@;
                let r = QuorumCertificate::from_newviews(
                    etas,
                    sigs,
                    signers,
                    &self.identity.private_key,
                );
                proof {
                    let nvsigs1 = collector.new_view_sigs.deep_view();
                    assert(sig_bytes_seq(sigs_v) =~= nvsigs1);
                    assert forall|i: int|
                        #![trigger nvsigs1[i]]
                        #![trigger sigs_v[i]]
                        0 <= i < nvsigs1.len() implies (signature_ok(nvsigs1[i]) == signature_ok(
                        sigs_v[i]@,
                    )) by {
                        assert(nvsigs1[i] == sigs_v[i]@);
                    }
                    assert(r is Some <==> (nvsigs1.len() > 0 && forall|i: int|
                        0 <= i < nvsigs1.len() ==> signature_ok(#[trigger] nvsigs1[i])));
                    assert(r is Some ==> r->0@ == CertificateV::Sad(
                        spec_aggqc_from_newviews(
                            collector.new_views.deep_view(),
                            nvsigs1,
                            collector.new_view_signers.deep_view(),
                            self.identity.private_key@,
                        ),
                    ));
                    assert(primary_new_view_case(
                        *self,
                        *old(collector),
                        *collector,
                        msg@,
                        eta_v0,
                        r,
                    ));
                }
                r
            },
            MessageType::Block(_) => None,
        }
    }

    /// The parent blockhash a proposal built now would chain to: the
    /// blockhash of the most recent view record, or the genesis marker
    /// when there is none.
    pub open spec fn spec_parent_blockhash(self) -> Seq<u8> {
        if self.recent_views@.len() == 0 {
            sign_bytes(zero_key_bytes(), Seq::<u8>::empty())
        } else {
            self.recent_views@.last()@.blockhash
        }
    }

    /// Build and sign this view's proposal around `certificate`, record it
    /// locally, and hand the signed block message back for broadcast. The
    /// proposal carries no transactions, the current view, and chains to
    /// the latest recorded blockhash (or the genesis marker when nothing
    /// is recorded yet).
    pub fn primary_propose(&mut self, certificate: QuorumCertificate) -> (r: SignedMessage)
        requires
            old(self).wf(),
            certificate_encodable(certificate@),
        ensures
            ({
                let b = BlockV {
                    transactions: Seq::empty(),
                    certificate: certificate@,
                    last_blockhash: old(self).spec_parent_blockhash(),
                    view: old(self).current_view,
                };
                &&& r.message_type@ == MessageTypeV::Block(b)
                &&& r.transmitter@ == old(self).identity.public_key@
                &&& r.signature@ == sign_for(
                    old(self).identity.private_key@,
                    MessageTypeV::Block(b),
                )
                &&& old(self).identity.public_key@ != crate::crypto::g1_identity_bytes()
                    ==> spec_message_verified(r@)
                &&& views_dv(final(self).recent_views@) == views_dv(old(self).recent_views@).push(
                    ViewV {
                        height: old(self).current_view,
                        leader: old(self).identity.public_key@,
                        block: b,
                        blockhash: r.signature@,
                    },
                )
                &&& final(self).identity == old(self).identity
                &&& final(self).peers == old(self).peers
                &&& final(self).quorum == old(self).quorum
                &&& final(self).self_vote == old(self).self_vote
                &&& final(self).current_view == old(self).current_view
            }),
            (views_monotone(views_dv(old(self).recent_views@)) && (old(
                self,
            ).recent_views@.len() > 0 ==> views_dv(old(self).recent_views@).last().height < old(
                self,
            ).current_view)) ==> views_monotone(views_dv(final(self).recent_views@)),
    {
        let last_blockhash = if self.recent_views.len() == 0 {
            genesis_marker()
        } else {
            self.recent_views[self.recent_views.len() - 1].blockhash.clone()
        };
        let block = Block {
            transactions: Vec::new(),
            certificate,
            last_blockhash,
            view: self.current_view,
        };
        proof {
            assert(block@.transactions =~= Seq::<crate::transaction::TransactionV>::empty());
        }
        let block_message = SignedMessage::block(block.clone(), &self.identity.private_key);
        self.recent_views.push_back(
            ViewRecord {
                height: self.current_view,
                leader: self.identity.public_key.clone(),
                block,
                blockhash: block_message.signature.clone(),
            },
        );
        proof {
            assert(views_dv(self.recent_views@) =~= views_dv(old(self).recent_views@).push(
                self.recent_views@.last()@,
            ));
            let views0 = views_dv(old(self).recent_views@);
            let rec = self.recent_views@.last()@;
            if views_monotone(views0) && (views0.len() > 0 ==> views0.last().height
                < rec.height) {
                lemma_recent_views_monotone(views0, rec, 0);
                assert(views_dv(self.recent_views@) =~= views0.push(rec).skip(0));
            }
        }
        block_message
    }

    /// Move the stashed self-addressed vote, if any, into a fresh tally:
    /// the seed for a primary that led the previous view too. The stash is
    /// emptied either way; a stashed message that is not a vote is
    /// discarded.
    pub fn begin_primary_collection(&mut self) -> (r: PrimaryCollector)
        ensures
            final(self).self_vote is None,
            final(self).identity == old(self).identity,
            final(self).peers == old(self).peers,
            final(self).quorum == old(self).quorum,
            final(self).current_view == old(self).current_view,
            final(self).recent_views == old(self).recent_views,
            r.votes.deep_view() == (match old(self).self_vote {
                Some(m) => match m.message_type@ {
                    MessageTypeV::Vote(v) => spec_insert_vote(
                        Seq::<VoteBucketV>::empty(),
                        v,
                        m.signature@,
                        m.transmitter@,
                    ),
                    _ => Seq::<VoteBucketV>::empty(),
                },
                None => Seq::<VoteBucketV>::empty(),
            }),
            r.new_views.deep_view() == Seq::<NewViewV>::empty(),
            r.new_view_sigs.deep_view() == Seq::<Seq<u8>>::empty(),
            r.new_view_signers.deep_view() == Seq::<Seq<u8>>::empty(),
    {
        let mut collector = PrimaryCollector::new();
        match self.self_vote.take() {
            Some(m) => {
                match m.message_type {
                    MessageType::Vote(v) => {
                        collector.insert_vote(v, m.signature, m.transmitter);
                    },
                    _ => {},
                }
            },
            None => {},
        }
        collector
    }
}

/// A happy proposal in view `v` must not be stale and must directly
/// follow the block its certificate points to.
pub open spec fn spec_pipeline_safe_block_qc(b: BlockV, qc: QcV, current_view: u64) -> bool {
    b.view >= current_view && b.view == qc.vote.view + 1
}

/// A sad (recovery) proposal must not be stale and must extend the
/// highest certified block known at recovery time; a certificate without
/// a high QC justifies nothing.
pub open spec fn spec_pipeline_safe_block_aggqc(b: BlockV, a: AggQcV, current_view: u64) -> bool {
    &&& b.view >= current_view
    &&& match spec_find_high_qc(a.qcs) {
        Some(h) => b.last_blockhash == h.vote.blockhash,
        None => false,
    }
}

/// The happy-path pipeline safety predicate.
pub fn pipeline_safe_block_qc(block: &Block, qc: &QC, current_view: u64) -> (r: bool)
    ensures
        r == spec_pipeline_safe_block_qc(block@, qc@, current_view),
{
    if block.view < current_view {
        return false;
    }
    if qc.vote.view == u64::MAX {
        return false;
    }
    block.view == qc.vote.view + 1
}

/// The sad-path pipeline safety predicate.
pub fn pipeline_safe_block_aggqc(block: &Block, aggqc: &AggQC, current_view: u64) -> (r: bool)
    ensures
        r == spec_pipeline_safe_block_aggqc(block@, aggqc@, current_view),
{
    if block.view < current_view {
        return false;
    }
    match aggqc.find_high_qc() {
        Some(h) => block.last_blockhash == h.vote.blockhash,
        None => false,
    }
}

/// The three-chain commit test: the latest record chains directly to its
/// parent, and the parent to its grandparent.
pub open spec fn spec_three_chain(views: Seq<ViewV>) -> bool {
    &&& views.len() >= 3
    &&& views[views.len() - 1].block.last_blockhash == views[views.len() - 2].blockhash
    &&& views[views.len() - 2].block.last_blockhash == views[views.len() - 3].blockhash
}

/// The first position whose record carries blockhash `h`, or -1.
pub open spec fn spec_first_hash_index(views: Seq<ViewV>, h: Seq<u8>) -> int
    decreases views.len(),
{
    if views.len() == 0 {
        -1
    } else if views[0].blockhash == h {
        0
    } else {
        let rest = spec_first_hash_index(views.drop_first(), h);
        if rest == -1 {
            -1
        } else {
            rest + 1
        }
    }
}

/// A first hash index is either -1 or a position within the sequence.
pub proof fn lemma_first_hash_index_bounds(views: Seq<ViewV>, h: Seq<u8>)
    ensures
        -1 <= spec_first_hash_index(views, h) < views.len(),
    decreases views.len(),
{
    if views.len() > 0 && views[0].blockhash != h {
        lemma_first_hash_index_bounds(views.drop_first(), h);
    }
}

/// The first position found by a forward scan is the first hash index.
pub proof fn lemma_first_hash_index_found(views: Seq<ViewV>, h: Seq<u8>, i: int)
    requires
        0 <= i < views.len(),
        views[i].blockhash == h,
        forall|j: int| 0 <= j < i ==> views[j].blockhash != h,
    ensures
        spec_first_hash_index(views, h) == i,
    decreases i,
{
    if i > 0 {
        assert(views.drop_first()[i - 1] == views[i]);
        assert forall|j: int| 0 <= j < i - 1 implies views.drop_first()[j].blockhash != h by {
            assert(views.drop_first()[j] == views[j + 1]);
        }
        lemma_first_hash_index_found(views.drop_first(), h, i - 1);
    }
}

/// Whether a proposal is acceptable in the endpoint's current view: it
/// must verify, be a block, and its certificate must justify it — the
/// genesis certificate only in the first view, a happy certificate only
/// when valid against the quorum and pipeline-safe, a sad certificate
/// only when valid and extending its high QC's block.
pub open spec fn spec_accepts_proposal(ep: Endpoint, m: SignedMessageV) -> bool {
    &&& spec_message_verified(m)
    &&& match m.message_type {
        MessageTypeV::Block(b) => match b.certificate {
            CertificateV::Genesis => ep.current_view == 1,
            CertificateV::Happy(qc) => spec_qc_valid(qc, ep.quorum.deep_view())
                && spec_pipeline_safe_block_qc(b, qc, ep.current_view),
            CertificateV::Sad(a) => spec_aggqc_valid(a, ep.quorum.deep_view())
                && spec_pipeline_safe_block_aggqc(b, a, ep.current_view),
        },
        _ => false,
    }
}

/// Mathematical model of a [`ProposalOutcome`].
pub ghost enum ProposalOutcomeV {
    Ignored,
    Voted { send: Option<(Seq<u8>, SignedMessageV)>, committed: Seq<ViewV> },
}

/// What handling one message from the expected primary produced: nothing
/// (the proposal was absent, unverifiable or unsafe and the validator
/// keeps waiting), or a vote — either stashed for ourselves or addressed
/// to the next leader — together with the records committed by the
/// three-chain rule, in execution order.
#[derive(Debug)]
pub enum ProposalOutcome {
    Ignored,
    Voted { send: Option<(PublicKey, SignedMessage)>, committed: Vec<ViewRecord> },
}

impl vstd::view::View for ProposalOutcome {
    type V = ProposalOutcomeV;

    open spec fn view(&self) -> ProposalOutcomeV {
        match self {
            ProposalOutcome::Ignored => ProposalOutcomeV::Ignored,
            ProposalOutcome::Voted { send, committed } => ProposalOutcomeV::Voted {
                send: match send {
                    Some((k, m)) => Some((k@, m@)),
                    None => None,
                },
                committed: views_dv(committed@),
            },
        }
    }
}

/// What `nonprimary_handle_message` guarantees when the proposal is
/// accepted: the record of the accepted block is appended; a vote for the
/// current view on the block's parent hash is produced and routed to the
/// next view's leader (stashed when that is ourselves); and when the
/// newly appended record completes a three-chain, the front of the queue
/// is executed up to and including the first record carrying the
/// grandparent's blockhash.
pub open spec fn nonprimary_accept_case(
    ep0: Endpoint,
    ep1: Endpoint,
    m: SignedMessageV,
    b: BlockV,
    r: ProposalOutcomeV,
) -> bool {
    let pushed = views_dv(ep0.recent_views@).push(
        ViewV { height: b.view, leader: m.transmitter, block: b, blockhash: m.signature },
    );
    let vote = VoteV { view: ep0.current_view, blockhash: b.last_blockhash };
    let vmsg = SignedMessageV {
        message_type: MessageTypeV::Vote(vote),
        transmitter: ep0.identity.public_key@,
        signature: sign_for(ep0.identity.private_key@, MessageTypeV::Vote(vote)),
    };
    &&& ep1.identity == ep0.identity
    &&& ep1.peers == ep0.peers
    &&& ep1.quorum == ep0.quorum
    &&& ep1.current_view == ep0.current_view
    &&& match ep0.spec_primary_for_view((ep0.current_view + 1) as u64) {
        PrimaryV::OurTurn => {
            &&& ep1.self_vote matches Some(sv) && sv@ == vmsg
            &&& r matches ProposalOutcomeV::Voted { send, committed } && send is None
        },
        PrimaryV::Peer(p) => {
            &&& ep1.self_vote == ep0.self_vote
            &&& r matches ProposalOutcomeV::Voted { send, committed } && send matches Some(
                (k, sent),
            ) && k == p && sent == vmsg
        },
    }
    &&& if spec_three_chain(pushed) {
        let g = pushed[pushed.len() - 3].blockhash;
        let cut = spec_first_hash_index(pushed, g) + 1;
        &&& views_dv(ep1.recent_views@) == pushed.skip(cut)
        &&& r matches ProposalOutcomeV::Voted { send, committed } && committed == pushed.take(cut)
    } else {
        &&& views_dv(ep1.recent_views@) == pushed
        &&& r matches ProposalOutcomeV::Voted { send, committed } && committed
            == Seq::<ViewV>::empty()
    }
}

impl Endpoint {
    /// Non-primary handling of one message while awaiting the view's
    /// proposal. A message that fails verification, is not a block, or
    /// whose certificate does not justify it is ignored and the validator
    /// keeps waiting. An acceptable proposal is recorded, voted on — the
    /// vote goes to the next view's leader, or into the self-vote slot
    /// when that is ourselves — and may commit a prefix of the record
    /// queue by the three-chain rule.
    #[verifier::rlimit(60)]
    #[verifier::spinoff_prover]
    pub fn nonprimary_handle_message(&mut self, msg: SignedMessage) -> (r: ProposalOutcome)
        requires
            old(self).wf(),
            old(self).current_view < u64::MAX,
            message_type_encodable(msg.message_type@),
        ensures
            !spec_accepts_proposal(*old(self), msg@) ==> (*final(self) == *old(self)
                && r@ is Ignored),
            spec_accepts_proposal(*old(self), msg@) ==> (msg@.message_type matches
                MessageTypeV::Block(b) && nonprimary_accept_case(
                *old(self),
                *final(self),
                msg@,
                b,
                r@,
            )),
            (match msg@.message_type {
                MessageTypeV::Block(b) => (spec_accepts_proposal(*old(self), msg@)
                    && views_monotone(views_dv(old(self).recent_views@)) && (old(
                    self,
                ).recent_views@.len() > 0 ==> views_dv(old(self).recent_views@).last().height
                    < b.view)) ==> views_monotone(views_dv(final(self).recent_views@)),
                _ => true,
            }),
            !spec_accepts_proposal(*old(self), msg@) ==> (views_monotone(
                views_dv(old(self).recent_views@),
            ) ==> views_monotone(views_dv(final(self).recent_views@))),
            final(self).wf(),
    {
        if !msg.verify() {
            return ProposalOutcome::Ignored;
        }
        let SignedMessage { message_type, transmitter, signature } = msg;
        proof {
            assert(msg@.message_type == message_type@);
            assert(msg@.transmitter == transmitter@);
            assert(msg@.signature == signature@);
        }
        let block = match message_type {
            MessageType::Block(b) => b,
            _ => {
                return ProposalOutcome::Ignored;
            },
        };
        let acceptable = match &block.certificate {
            QuorumCertificate::Genesis => self.current_view == 1,
            QuorumCertificate::Happy(qc) => qc.valid(&self.quorum) && pipeline_safe_block_qc(
                &block,
                qc,
                self.current_view,
            ),
            QuorumCertificate::Sad(aggqc) => aggqc.valid(&self.quorum)
                && pipeline_safe_block_aggqc(&block, aggqc, self.current_view),
        };
        if !acceptable {
            return ProposalOutcome::Ignored;
        }
        let vote = Vote {
            view: self.current_view,
            blockhash: block.last_blockhash.clone(),
        };
        let signed_vote = SignedMessage::vote(vote, &self.identity.private_key);
        let record = ViewRecord {
            height: block.view,
            leader: transmitter,
            block,
            blockhash: signature,
        };
        self.recent_views.push_back(record);
        let ghost pushed = views_dv(self.recent_views@);
        proof {
            assert(pushed =~= views_dv(old(self).recent_views@).push(
                self.recent_views@.last()@,
            ));
        }
        let send: Option<(PublicKey, SignedMessage)> = match self.primary_for_view(
            self.current_view + 1,
        ) {
            Primary::OurTurn => {
                self.self_vote = Some(signed_vote);
                None
            },
            Primary::Peer(next_primary) => Some((next_primary, signed_vote)),
        };
        let committed = self.commit_three_chain();
        proof {
            let views0 = views_dv(old(self).recent_views@);
            let rec = pushed.last();
            if views_monotone(views0) && (views0.len() > 0 ==> views0.last().height
                < rec.height) {
                if spec_three_chain(pushed) {
                    let g = pushed[pushed.len() - 3].blockhash;
                    lemma_first_hash_index_bounds(pushed, g);
                    lemma_recent_views_monotone(views0, rec, spec_first_hash_index(pushed, g) + 1);
                } else {
                    lemma_recent_views_monotone(views0, rec, 0);
                }
            }
        }
        ProposalOutcome::Voted { send, committed }
    }

    /// Apply the three-chain commit rule to the record queue: when the
    /// latest record chains to its parent and that parent to its
    /// grandparent, pop and return the records from the front up to and
    /// including the first one carrying the grandparent's blockhash;
    /// otherwise nothing commits.
    pub fn commit_three_chain(&mut self) -> (committed: Vec<ViewRecord>)
        ensures
            final(self).identity == old(self).identity,
            final(self).peers == old(self).peers,
            final(self).quorum == old(self).quorum,
            final(self).self_vote == old(self).self_vote,
            final(self).current_view == old(self).current_view,
            ({
                let views = views_dv(old(self).recent_views@);
                if spec_three_chain(views) {
                    let cut = spec_first_hash_index(views, views[views.len() - 3].blockhash) + 1;
                    &&& views_dv(final(self).recent_views@) == views.skip(cut)
                    &&& views_dv(committed@) == views.take(cut)
                } else {
                    &&& views_dv(final(self).recent_views@) == views
                    &&& views_dv(committed@) == Seq::<ViewV>::empty()
                }
            }),
    {
        let ghost views = views_dv(self.recent_views@);
        let len = self.recent_views.len();
        let three_chain = if len < 3 {
            false
        } else {
            let direct_parent = self.recent_views[len - 1].block.last_blockhash
                == self.recent_views[len - 2].blockhash;
            let direct_grandparent = self.recent_views[len - 2].block.last_blockhash
                == self.recent_views[len - 3].blockhash;
            direct_parent && direct_grandparent
        };
        if !three_chain {
            let committed: Vec<ViewRecord> = Vec::new();
            proof {
                assert(views_dv(self.recent_views@) =~= views);
                assert(views_dv(committed@) =~= Seq::<ViewV>::empty());
            }
            return committed;
        }
        let grandparent = self.recent_views[len - 3].blockhash.clone();
        let mut k: usize = 0;
        let mut found = false;
        let mut i: usize = 0;
        while i < len
            invariant
                i <= len,
                len == self.recent_views@.len(),
                views == views_dv(self.recent_views@),
                views.len() == len,
                grandparent@ == views[len - 3].blockhash,
                len >= 3,
                found ==> (k < i && views[k as int].blockhash == grandparent@ && forall|j: int|
                    0 <= j < k ==> views[j].blockhash != grandparent@),
                !found ==> forall|j: int| 0 <= j < i ==> views[j].blockhash != grandparent@,
            decreases len - i,
        {
            if !found && self.recent_views[i].blockhash == grandparent {
                k = i;
                found = true;
                proof {
                    assert(views[i as int].blockhash == grandparent@);
                }
            }
            i += 1;
        }
        proof {
            if !found {
                assert(views[len - 3].blockhash == grandparent@);
                assert(false);
            }
            lemma_first_hash_index_found(views, grandparent@, k as int);
        }
        let cut: usize = k + 1;
        let mut committed: Vec<ViewRecord> = Vec::new();
        let mut popped: usize = 0;
        while popped < cut
            invariant
                popped <= cut,
                cut == k + 1,
                k < views.len(),
                views_dv(committed@) =~= views.take(popped as int),
                views_dv(self.recent_views@) =~= views.skip(popped as int),
                self.identity == old(self).identity,
                self.peers == old(self).peers,
                self.quorum == old(self).quorum,
                self.self_vote == old(self).self_vote,
                self.current_view == old(self).current_view,
            decreases cut - popped,
        {
            proof {
                assert(views.skip(popped as int).len() == views.len() - popped);
            }
            let ghost before = self.recent_views@;
            let record = match self.recent_views.pop_front() {
                Some(rec) => rec,
                None => {
                    proof {
                        assert(false);
                    }
                    unreached()
                },
            };
            proof {
                assert(record@ == views_dv(before)[0]);
                assert(record@ == views[popped as int]);
                assert(views_dv(self.recent_views@) =~= views_dv(before).drop_first());
                assert(views_dv(before).drop_first() =~= views.skip(popped as int + 1));
            }
            let ghost comm0 = committed@;
            let ghost rec_v = record@;
            proof {
                assert(views_dv(comm0).len() == comm0.len());
                assert(comm0.len() == popped as int);
            }
            committed.push(record);
            proof {
                assert(committed@ == comm0.push(committed@[popped as int]));
                assert(committed@.len() == popped + 1);
                assert forall|j: int|
                    0 <= j <= popped implies views_dv(committed@)[j] == views.take(
                    popped as int + 1,
                )[j] by {
                    if j < popped {
                        assert(committed@[j] == comm0[j]);
                        assert(views_dv(comm0)[j] == views.take(popped as int)[j]);
                    } else {
                        assert(committed@[j]@ == rec_v);
                    }
                }
                assert(views_dv(committed@) =~= views.take(popped as int + 1));
            }
            popped += 1;
        }
        proof {
            assert(views_dv(committed@) =~= views.take(k as int + 1));
            assert(views_dv(self.recent_views@) =~= views.skip(k as int + 1));
        }
        committed
    }
}

/// Heights strictly increase along the record queue.
pub open spec fn views_monotone(views: Seq<ViewV>) -> bool {
    forall|i: int, j: int| 0 <= i < j < views.len() ==> views[i].height < views[j].height
}

/// Appending a record above the last height, then committing a prefix,
/// keeps the record queue height-monotone. This is the shape of every
/// queue update the handlers make; a proposal whose view does not exceed
/// the last recorded height is outside it.
pub proof fn lemma_recent_views_monotone(views: Seq<ViewV>, rec: ViewV, cut: int)
    requires
        views_monotone(views),
        views.len() > 0 ==> views[views.len() - 1].height < rec.height,
        0 <= cut <= views.len() + 1,
    ensures
        views_monotone(views.push(rec)),
        views_monotone(views.push(rec).skip(cut)),
{
    let pushed = views.push(rec);
    assert forall|i: int, j: int|
        0 <= i < j < pushed.len() implies pushed[i].height < pushed[j].height by {
        if j < views.len() {
            assert(views[i].height < views[j].height);
        } else {
            if i < views.len() - 1 {
                assert(views[i].height < views[views.len() - 1].height);
            }
        }
    }
    assert forall|i: int, j: int|
        0 <= i < j < pushed.skip(cut).len() implies pushed.skip(cut)[i].height < pushed.skip(
        cut,
    )[j].height by {
        assert(pushed.skip(cut)[i] == pushed[i + cut]);
        assert(pushed.skip(cut)[j] == pushed[j + cut]);
    }
}

/// On the happy path, the certificate a primary builds in view `v` wraps
/// the previous view's vote: when every tally bucket sits at height
/// `v - 1` — which holds whenever only votes for `v - 1` were inserted —
/// the built certificate's vote view is `v - 1`.
pub proof fn lemma_happy_certificate_previous_view(
    votes: Seq<VoteBucketV>,
    sk: Seq<u8>,
    v: u64,
)
    requires
        v >= 1,
        forall|j: int| 0 <= j < votes.len() ==> (#[trigger] votes[j]).vote.view == v - 1,
        0 <= spec_max_bucket(votes) < votes.len(),
    ensures
        spec_qc_from_votes(
            votes[spec_max_bucket(votes)].vote,
            votes[spec_max_bucket(votes)].sigs,
            votes[spec_max_bucket(votes)].signers,
            sk,
        ).vote.view == v - 1,
{
}

/// The most-subscribed bucket index is in range whenever it exists.
pub proof fn lemma_max_bucket_in_range(votes: Seq<VoteBucketV>)
    ensures
        spec_max_bucket(votes) == -1 || (0 <= spec_max_bucket(votes) < votes.len()
            && votes[spec_max_bucket(votes)].signers.len() > 0),
    decreases votes.len(),
{
    if votes.len() > 0 {
        lemma_max_bucket_in_range(votes.drop_last());
        let prev = spec_max_bucket(votes.drop_last());
        if prev != -1 {
            assert(votes.drop_last()[prev] == votes[prev]);
        }
    }
}

} // verus!
