//! The certificate algebra: happy certificates built from a supermajority
//! of identical votes, sad certificates built from a supermajority of
//! new-view declarations, and the genesis certificate. Validation checks
//! a certificate against the fixed quorum.

use vstd::prelude::*;

use crate::crypto::{
    aggregate_bytes, bls_verified, clone_bytes, public_key_bytes, sig_bytes_seq, signature_ok,
    sign_bytes, PrivateKey, PublicKey, Signature,
};
use crate::encoding::{
    encode_message_type, push_bytes, push_u32, qc_encodable, spec_encode_message_type,
    spec_key_prefixed_sig,
};
use crate::message::{MessageType, MessageTypeV, NewView, NewViewV, Vote, VoteV};

verus! {

/// Mathematical model of a [`QC`].
pub ghost struct QcV {
    pub vote: VoteV,
    pub aggregated_signature: Seq<u8>,
    pub signers: Seq<Seq<u8>>,
    pub signature: Seq<u8>,
    pub producer: Seq<u8>,
}

/// Happy certificate: a supermajority of validators signed the same vote
/// for the previous view. `aggregated_signature` is the BLS aggregation of
/// their vote signatures; `signers` is the insertion-ordered set of
/// contributing keys (order is load-bearing: aggregate verification
/// reconstructs each signer's message positionally); `producer` signed the
/// aggregated signature bytes to attest authorship.
#[derive(Debug)]
pub struct QC {
    /// For a QC, the quorum is signing the same vote from the previous view.
    pub vote: Vote,
    pub aggregated_signature: Signature,
    pub signers: Vec<PublicKey>,
    pub signature: Signature,
    pub producer: PublicKey,
}

impl View for QC {
    type V = QcV;

    open spec fn view(&self) -> QcV {
        QcV {
            vote: self.vote@,
            aggregated_signature: self.aggregated_signature@,
            signers: self.signers.deep_view(),
            signature: self.signature@,
            producer: self.producer@,
        }
    }
}

impl DeepView for QC {
    type V = QcV;

    open spec fn deep_view(&self) -> QcV {
        self@
    }
}

impl Clone for QC {
    fn clone(&self) -> (r: QC)
        ensures
            r@ == self@,
    {
        let mut signers: Vec<PublicKey> = Vec::new();
        let mut i: usize = 0;
        while i < self.signers.len()
            invariant
                i <= self.signers@.len(),
                signers@.len() == i,
                forall|j: int| 0 <= j < i ==> signers@[j]@ == self.signers@[j]@,
            decreases self.signers@.len() - i,
        {
            signers.push(self.signers[i].clone());
            i += 1;
        }
        proof {
            assert(signers.deep_view() =~= self.signers.deep_view());
        }
        QC {
            vote: self.vote.clone(),
            aggregated_signature: self.aggregated_signature.clone(),
            signers,
            signature: self.signature.clone(),
            producer: self.producer.clone(),
        }
    }
}

/// Mathematical model of an [`AggQC`].
pub ghost struct AggQcV {
    pub qcs: Seq<QcV>,
    pub aggregated_signature: Seq<u8>,
    pub signers: Seq<Seq<u8>>,
    pub signature: Seq<u8>,
    pub producer: Seq<u8>,
}

/// Sad certificate: a supermajority of validators sent new-view messages
/// for the current view, each disclosing its highest happy certificate.
/// `signers[i]` corresponds positionally to `qcs[i]`; the pairing is
/// load-bearing during aggregate verification, because each signer's
/// new-view commitment was to its own high QC's aggregated signature.
#[derive(Debug)]
pub struct AggQC {
    /// For an AggQC, the quorum is signing for their own high QC.
    pub qcs: Vec<QC>,
    pub aggregated_signature: Signature,
    pub signers: Vec<PublicKey>,
    pub signature: Signature,
    pub producer: PublicKey,
}

impl View for AggQC {
    type V = AggQcV;

    open spec fn view(&self) -> AggQcV {
        AggQcV {
            qcs: self.qcs.deep_view(),
            aggregated_signature: self.aggregated_signature@,
            signers: self.signers.deep_view(),
            signature: self.signature@,
            producer: self.producer@,
        }
    }
}

impl Clone for AggQC {
    fn clone(&self) -> (r: AggQC)
        ensures
            r@ == self@,
    {
        let mut qcs: Vec<QC> = Vec::new();
        let mut i: usize = 0;
        while i < self.qcs.len()
            invariant
                i <= self.qcs@.len(),
                qcs@.len() == i,
                forall|j: int| 0 <= j < i ==> qcs@[j]@ == self.qcs@[j]@,
            decreases self.qcs@.len() - i,
        {
            qcs.push(self.qcs[i].clone());
            i += 1;
        }
        let mut signers: Vec<PublicKey> = Vec::new();
        let mut k: usize = 0;
        while k < self.signers.len()
            invariant
                k <= self.signers@.len(),
                signers@.len() == k,
                forall|j: int| 0 <= j < k ==> signers@[j]@ == self.signers@[j]@,
            decreases self.signers@.len() - k,
        {
            signers.push(self.signers[k].clone());
            k += 1;
        }
        proof {
            assert(qcs.deep_view() =~= self.qcs.deep_view());
            assert(signers.deep_view() =~= self.signers.deep_view());
        }
        AggQC {
            qcs,
            aggregated_signature: self.aggregated_signature.clone(),
            signers,
            signature: self.signature.clone(),
            producer: self.producer.clone(),
        }
    }
}

/// Mathematical model of a [`QuorumCertificate`].
pub ghost enum CertificateV {
    Happy(QcV),
    Sad(AggQcV),
    Genesis,
}

/// The certificate justifying entry into a view.
#[derive(Debug)]
pub enum QuorumCertificate {
    /// Built when the primary gathers a supermajority of votes for the
    /// previous view; the vote signatures are aggregated.
    Happy(QC),
    /// Built when the primary gathers a supermajority of new-view
    /// declarations for the current view; their signatures are aggregated.
    Sad(AggQC),
    /// The certificate of the first view; nothing precedes it.
    Genesis,
}

impl View for QuorumCertificate {
    type V = CertificateV;

    open spec fn view(&self) -> CertificateV {
        match self {
            QuorumCertificate::Happy(q) => CertificateV::Happy(q@),
            QuorumCertificate::Sad(a) => CertificateV::Sad(a@),
            QuorumCertificate::Genesis => CertificateV::Genesis,
        }
    }
}

impl Clone for QuorumCertificate {
    fn clone(&self) -> (r: QuorumCertificate)
        ensures
            r@ == self@,
    {
        match self {
            QuorumCertificate::Happy(q) => QuorumCertificate::Happy(q.clone()),
            QuorumCertificate::Sad(a) => QuorumCertificate::Sad(a.clone()),
            QuorumCertificate::Genesis => QuorumCertificate::Genesis,
        }
    }
}

/// Supermajority: strictly more signers than two thirds of the quorum.
pub open spec fn spec_supermajority(count: int, quorum_size: int) -> bool {
    count > 2 * quorum_size / 3
}

/// Every signer is a member of the quorum.
pub open spec fn spec_signers_in_quorum(signers: Seq<Seq<u8>>, quorum: Seq<Seq<u8>>) -> bool {
    forall|i: int| 0 <= i < signers.len() ==> quorum.contains(#[trigger] signers[i])
}

/// The per-signer messages whose aggregate a happy certificate's
/// `aggregated_signature` must be: each signer signed its own key bytes
/// followed by the encoded vote payload.
pub open spec fn spec_qc_messages(q: QcV) -> Seq<Seq<u8>> {
    Seq::new(
        q.signers.len(),
        |i: int| q.signers[i] + spec_encode_message_type(MessageTypeV::Vote(q.vote)),
    )
}

/// The aggregated-signature predicate of a happy certificate.
pub open spec fn spec_qc_signature_valid(q: QcV) -> bool {
    bls_verified(q.aggregated_signature, spec_qc_messages(q), q.signers)
}

/// Validity of a happy certificate against a quorum: supermajority,
/// membership, and the aggregate signature check.
pub open spec fn spec_qc_valid(q: QcV, quorum: Seq<Seq<u8>>) -> bool {
    &&& spec_supermajority(q.signers.len() as int, quorum.len() as int)
    &&& spec_signers_in_quorum(q.signers, quorum)
    &&& spec_qc_signature_valid(q)
}

/// The happy certificate with the greatest vote view among `qcs`, ties
/// resolved in favour of the earliest, certificates for view 0 never
/// selected; `None` when no certificate qualifies.
pub open spec fn spec_find_high_qc(qcs: Seq<QcV>) -> Option<QcV>
    decreases qcs.len(),
{
    if qcs.len() == 0 {
        None
    } else {
        match spec_find_high_qc(qcs.drop_last()) {
            None => if qcs.last().vote.view > 0 {
                Some(qcs.last())
            } else {
                None
            },
            Some(h) => if qcs.last().vote.view > h.vote.view {
                Some(qcs.last())
            } else {
                Some(h)
            },
        }
    }
}

/// The per-signer messages whose aggregate a sad certificate's
/// `aggregated_signature` must be: each signer signed its own key bytes
/// followed by its own high QC's aggregated signature, length-prefixed.
/// Signers and certificates are paired positionally, up to the shorter of
/// the two lists.
pub open spec fn spec_aggqc_messages(a: AggQcV) -> Seq<Seq<u8>> {
    Seq::new(
        vstd::math::min(a.signers.len() as int, a.qcs.len() as int) as nat,
        |i: int| spec_key_prefixed_sig(a.signers[i], a.qcs[i].aggregated_signature),
    )
}

/// The aggregated-signature predicate of a sad certificate.
pub open spec fn spec_aggqc_signature_valid(a: AggQcV) -> bool {
    bls_verified(a.aggregated_signature, spec_aggqc_messages(a), a.signers)
}

/// Validity of a sad certificate against a quorum: supermajority,
/// membership, a valid high QC (so a certificate embedding none is
/// invalid), and the aggregate signature check.
pub open spec fn spec_aggqc_valid(a: AggQcV, quorum: Seq<Seq<u8>>) -> bool {
    &&& spec_supermajority(a.signers.len() as int, quorum.len() as int)
    &&& spec_signers_in_quorum(a.signers, quorum)
    &&& match spec_find_high_qc(a.qcs) {
        Some(h) => spec_qc_valid(h, quorum),
        None => false,
    }
    &&& spec_aggqc_signature_valid(a)
}

/// The happy certificates embedded in a list of new-view declarations, in
/// order; declarations carrying sad or genesis certificates contribute
/// nothing.
pub open spec fn spec_happy_qcs(etas: Seq<NewViewV>) -> Seq<QcV>
    decreases etas.len(),
{
    if etas.len() == 0 {
        Seq::empty()
    } else {
        spec_happy_qcs(etas.drop_last()) + (match etas.last().certificate {
            CertificateV::Happy(q) => seq![q],
            _ => Seq::<QcV>::empty(),
        })
    }
}

/// The happy certificate that `from_votes` builds.
pub open spec fn spec_qc_from_votes(
    vote: VoteV,
    sigs: Seq<Seq<u8>>,
    signers: Seq<Seq<u8>>,
    sk: Seq<u8>,
) -> QcV {
    let agg = aggregate_bytes(sigs);
    QcV {
        vote,
        aggregated_signature: agg,
        signers,
        signature: sign_bytes(sk, spec_key_prefixed_sig(public_key_bytes(sk), agg)),
        producer: public_key_bytes(sk),
    }
}

/// The sad certificate that `from_newviews` builds.
pub open spec fn spec_aggqc_from_newviews(
    etas: Seq<NewViewV>,
    sigs: Seq<Seq<u8>>,
    signers: Seq<Seq<u8>>,
    sk: Seq<u8>,
) -> AggQcV {
    let agg = aggregate_bytes(sigs);
    AggQcV {
        qcs: spec_happy_qcs(etas),
        aggregated_signature: agg,
        signers,
        signature: sign_bytes(sk, spec_key_prefixed_sig(public_key_bytes(sk), agg)),
        producer: public_key_bytes(sk),
    }
}

impl QuorumCertificate {
    /// Build a happy certificate from a supermajority of identical votes.
    /// The caller has already verified each vote signature, checked that
    /// they all attest the same vote, and deduplicated the signers;
    /// `vote_signatures[i]` is `signers[i]`'s signature. Returns `None`
    /// exactly when the signature list is empty or holds bytes that do
    /// not decode, in which case nothing can be aggregated.
    pub fn from_votes(
        vote: Vote,
        vote_signatures: &Vec<Signature>,
        signers: Vec<PublicKey>,
        signer: &PrivateKey,
    ) -> (r: Option<QuorumCertificate>)
        ensures
            r is Some <==> (vote_signatures@.len() > 0 && forall|i: int|
                0 <= i < vote_signatures@.len() ==> signature_ok(#[trigger] vote_signatures@[i]@)),
            r is Some ==> r->0@ == CertificateV::Happy(
                spec_qc_from_votes(
                    vote@,
                    sig_bytes_seq(vote_signatures@),
                    signers.deep_view(),
                    signer@,
                ),
            ),
    {
        let aggregated = crate::crypto::aggregate_signatures(vote_signatures);
        match aggregated {
            None => None,
            Some(aggregated_signature) => {
                let producer = signer.public_key();
                let mut preimage = clone_bytes(&producer.0);
                push_u32(&mut preimage, aggregated_signature.0.len() as u32);
                push_bytes(&mut preimage, &aggregated_signature.0);
                proof {
                    assert(preimage@ =~= spec_key_prefixed_sig(
                        public_key_bytes(signer@),
                        aggregated_signature@,
                    ));
                }
                let signature = signer.sign(&preimage);
                Some(
                    QuorumCertificate::Happy(
                        QC { vote, aggregated_signature, signers, signature, producer },
                    ),
                )
            },
        }
    }

    /// Build a sad certificate from a supermajority of new-view
    /// declarations. The caller has already verified each declaration's
    /// signature and deduplicated the signers; `eta_signatures[i]` is
    /// `signers[i]`'s signature over its declaration. Only the happy
    /// certificates embedded in the declarations are gathered. Returns
    /// `None` exactly when the signature list is empty or holds bytes
    /// that do not decode.
    pub fn from_newviews(
        etas: Vec<NewView>,
        eta_signatures: Vec<Signature>,
        signers: Vec<PublicKey>,
        signer: &PrivateKey,
    ) -> (r: Option<QuorumCertificate>)
        ensures
            r is Some <==> (eta_signatures@.len() > 0 && forall|i: int|
                0 <= i < eta_signatures@.len() ==> signature_ok(#[trigger] eta_signatures@[i]@)),
            r is Some ==> r->0@ == CertificateV::Sad(
                spec_aggqc_from_newviews(
                    etas.deep_view(),
                    sig_bytes_seq(eta_signatures@),
                    signers.deep_view(),
                    signer@,
                ),
            ),
    {
        let ghost etas_dv = etas.deep_view();
        let mut qcs: Vec<QC> = Vec::new();
        let mut i: usize = 0;
        while i < etas.len()
            invariant
                i <= etas@.len(),
                etas_dv == etas.deep_view(),
                etas_dv.len() == etas@.len(),
                forall|j: int| 0 <= j < etas@.len() ==> etas_dv[j] == etas@[j]@,
                qcs.deep_view() == spec_happy_qcs(etas_dv.take(i as int)),
            decreases etas@.len() - i,
        {
            match &etas[i].certificate {
                QuorumCertificate::Happy(q) => {
                    qcs.push(q.clone());
                },
                _ => {},
            }
            proof {
                assert(etas_dv.take(i as int + 1).drop_last() =~= etas_dv.take(i as int));
                assert(qcs.deep_view() =~= spec_happy_qcs(etas_dv.take(i as int + 1)));
            }
            i += 1;
        }
        proof {
            assert(etas_dv.take(etas_dv.len() as int) =~= etas_dv);
        }
        let aggregated = crate::crypto::aggregate_signatures(&eta_signatures);
        match aggregated {
            None => None,
            Some(aggregated_signature) => {
                let producer = signer.public_key();
                let mut preimage = clone_bytes(&producer.0);
                push_u32(&mut preimage, aggregated_signature.0.len() as u32);
                push_bytes(&mut preimage, &aggregated_signature.0);
                proof {
                    assert(preimage@ =~= spec_key_prefixed_sig(
                        public_key_bytes(signer@),
                        aggregated_signature@,
                    ));
                }
                let signature = signer.sign(&preimage);
                Some(
                    QuorumCertificate::Sad(
                        AggQC { qcs, aggregated_signature, signers, signature, producer },
                    ),
                )
            },
        }
    }
}

/// Whether `count` signers out of a quorum of `quorum_size` are strictly
/// more than two thirds of it.
pub fn supermajority_count(count: usize, quorum_size: usize) -> (r: bool)
    ensures
        r == spec_supermajority(count as int, quorum_size as int),
{
    (count as u128) > 2u128 * (quorum_size as u128) / 3u128
}

/// Whether every element of `signers` occurs in `quorum`, comparing keys
/// by their bytes.
pub fn signers_in_quorum(signers: &Vec<PublicKey>, quorum: &Vec<PublicKey>) -> (r: bool)
    ensures
        r == spec_signers_in_quorum(signers.deep_view(), quorum.deep_view()),
{
    let ghost sdv = signers.deep_view();
    let ghost qdv = quorum.deep_view();
    let mut i: usize = 0;
    while i < signers.len()
        invariant
            i <= signers@.len(),
            sdv == signers.deep_view(),
            qdv == quorum.deep_view(),
            sdv.len() == signers@.len(),
            qdv.len() == quorum@.len(),
            forall|j: int| 0 <= j < signers@.len() ==> sdv[j] == signers@[j]@,
            forall|j: int| 0 <= j < quorum@.len() ==> qdv[j] == quorum@[j]@,
            forall|j: int| 0 <= j < i ==> qdv.contains(#[trigger] sdv[j]),
        decreases signers@.len() - i,
    {
        let mut found = false;
        let mut k: usize = 0;
        while k < quorum.len()
            invariant
                k <= quorum@.len(),
                sdv == signers.deep_view(),
                qdv == quorum.deep_view(),
                qdv.len() == quorum@.len(),
                forall|j: int| 0 <= j < quorum@.len() ==> qdv[j] == quorum@[j]@,
                i < signers@.len(),
                sdv[i as int] == signers@[i as int]@,
                found ==> qdv.contains(sdv[i as int]),
                !found ==> forall|j: int| 0 <= j < k ==> qdv[j] != sdv[i as int],
            decreases quorum@.len() - k,
        {
            if quorum[k] == signers[i] {
                found = true;
                proof {
                    assert(qdv[k as int] == sdv[i as int]);
                }
            }
            k += 1;
        }
        if !found {
            proof {
                assert(!qdv.contains(sdv[i as int]));
            }
            return false;
        }
        i += 1;
    }
    true
}

impl QC {
    /// A happy certificate is valid against a quorum when its signer
    /// count is a supermajority of the quorum, every signer is a quorum
    /// member, and its aggregated signature verifies against the
    /// per-signer reconstructed vote messages. The three predicates are
    /// evaluated in ascending compute cost and short-circuit.
    pub fn valid(&self, quorum: &Vec<PublicKey>) -> (r: bool)
        ensures
            r == spec_qc_valid(self@, quorum.deep_view()),
    {
        if !supermajority_count(self.signers.len(), quorum.len()) {
            return false;
        }
        if !signers_in_quorum(&self.signers, quorum) {
            return false;
        }
        let ghost msgs = spec_qc_messages(self@);
        let vote_payload = MessageType::Vote(self.vote.clone());
        let mut messages: Vec<Vec<u8>> = Vec::new();
        let mut keys: Vec<Vec<u8>> = Vec::new();
        let mut i: usize = 0;
        while i < self.signers.len()
            invariant
                i <= self.signers@.len(),
                msgs == spec_qc_messages(self@),
                msgs.len() == self.signers@.len(),
                vote_payload@ == MessageTypeV::Vote(self@.vote),
                messages@.len() == i,
                keys@.len() == i,
                forall|j: int| 0 <= j < i ==> #[trigger] messages@[j]@ == msgs[j],
                forall|j: int| 0 <= j < i ==> #[trigger] keys@[j]@ == self@.signers[j],
            decreases self.signers@.len() - i,
        {
            let mut message = clone_bytes(&self.signers[i].0);
            encode_message_type(&mut message, &vote_payload);
            messages.push(message);
            keys.push(clone_bytes(&self.signers[i].0));
            i += 1;
        }
        proof {
            assert(messages.deep_view() =~~= msgs);
            assert(keys.deep_view() =~~= self@.signers);
        }
        crate::crypto::verify_aggregate(&self.aggregated_signature, &messages, &keys)
    }
}

impl AggQC {
    /// A sad certificate is valid against a quorum when its signer count
    /// is a supermajority, every signer is a quorum member, the high QC it
    /// embeds exists and is itself valid, and its aggregated signature
    /// verifies against the per-signer reconstructed new-view commitments.
    /// The predicates are evaluated in ascending compute cost and
    /// short-circuit.
    pub fn valid(&self, quorum: &Vec<PublicKey>) -> (r: bool)
        ensures
            r == spec_aggqc_valid(self@, quorum.deep_view()),
    {
        if !supermajority_count(self.signers.len(), quorum.len()) {
            return false;
        }
        if !signers_in_quorum(&self.signers, quorum) {
            return false;
        }
        let high = self.find_high_qc();
        match high {
            None => {
                return false;
            },
            Some(h) => {
                if !h.valid(quorum) {
                    return false;
                }
            },
        }
        let ghost msgs = spec_aggqc_messages(self@);
        let pairs = if self.signers.len() < self.qcs.len() {
            self.signers.len()
        } else {
            self.qcs.len()
        };
        let mut messages: Vec<Vec<u8>> = Vec::new();
        let mut i: usize = 0;
        while i < pairs
            invariant
                i <= pairs,
                pairs == vstd::math::min(self.signers@.len() as int, self.qcs@.len() as int),
                msgs == spec_aggqc_messages(self@),
                msgs.len() == pairs,
                messages@.len() == i,
                forall|j: int| 0 <= j < i ==> #[trigger] messages@[j]@ == msgs[j],
            decreases pairs - i,
        {
            let mut message = clone_bytes(&self.signers[i].0);
            push_u32(&mut message, self.qcs[i].aggregated_signature.0.len() as u32);
            push_bytes(&mut message, &self.qcs[i].aggregated_signature.0);
            proof {
                assert(message@ =~= msgs[i as int]);
            }
            messages.push(message);
            i += 1;
        }
        let mut keys: Vec<Vec<u8>> = Vec::new();
        let mut k: usize = 0;
        while k < self.signers.len()
            invariant
                k <= self.signers@.len(),
                keys@.len() == k,
                forall|j: int| 0 <= j < k ==> #[trigger] keys@[j]@ == self.signers@[j]@,
            decreases self.signers@.len() - k,
        {
            keys.push(clone_bytes(&self.signers[k].0));
            k += 1;
        }
        proof {
            assert(messages.deep_view() =~~= msgs);
            assert(keys.deep_view() =~~= self@.signers);
        }
        crate::crypto::verify_aggregate(&self.aggregated_signature, &messages, &keys)
    }

    /// The embedded certificate with the greatest vote view, or `None`
    /// when there is none with a view above zero. Ties keep the earliest.
    pub fn find_high_qc(&self) -> (r: Option<&QC>)
        ensures
            match r {
                Some(h) => spec_find_high_qc(self@.qcs) == Some(h@),
                None => spec_find_high_qc(self@.qcs) is None,
            },
    {
        let ghost dv = self.qcs.deep_view();
        let mut high_qc: Option<&QC> = None;
        let mut high_qc_view: u64 = 0;
        let mut i: usize = 0;
        while i < self.qcs.len()
            invariant
                i <= self.qcs@.len(),
                dv == self.qcs.deep_view(),
                dv.len() == self.qcs@.len(),
                forall|j: int| 0 <= j < self.qcs@.len() ==> dv[j] == self.qcs@[j]@,
                match high_qc {
                    Some(h) => spec_find_high_qc(dv.take(i as int)) == Some(h@)
                        && high_qc_view == h@.vote.view && high_qc_view > 0,
                    None => spec_find_high_qc(dv.take(i as int)) is None && high_qc_view == 0,
                },
            decreases self.qcs@.len() - i,
        {
            proof {
                assert(dv.take(i as int + 1).drop_last() =~= dv.take(i as int));
            }
            if self.qcs[i].vote.view > high_qc_view {
                high_qc_view = self.qcs[i].vote.view;
                high_qc = Some(&self.qcs[i]);
            }
            i += 1;
        }
        proof {
            assert(dv.take(dv.len() as int) =~= dv);
        }
        high_qc
    }
}

/// A happy certificate is valid against a quorum exactly when all three
/// sub-predicates hold: its signers are a supermajority of the quorum,
/// every signer is a quorum member, and its aggregated signature verifies
/// against the per-signer reconstructed vote messages.
pub proof fn lemma_qc_valid_characterisation(q: QcV, quorum: Seq<Seq<u8>>)
    ensures
        spec_qc_valid(q, quorum) <==> (spec_supermajority(
            q.signers.len() as int,
            quorum.len() as int,
        ) && spec_signers_in_quorum(q.signers, quorum) && spec_qc_signature_valid(q)),
{
}

/// A sad certificate that is valid against some quorum embeds a high QC
/// that is itself valid against that quorum.
pub proof fn lemma_aggqc_valid_high_qc(a: AggQcV, quorum: Seq<Seq<u8>>)
    requires
        spec_aggqc_valid(a, quorum),
    ensures
        spec_find_high_qc(a.qcs) is Some,
        spec_qc_valid(spec_find_high_qc(a.qcs)->0, quorum),
{
}

} // verus!
