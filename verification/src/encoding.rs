//! Canonical, deterministic byte encoding of every signable structure.
//! All signatures and hashes in the protocol are computed over this
//! encoding, so it must be byte-identical across peers: variants are
//! encoded as a one-byte tag followed by the payload, ordered collections
//! are length-prefixed with a little-endian `u32`, integers are
//! little-endian, and cryptographic handles are their canonical bytes.

use vstd::prelude::*;

use vstd::bytes::{spec_u32_to_le_bytes, spec_u64_to_le_bytes, u32_to_le_bytes, u64_to_le_bytes};

use crate::block::{Block, BlockV};
use crate::certificates::{AggQC, AggQcV, CertificateV, QcV, QuorumCertificate, QC};
use crate::crypto::PublicKey;
use crate::message::{MessageType, MessageTypeV, NewView, NewViewV, VoteV, Vote};
use crate::transaction::{Transaction, TransactionV};

verus! {

/// Concatenation of a sequence of byte strings.
pub open spec fn concat_bytes(s: Seq<Seq<u8>>) -> Seq<u8>
    decreases s.len(),
{
    if s.len() == 0 {
        Seq::empty()
    } else {
        concat_bytes(s.drop_last()) + s.last()
    }
}

/// Encoding of a vote: its view, then the raw blockhash bytes.
pub open spec fn spec_encode_vote(v: VoteV) -> Seq<u8> {
    spec_u64_to_le_bytes(v.view) + v.blockhash
}

/// Encoding of an ordered list of public keys: a little-endian `u32`
/// length, then each key's raw bytes in order.
pub open spec fn spec_encode_pubkeys(keys: Seq<Seq<u8>>) -> Seq<u8> {
    spec_u32_to_le_bytes(keys.len() as u32) + concat_bytes(keys)
}

/// Encoding of a happy certificate: vote, raw aggregated signature,
/// signer list, raw producer signature, raw producer key.
pub open spec fn spec_encode_qc(q: QcV) -> Seq<u8> {
    spec_encode_vote(q.vote) + q.aggregated_signature + spec_encode_pubkeys(q.signers)
        + q.signature + q.producer
}

/// Encoding of an ordered list of happy certificates, length-prefixed.
pub open spec fn spec_encode_qc_list(qcs: Seq<QcV>) -> Seq<u8> {
    spec_u32_to_le_bytes(qcs.len() as u32) + concat_bytes(
        Seq::new(qcs.len(), |i: int| spec_encode_qc(qcs[i])),
    )
}

/// Encoding of a sad certificate: certificate list, raw aggregated
/// signature, signer list, raw producer signature, raw producer key.
pub open spec fn spec_encode_aggqc(a: AggQcV) -> Seq<u8> {
    spec_encode_qc_list(a.qcs) + a.aggregated_signature + spec_encode_pubkeys(a.signers)
        + a.signature + a.producer
}

/// Encoding of a certificate: a one-byte variant tag, then the payload.
pub open spec fn spec_encode_certificate(c: CertificateV) -> Seq<u8> {
    match c {
        CertificateV::Happy(q) => seq![0u8] + spec_encode_qc(q),
        CertificateV::Sad(a) => seq![1u8] + spec_encode_aggqc(a),
        CertificateV::Genesis => seq![2u8],
    }
}

/// Encoding of a transaction: raw payload bytes, raw signature bytes, raw
/// key bytes, none of them length-prefixed.
pub open spec fn spec_encode_transaction(t: TransactionV) -> Seq<u8> {
    t.message + t.signature + t.pubkey
}

/// Encoding of an ordered list of transactions, length-prefixed.
pub open spec fn spec_encode_transactions(ts: Seq<TransactionV>) -> Seq<u8> {
    spec_u32_to_le_bytes(ts.len() as u32) + concat_bytes(
        Seq::new(ts.len(), |i: int| spec_encode_transaction(ts[i])),
    )
}

/// Encoding of a block: transactions, certificate, raw parent blockhash,
/// view.
pub open spec fn spec_encode_block(b: BlockV) -> Seq<u8> {
    spec_encode_transactions(b.transactions) + spec_encode_certificate(b.certificate)
        + b.last_blockhash + spec_u64_to_le_bytes(b.view)
}

/// Encoding of a new-view declaration: its view, then its certificate.
pub open spec fn spec_encode_new_view(nv: NewViewV) -> Seq<u8> {
    spec_u64_to_le_bytes(nv.view) + spec_encode_certificate(nv.certificate)
}

/// Encoding of a message payload: a one-byte variant tag, then the
/// payload.
pub open spec fn spec_encode_message_type(m: MessageTypeV) -> Seq<u8> {
    match m {
        MessageTypeV::Vote(v) => seq![0u8] + spec_encode_vote(v),
        MessageTypeV::NewView(nv) => seq![1u8] + spec_encode_new_view(nv),
        MessageTypeV::Block(b) => seq![2u8] + spec_encode_block(b),
    }
}

/// The byte string a transmitter signs: its own public key bytes, then
/// the encoded payload. The key prefix keeps signed messages pairwise
/// distinct across signers.
pub open spec fn spec_signed_preimage(pk: Seq<u8>, m: MessageTypeV) -> Seq<u8> {
    pk + spec_encode_message_type(m)
}

/// The byte string a certificate producer signs over an aggregated
/// signature: its own key bytes, then the signature bytes length-prefixed
/// (the aggregated signature is serialised as a byte vector here).
pub open spec fn spec_key_prefixed_sig(key: Seq<u8>, sig: Seq<u8>) -> Seq<u8> {
    key + spec_u32_to_le_bytes(sig.len() as u32) + sig
}

/// Length bounds under which a happy certificate can be encoded without
/// overflowing a `u32` length prefix.
pub open spec fn qc_encodable(q: QcV) -> bool {
    q.signers.len() <= u32::MAX
}

/// Length bounds under which a sad certificate can be encoded.
pub open spec fn aggqc_encodable(a: AggQcV) -> bool {
    &&& a.signers.len() <= u32::MAX
    &&& a.qcs.len() <= u32::MAX
    &&& forall|i: int| 0 <= i < a.qcs.len() ==> qc_encodable(#[trigger] a.qcs[i])
}

/// Length bounds under which a certificate can be encoded.
pub open spec fn certificate_encodable(c: CertificateV) -> bool {
    match c {
        CertificateV::Happy(q) => qc_encodable(q),
        CertificateV::Sad(a) => aggqc_encodable(a),
        CertificateV::Genesis => true,
    }
}

/// Length bounds under which a block can be encoded.
pub open spec fn block_encodable(b: BlockV) -> bool {
    b.transactions.len() <= u32::MAX && certificate_encodable(b.certificate)
}

/// Length bounds under which a message payload can be encoded.
pub open spec fn message_type_encodable(m: MessageTypeV) -> bool {
    match m {
        MessageTypeV::Vote(_) => true,
        MessageTypeV::NewView(nv) => certificate_encodable(nv.certificate),
        MessageTypeV::Block(b) => block_encodable(b),
    }
}

/// Append the bytes of `data` to `buf`.
pub fn push_bytes(buf: &mut Vec<u8>, data: &Vec<u8>)
    ensures
        final(buf)@ == old(buf)@ + data@,
{
    let mut i: usize = 0;
    while i < data.len()
        invariant
            i <= data@.len(),
            buf@ == old(buf)@ + data@.take(i as int),
        decreases data@.len() - i,
    {
        buf.push(data[i]);
        proof {
            assert((old(buf)@ + data@.take(i as int)).push(data@[i as int]) =~= old(buf)@
                + data@.take(i as int + 1));
        }
        i += 1;
    }
    proof {
        assert(data@.take(data@.len() as int) =~= data@);
    }
}

/// Append a little-endian `u64` to `buf`.
pub fn push_u64(buf: &mut Vec<u8>, x: u64)
    ensures
        final(buf)@ == old(buf)@ + spec_u64_to_le_bytes(x),
{
    let mut bytes = u64_to_le_bytes(x);
    buf.append(&mut bytes);
}

/// Append a little-endian `u32` to `buf`.
pub fn push_u32(buf: &mut Vec<u8>, x: u32)
    ensures
        final(buf)@ == old(buf)@ + spec_u32_to_le_bytes(x),
{
    let mut bytes = u32_to_le_bytes(x);
    buf.append(&mut bytes);
}

/// Append the encoding of a vote to `buf`.
pub fn encode_vote(buf: &mut Vec<u8>, v: &Vote)
    ensures
        final(buf)@ == old(buf)@ + spec_encode_vote(v@),
{
    push_u64(buf, v.view);
    push_bytes(buf, &v.blockhash.0);
    proof {
        assert(buf@ =~= old(buf)@ + spec_encode_vote(v@));
    }
}

/// Append the encoding of an ordered key list to `buf`.
pub fn encode_pubkeys(buf: &mut Vec<u8>, keys: &Vec<PublicKey>)
    requires
        keys@.len() <= u32::MAX,
    ensures
        final(buf)@ == old(buf)@ + spec_encode_pubkeys(keys.deep_view()),
{
    push_u32(buf, keys.len() as u32);
    let ghost dv = keys.deep_view();
    let ghost base = buf@;
    let mut i: usize = 0;
    while i < keys.len()
        invariant
            i <= keys@.len(),
            dv == keys.deep_view(),
            dv.len() == keys@.len(),
            forall|j: int| 0 <= j < keys@.len() ==> dv[j] == keys@[j]@,
            buf@ == base + concat_bytes(dv.take(i as int)),
        decreases keys@.len() - i,
    {
        push_bytes(buf, &keys[i].0);
        proof {
            assert(dv.take(i as int + 1).drop_last() =~= dv.take(i as int));
            assert(buf@ =~= base + concat_bytes(dv.take(i as int + 1)));
        }
        i += 1;
    }
    proof {
        assert(dv.take(dv.len() as int) =~= dv);
        assert(base + concat_bytes(dv) =~= old(buf)@ + spec_encode_pubkeys(dv));
    }
}

/// Append the encoding of a happy certificate to `buf`.
pub fn encode_qc(buf: &mut Vec<u8>, q: &QC)
    requires
        qc_encodable(q@),
    ensures
        final(buf)@ == old(buf)@ + spec_encode_qc(q@),
{
    encode_vote(buf, &q.vote);
    push_bytes(buf, &q.aggregated_signature.0);
    encode_pubkeys(buf, &q.signers);
    push_bytes(buf, &q.signature.0);
    push_bytes(buf, &q.producer.0);
    proof {
        assert(buf@ =~= old(buf)@ + spec_encode_qc(q@));
    }
}

/// Append the encoding of an ordered certificate list to `buf`.
pub fn encode_qc_list(buf: &mut Vec<u8>, qcs: &Vec<QC>)
    requires
        qcs@.len() <= u32::MAX,
        forall|i: int| 0 <= i < qcs@.len() ==> qc_encodable(#[trigger] qcs@[i]@),
    ensures
        final(buf)@ == old(buf)@ + spec_encode_qc_list(qcs.deep_view()),
{
    push_u32(buf, qcs.len() as u32);
    let ghost dv = qcs.deep_view();
    let ghost encs = Seq::new(dv.len(), |i: int| spec_encode_qc(dv[i]));
    let ghost base = buf@;
    let mut i: usize = 0;
    while i < qcs.len()
        invariant
            i <= qcs@.len(),
            dv == qcs.deep_view(),
            encs == Seq::new(dv.len(), |j: int| spec_encode_qc(dv[j])),
            dv.len() == qcs@.len(),
            forall|j: int| 0 <= j < qcs@.len() ==> dv[j] == qcs@[j]@,
            forall|j: int| 0 <= j < qcs@.len() ==> qc_encodable(#[trigger] qcs@[j]@),
            buf@ == base + concat_bytes(encs.take(i as int)),
        decreases qcs@.len() - i,
    {
        encode_qc(buf, &qcs[i]);
        proof {
            assert(encs.take(i as int + 1).drop_last() =~= encs.take(i as int));
            assert(buf@ =~= base + concat_bytes(encs.take(i as int + 1)));
        }
        i += 1;
    }
    proof {
        assert(encs.take(encs.len() as int) =~= encs);
        assert(base + concat_bytes(encs) =~= old(buf)@ + spec_encode_qc_list(dv));
    }
}

/// Append the encoding of a sad certificate to `buf`.
pub fn encode_aggqc(buf: &mut Vec<u8>, a: &AggQC)
    requires
        aggqc_encodable(a@),
    ensures
        final(buf)@ == old(buf)@ + spec_encode_aggqc(a@),
{
    proof {
        assert forall|i: int| 0 <= i < a.qcs@.len() implies qc_encodable(
            #[trigger] a.qcs@[i]@,
        ) by {
            assert(a@.qcs[i] == a.qcs@[i]@);
        }
    }
    encode_qc_list(buf, &a.qcs);
    push_bytes(buf, &a.aggregated_signature.0);
    encode_pubkeys(buf, &a.signers);
    push_bytes(buf, &a.signature.0);
    push_bytes(buf, &a.producer.0);
    proof {
        assert(buf@ =~= old(buf)@ + spec_encode_aggqc(a@));
    }
}

/// Append the encoding of a certificate to `buf`.
pub fn encode_certificate(buf: &mut Vec<u8>, c: &QuorumCertificate)
    requires
        certificate_encodable(c@),
    ensures
        final(buf)@ == old(buf)@ + spec_encode_certificate(c@),
{
    match c {
        QuorumCertificate::Happy(q) => {
            buf.push(0u8);
            encode_qc(buf, q);
            proof {
                assert(buf@ =~= old(buf)@ + spec_encode_certificate(c@));
            }
        },
        QuorumCertificate::Sad(a) => {
            buf.push(1u8);
            encode_aggqc(buf, a);
            proof {
                assert(buf@ =~= old(buf)@ + spec_encode_certificate(c@));
            }
        },
        QuorumCertificate::Genesis => {
            buf.push(2u8);
            proof {
                assert(buf@ =~= old(buf)@ + spec_encode_certificate(c@));
            }
        },
    }
}

/// Append the encoding of a transaction to `buf`.
pub fn encode_transaction(buf: &mut Vec<u8>, t: &Transaction)
    ensures
        final(buf)@ == old(buf)@ + spec_encode_transaction(t@),
{
    push_bytes(buf, &t.message);
    push_bytes(buf, &t.signature.0);
    push_bytes(buf, &t.pubkey.0);
    proof {
        assert(buf@ =~= old(buf)@ + spec_encode_transaction(t@));
    }
}

/// Append the encoding of an ordered transaction list to `buf`.
pub fn encode_transactions(buf: &mut Vec<u8>, ts: &Vec<Transaction>)
    requires
        ts@.len() <= u32::MAX,
    ensures
        final(buf)@ == old(buf)@ + spec_encode_transactions(ts.deep_view()),
{
    push_u32(buf, ts.len() as u32);
    let ghost dv = ts.deep_view();
    let ghost encs = Seq::new(dv.len(), |i: int| spec_encode_transaction(dv[i]));
    let ghost base = buf@;
    let mut i: usize = 0;
    while i < ts.len()
        invariant
            i <= ts@.len(),
            dv == ts.deep_view(),
            encs == Seq::new(dv.len(), |j: int| spec_encode_transaction(dv[j])),
            dv.len() == ts@.len(),
            forall|j: int| 0 <= j < ts@.len() ==> dv[j] == ts@[j]@,
            buf@ == base + concat_bytes(encs.take(i as int)),
        decreases ts@.len() - i,
    {
        encode_transaction(buf, &ts[i]);
        proof {
            assert(encs.take(i as int + 1).drop_last() =~= encs.take(i as int));
            assert(buf@ =~= base + concat_bytes(encs.take(i as int + 1)));
        }
        i += 1;
    }
    proof {
        assert(encs.take(encs.len() as int) =~= encs);
        assert(base + concat_bytes(encs) =~= old(buf)@ + spec_encode_transactions(dv));
    }
}

/// Append the encoding of a block to `buf`.
pub fn encode_block(buf: &mut Vec<u8>, b: &Block)
    requires
        block_encodable(b@),
    ensures
        final(buf)@ == old(buf)@ + spec_encode_block(b@),
{
    encode_transactions(buf, &b.transactions);
    encode_certificate(buf, &b.certificate);
    push_bytes(buf, &b.last_blockhash.0);
    push_u64(buf, b.view);
    proof {
        assert(buf@ =~= old(buf)@ + spec_encode_block(b@));
    }
}

/// Append the encoding of a new-view declaration to `buf`.
pub fn encode_new_view(buf: &mut Vec<u8>, nv: &NewView)
    requires
        certificate_encodable(nv.certificate@),
    ensures
        final(buf)@ == old(buf)@ + spec_encode_new_view(nv@),
{
    push_u64(buf, nv.view);
    encode_certificate(buf, &nv.certificate);
    proof {
        assert(buf@ =~= old(buf)@ + spec_encode_new_view(nv@));
    }
}

/// Append the encoding of a message payload to `buf`.
pub fn encode_message_type(buf: &mut Vec<u8>, m: &MessageType)
    requires
        message_type_encodable(m@),
    ensures
        final(buf)@ == old(buf)@ + spec_encode_message_type(m@),
{
    match m {
        MessageType::Vote(v) => {
            buf.push(0u8);
            encode_vote(buf, v);
            proof {
                assert(buf@ =~= old(buf)@ + spec_encode_message_type(m@));
            }
        },
        MessageType::NewView(nv) => {
            buf.push(1u8);
            encode_new_view(buf, nv);
            proof {
                assert(buf@ =~= old(buf)@ + spec_encode_message_type(m@));
            }
        },
        MessageType::Block(b) => {
            buf.push(2u8);
            encode_block(buf, b);
            proof {
                assert(buf@ =~= old(buf)@ + spec_encode_message_type(m@));
            }
        },
    }
}

/// Decide [`qc_encodable`] at run time.
pub fn check_qc_encodable(q: &QC) -> (r: bool)
    ensures
        r == qc_encodable(q@),
{
    q.signers.len() <= u32::MAX as usize
}

/// Decide [`aggqc_encodable`] at run time.
pub fn check_aggqc_encodable(a: &AggQC) -> (r: bool)
    ensures
        r == aggqc_encodable(a@),
{
    if a.signers.len() > u32::MAX as usize {
        return false;
    }
    if a.qcs.len() > u32::MAX as usize {
        return false;
    }
    let mut i: usize = 0;
    while i < a.qcs.len()
        invariant
            i <= a.qcs@.len(),
            forall|j: int| 0 <= j < i ==> qc_encodable(#[trigger] a.qcs@[j]@),
        decreases a.qcs@.len() - i,
    {
        if !check_qc_encodable(&a.qcs[i]) {
            proof {
                assert(a@.qcs[i as int] == a.qcs@[i as int]@);
            }
            return false;
        }
        i += 1;
    }
    proof {
        assert forall|j: int| 0 <= j < a@.qcs.len() implies qc_encodable(#[trigger] a@.qcs[j]) by {
            assert(a@.qcs[j] == a.qcs@[j]@);
        }
    }
    true
}

/// Decide [`certificate_encodable`] at run time.
pub fn check_certificate_encodable(c: &QuorumCertificate) -> (r: bool)
    ensures
        r == certificate_encodable(c@),
{
    match c {
        QuorumCertificate::Happy(q) => check_qc_encodable(q),
        QuorumCertificate::Sad(a) => check_aggqc_encodable(a),
        QuorumCertificate::Genesis => true,
    }
}

/// Decide [`block_encodable`] at run time.
pub fn check_block_encodable(b: &Block) -> (r: bool)
    ensures
        r == block_encodable(b@),
{
    b.transactions.len() <= u32::MAX as usize && check_certificate_encodable(&b.certificate)
}

/// Decide [`message_type_encodable`] at run time.
pub fn check_message_encodable(m: &MessageType) -> (r: bool)
    ensures
        r == message_type_encodable(m@),
{
    match m {
        MessageType::Vote(_) => true,
        MessageType::NewView(nv) => check_certificate_encodable(&nv.certificate),
        MessageType::Block(b) => check_block_encodable(b),
    }
}

} // verus!
