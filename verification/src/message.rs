//! The signed-message layer: typed payloads (vote, new-view, block)
//! wrapped with the transmitter's identity and a signature over
//! `pubkey bytes ++ encoding(payload)`. Prepending the signer's public key
//! makes every signed byte string unique per signer, which the BLS
//! aggregation scheme requires to resist rogue-key attacks.

use vstd::prelude::*;

use crate::block::{Block, BlockV};
use crate::certificates::{CertificateV, QuorumCertificate};
use crate::crypto::{bls_verified, clone_bytes, public_key_bytes, PrivateKey, PublicKey, Signature};
use crate::encoding::{encode_message_type, spec_encode_message_type, spec_signed_preimage};

verus! {

/// Mathematical model of a [`Vote`].
pub ghost struct VoteV {
    pub view: u64,
    pub blockhash: Seq<u8>,
}

/// Attests that the signer saw the block identified by `blockhash` at
/// height `view`. Votes with equal fields are the same vote for tallying.
#[derive(Debug)]
pub struct Vote {
    pub view: u64,
    pub blockhash: Signature,
}

impl View for Vote {
    type V = VoteV;

    open spec fn view(&self) -> VoteV {
        VoteV { view: self.view, blockhash: self.blockhash@ }
    }
}

impl Clone for Vote {
    fn clone(&self) -> (r: Vote)
        ensures
            r@ == self@,
    {
        Vote { view: self.view, blockhash: self.blockhash.clone() }
    }
}

impl PartialEq for Vote {
    fn eq(&self, other: &Vote) -> (r: bool) {
        self.view == other.view && self.blockhash == other.blockhash
    }
}

impl vstd::std_specs::cmp::PartialEqSpecImpl for Vote {
    open spec fn obeys_eq_spec() -> bool {
        true
    }

    open spec fn eq_spec(&self, other: &Vote) -> bool {
        self@ == other@
    }
}

/// Mathematical model of a [`NewView`].
pub ghost struct NewViewV {
    pub view: u64,
    pub certificate: CertificateV,
}

/// A validator's declaration, on failing to observe a proposal for `view`,
/// of the highest certificate it holds.
#[derive(Debug)]
pub struct NewView {
    pub view: u64,
    pub certificate: QuorumCertificate,
}

impl View for NewView {
    type V = NewViewV;

    open spec fn view(&self) -> NewViewV {
        NewViewV { view: self.view, certificate: self.certificate@ }
    }
}

impl DeepView for NewView {
    type V = NewViewV;

    open spec fn deep_view(&self) -> NewViewV {
        self@
    }
}

impl Clone for NewView {
    fn clone(&self) -> (r: NewView)
        ensures
            r@ == self@,
    {
        NewView { view: self.view, certificate: self.certificate.clone() }
    }
}

/// Mathematical model of a [`MessageType`].
pub ghost enum MessageTypeV {
    Vote(VoteV),
    NewView(NewViewV),
    Block(BlockV),
}

/// The payload of a signed message.
#[derive(Debug)]
pub enum MessageType {
    Vote(Vote),
    NewView(NewView),
    Block(Block),
}

impl View for MessageType {
    type V = MessageTypeV;

    open spec fn view(&self) -> MessageTypeV {
        match self {
            MessageType::Vote(v) => MessageTypeV::Vote(v@),
            MessageType::NewView(nv) => MessageTypeV::NewView(nv@),
            MessageType::Block(b) => MessageTypeV::Block(b@),
        }
    }
}

impl Clone for MessageType {
    fn clone(&self) -> (r: MessageType)
        ensures
            r@ == self@,
    {
        match self {
            MessageType::Vote(v) => MessageType::Vote(v.clone()),
            MessageType::NewView(nv) => MessageType::NewView(nv.clone()),
            MessageType::Block(b) => MessageType::Block(b.clone()),
        }
    }
}

/// Mathematical model of a [`SignedMessage`].
pub ghost struct SignedMessageV {
    pub message_type: MessageTypeV,
    pub transmitter: Seq<u8>,
    pub signature: Seq<u8>,
}

/// A typed payload together with the transmitting peer's public key and
/// that peer's signature over `pubkey bytes ++ encoding(payload)`.
#[derive(Debug)]
pub struct SignedMessage {
    /// The type of message transmitted.
    pub message_type: MessageType,
    /// The peer which transmitted this message.
    pub transmitter: PublicKey,
    /// Signature of the message payload by the transmitter.
    pub signature: Signature,
}

impl View for SignedMessage {
    type V = SignedMessageV;

    open spec fn view(&self) -> SignedMessageV {
        SignedMessageV {
            message_type: self.message_type@,
            transmitter: self.transmitter@,
            signature: self.signature@,
        }
    }
}

impl Clone for SignedMessage {
    fn clone(&self) -> (r: SignedMessage)
        ensures
            r@ == self@,
    {
        SignedMessage {
            message_type: self.message_type.clone(),
            transmitter: self.transmitter.clone(),
            signature: self.signature.clone(),
        }
    }
}

/// Whether a signed message's signature checks out: the BLS verification
/// of the signature over the reconstructed signed byte string, under the
/// transmitter's key.
pub open spec fn spec_message_verified(m: SignedMessageV) -> bool {
    bls_verified(
        m.signature,
        seq![spec_signed_preimage(m.transmitter, m.message_type)],
        seq![m.transmitter],
    )
}

impl SignedMessage {
    /// Verifies the signature for the serialized form of the message. The
    /// signed byte string is always the transmitter's public key bytes
    /// followed by the encoded payload, so that every signer's messages
    /// are distinct under BLS aggregation.
    pub fn verify(&self) -> (r: bool)
        requires
            crate::encoding::message_type_encodable(self.message_type@),
        ensures
            r == spec_message_verified(self@),
    {
        let mut signed_message = clone_bytes(&self.transmitter.0);
        encode_message_type(&mut signed_message, &self.message_type);
        crate::crypto::verify_one(&self.signature, &signed_message, &self.transmitter)
    }

    /// Wrap a block proposal: the resulting signature doubles as the
    /// canonical blockhash used in votes and in `last_blockhash` chaining.
    pub fn block(block: Block, signer: &PrivateKey) -> (r: SignedMessage)
        requires
            crate::encoding::block_encodable(block@),
        ensures
            r.message_type@ == MessageTypeV::Block(block@),
            r.transmitter@ == public_key_bytes(signer@),
            r.signature@ == sign_for(signer@, MessageTypeV::Block(block@)),
            r.signature@.len() == 96,
            crate::crypto::signature_ok(r.signature@),
            r.transmitter@ != crate::crypto::g1_identity_bytes() ==> spec_message_verified(r@),
    {
        let transmitter = signer.public_key();
        let message_type = MessageType::Block(block);
        let mut message = clone_bytes(&transmitter.0);
        encode_message_type(&mut message, &message_type);
        let signature = signer.sign(&message);
        SignedMessage { message_type, transmitter, signature }
    }

    /// Wrap a vote.
    pub fn vote(vote: Vote, signer: &PrivateKey) -> (r: SignedMessage)
        ensures
            r.message_type@ == MessageTypeV::Vote(vote@),
            r.transmitter@ == public_key_bytes(signer@),
            r.signature@ == sign_for(signer@, MessageTypeV::Vote(vote@)),
            r.signature@.len() == 96,
            crate::crypto::signature_ok(r.signature@),
            r.transmitter@ != crate::crypto::g1_identity_bytes() ==> spec_message_verified(r@),
    {
        let transmitter = signer.public_key();
        let message_type = MessageType::Vote(vote);
        let mut message = clone_bytes(&transmitter.0);
        encode_message_type(&mut message, &message_type);
        let signature = signer.sign(&message);
        SignedMessage { message_type, transmitter, signature }
    }

    /// Wrap a new-view declaration.
    pub fn new_view(new_view: NewView, signer: &PrivateKey) -> (r: SignedMessage)
        requires
            crate::encoding::certificate_encodable(new_view.certificate@),
        ensures
            r.message_type@ == MessageTypeV::NewView(new_view@),
            r.transmitter@ == public_key_bytes(signer@),
            r.signature@ == sign_for(signer@, MessageTypeV::NewView(new_view@)),
            r.signature@.len() == 96,
            crate::crypto::signature_ok(r.signature@),
            r.transmitter@ != crate::crypto::g1_identity_bytes() ==> spec_message_verified(r@),
    {
        let transmitter = signer.public_key();
        let message_type = MessageType::NewView(new_view);
        let mut message = clone_bytes(&transmitter.0);
        encode_message_type(&mut message, &message_type);
        let signature = signer.sign(&message);
        SignedMessage { message_type, transmitter, signature }
    }
}

/// The signature that the holder of `sk` produces over the payload `m`:
/// the signed bytes are the signer's own public key bytes followed by the
/// encoded payload.
pub open spec fn sign_for(sk: Seq<u8>, m: MessageTypeV) -> Seq<u8> {
    crate::crypto::sign_bytes(sk, spec_signed_preimage(public_key_bytes(sk), m))
}

} // verus!
