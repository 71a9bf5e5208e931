//! Transactions are opaque to consensus: payload bytes plus a detached
//! signature and signing key. The core never predicates agreement on
//! their validity; `verify` is offered to the embedding host.

use vstd::prelude::*;

use crate::crypto::{
    bls_verified, clone_bytes, g1_identity_bytes, public_key_bytes, random_byte, PrivateKey,
    PublicKey, Signature,
};

verus! {

/// Mathematical model of a [`Transaction`].
pub ghost struct TransactionV {
    pub message: Seq<u8>,
    pub signature: Seq<u8>,
    pub pubkey: Seq<u8>,
}

/// Payload bytes plus a detached signature by `pubkey` over them.
#[derive(Debug)]
pub struct Transaction {
    pub message: Vec<u8>,
    pub signature: Signature,
    pub pubkey: PublicKey,
}

impl View for Transaction {
    type V = TransactionV;

    open spec fn view(&self) -> TransactionV {
        TransactionV {
            message: self.message@,
            signature: self.signature@,
            pubkey: self.pubkey@,
        }
    }
}

impl DeepView for Transaction {
    type V = TransactionV;

    open spec fn deep_view(&self) -> TransactionV {
        self@
    }
}

impl Clone for Transaction {
    fn clone(&self) -> (r: Transaction)
        ensures
            r@ == self@,
    {
        Transaction {
            message: clone_bytes(&self.message),
            signature: self.signature.clone(),
            pubkey: self.pubkey.clone(),
        }
    }
}

/// Whether the transaction's detached signature verifies over its payload
/// under its signing key.
pub open spec fn spec_transaction_verified(t: TransactionV) -> bool {
    bls_verified(t.signature, seq![t.message], seq![t.pubkey])
}

/// The length of the random payload that the two sample constructors draw.
pub const SAMPLE_PAYLOAD_LEN: usize = 128;

impl Transaction {
    /// Verifies the internal signature.
    pub fn verify(&self) -> (r: bool)
        ensures
            r == spec_transaction_verified(self@),
    {
        crate::crypto::verify_one(&self.signature, &self.message, &self.pubkey)
    }

    /// A fresh random transaction whose signature verifies (unless the
    /// freshly drawn key happens to derive the identity public key, which
    /// single-message BLS verification rejects).
    pub fn new_valid() -> (r: Transaction)
        ensures
            r@.message.len() == SAMPLE_PAYLOAD_LEN,
            r@.pubkey != g1_identity_bytes() ==> spec_transaction_verified(r@),
    {
        let user = PrivateKey::generate();
        let message = random_payload();
        let signature = user.sign(&message);
        let pubkey = user.public_key();
        Transaction { message, signature, pubkey }
    }

    /// A fresh random transaction whose signature is 96 zero bytes: not a
    /// valid group encoding, so `verify` returns false on it.
    pub fn new_invalid() -> (r: Transaction)
        ensures
            r@.message.len() == SAMPLE_PAYLOAD_LEN,
            r@.signature == Seq::new(96, |i: int| 0u8),
    {
        let user = PrivateKey::generate();
        let message = random_payload();
        let mut zeroes: Vec<u8> = Vec::new();
        let mut i: usize = 0;
        while i < 96
            invariant
                i <= 96,
                zeroes@ =~= Seq::new(i as nat, |j: int| 0u8),
            decreases 96 - i,
        {
            zeroes.push(0u8);
            i += 1;
        }
        let pubkey = user.public_key();
        Transaction { message, signature: Signature(zeroes), pubkey }
    }
}

/// A fresh random payload of [`SAMPLE_PAYLOAD_LEN`] bytes.
fn random_payload() -> (r: Vec<u8>)
    ensures
        r@.len() == SAMPLE_PAYLOAD_LEN,
{
    let mut out: Vec<u8> = Vec::new();
    let mut i: usize = 0;
    while i < SAMPLE_PAYLOAD_LEN
        invariant
            i <= SAMPLE_PAYLOAD_LEN,
            out@.len() == i,
        decreases SAMPLE_PAYLOAD_LEN - i,
    {
        out.push(random_byte());
        i += 1;
    }
    out
}

} // verus!
