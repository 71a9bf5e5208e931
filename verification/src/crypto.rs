//! Cryptographic handles with stable canonical byte encodings.
//!
//! Keys and signatures are carried as their canonical byte form; equality
//! is byte equality. The BLS operations themselves are performed by the
//! `bls_signatures` crate behind the trusted wrappers at the bottom of this
//! file. What those operations compute is given names (`sign_bytes`,
//! `public_key_bytes`, ...): each names the result of one deterministic
//! outside function on the byte encodings of its arguments.

use vstd::prelude::*;

use bls_signatures::Serialize;

verus! {

/// The bytes of `bls_signatures::PrivateKey::sign`: the compressed form of
/// the BLS signature that the private key `sk` (32 canonical bytes)
/// produces over `msg`. Signing is deterministic, so this is a function of
/// the two arguments alone.
pub uninterp spec fn sign_bytes(sk: Seq<u8>, msg: Seq<u8>) -> Seq<u8>;

/// The bytes of `bls_signatures::PrivateKey::public_key`: the compressed
/// form of the public key derived from the private key `sk`.
pub uninterp spec fn public_key_bytes(sk: Seq<u8>) -> Seq<u8>;

/// The result of `bls_signatures::verify_messages`, taken as a total
/// function over byte encodings: true iff `sig` decodes to a group element,
/// every element of `keys` decodes to a public key, and the decoded
/// signature is a valid aggregate over the pairwise-distinct `msgs` under
/// those keys.
pub uninterp spec fn bls_verified(sig: Seq<u8>, msgs: Seq<Seq<u8>>, keys: Seq<Seq<u8>>) -> bool;

/// The bytes of `bls_signatures::aggregate` on a non-empty list of decoded
/// signatures: the compressed form of their group sum.
pub uninterp spec fn aggregate_bytes(sigs: Seq<Seq<u8>>) -> Seq<u8>;

/// Whether `bls_signatures::PrivateKey::from_bytes` accepts `sk`: 32 bytes
/// encoding a canonical scalar.
pub uninterp spec fn private_key_ok(sk: Seq<u8>) -> bool;

/// Whether `bls_signatures::Signature::from_bytes` accepts `sig`: 96 bytes
/// encoding a compressed group element.
pub uninterp spec fn signature_ok(sig: Seq<u8>) -> bool;

/// The all-zero 32-byte private key, used only to derive the genesis
/// marker signature that every validator can compute on its own.
pub open spec fn zero_key_bytes() -> Seq<u8> {
    Seq::new(32, |i: int| 0u8)
}

/// Compressed encoding of the identity public key (the point at infinity):
/// a set infinity flag, then zeroes. Verification of a single message under
/// this key always fails, so contracts promising that a fresh signature
/// verifies exclude it.
pub open spec fn g1_identity_bytes() -> Seq<u8> {
    Seq::new(48, |i: int| if i == 0 { 0xc0u8 } else { 0u8 })
}

/// Byte-wise equality of two byte vectors.
pub fn bytes_eq(a: &Vec<u8>, b: &Vec<u8>) -> (r: bool)
    ensures
        r == (a@ == b@),
{
    if a.len() != b.len() {
        return false;
    }
    let mut i: usize = 0;
    while i < a.len()
        invariant
            i <= a@.len(),
            a@.len() == b@.len(),
            forall|j: int| 0 <= j < i ==> a@[j] == b@[j],
        decreases a@.len() - i,
    {
        if a[i] != b[i] {
            return false;
        }
        i += 1;
    }
    proof {
        assert(a@ =~= b@);
    }
    true
}

/// Copy a byte vector.
pub fn clone_bytes(v: &Vec<u8>) -> (r: Vec<u8>)
    ensures
        r@ == v@,
{
    let mut r: Vec<u8> = Vec::new();
    let mut i: usize = 0;
    while i < v.len()
        invariant
            i <= v@.len(),
            r@ =~= v@.take(i as int),
        decreases v@.len() - i,
    {
        r.push(v[i]);
        i += 1;
    }
    proof {
        assert(v@.take(v@.len() as int) =~= v@);
    }
    r
}

/// A fresh random byte. Relies on `rand::random`; nothing is promised of
/// the value.
#[verifier::external_body]
pub(crate) fn random_byte() -> u8 {
    rand::random()
}

/// A BLS signature handle: the canonical 96-byte compressed encoding.
/// Equality is defined over the byte encoding.
#[derive(Debug)]
pub struct Signature(pub Vec<u8>);

impl Clone for Signature {
    fn clone(&self) -> (r: Signature)
        ensures
            r@ == self@,
    {
        Signature(clone_bytes(&self.0))
    }
}

impl View for Signature {
    type V = Seq<u8>;

    open spec fn view(&self) -> Seq<u8> {
        self.0@
    }
}

impl DeepView for Signature {
    type V = Seq<u8>;

    open spec fn deep_view(&self) -> Seq<u8> {
        self.0@
    }
}

impl PartialEq for Signature {
    fn eq(&self, other: &Signature) -> (r: bool) {
        bytes_eq(&self.0, &other.0)
    }
}

impl vstd::std_specs::cmp::PartialEqSpecImpl for Signature {
    open spec fn obeys_eq_spec() -> bool {
        true
    }

    open spec fn eq_spec(&self, other: &Signature) -> bool {
        self.0@ == other.0@
    }
}

/// A BLS public key handle: the canonical 48-byte compressed encoding.
/// Equality is defined over the byte encoding.
#[derive(Debug)]
pub struct PublicKey(pub Vec<u8>);

impl Clone for PublicKey {
    fn clone(&self) -> (r: PublicKey)
        ensures
            r@ == self@,
    {
        PublicKey(clone_bytes(&self.0))
    }
}

impl View for PublicKey {
    type V = Seq<u8>;

    open spec fn view(&self) -> Seq<u8> {
        self.0@
    }
}

impl DeepView for PublicKey {
    type V = Seq<u8>;

    open spec fn deep_view(&self) -> Seq<u8> {
        self.0@
    }
}

impl PartialEq for PublicKey {
    fn eq(&self, other: &PublicKey) -> (r: bool) {
        bytes_eq(&self.0, &other.0)
    }
}

impl vstd::std_specs::cmp::PartialEqSpecImpl for PublicKey {
    open spec fn obeys_eq_spec() -> bool {
        true
    }

    open spec fn eq_spec(&self, other: &PublicKey) -> bool {
        self.0@ == other.0@
    }
}

/// A BLS private key: 32 canonical scalar bytes. Values only come from
/// `generate`, so the scalar is always one the BLS backend accepts.
#[derive(Debug)]
pub struct PrivateKey {
    bytes: Vec<u8>,
}

impl View for PrivateKey {
    type V = Seq<u8>;

    closed spec fn view(&self) -> Seq<u8> {
        self.bytes@
    }
}

impl PrivateKey {
    #[verifier::type_invariant]
    spec fn inv(self) -> bool {
        self.bytes@.len() == 32 && private_key_ok(self.bytes@)
    }

    /// Draw a fresh random private key.
    pub fn generate() -> (r: PrivateKey)
        ensures
            r@.len() == 32,
            private_key_ok(r@),
    {
        let bytes = bls_generate();
        PrivateKey { bytes }
    }

    /// The public key derived from this private key.
    pub fn public_key(&self) -> (r: PublicKey)
        ensures
            r@ == public_key_bytes(self@),
            r@.len() == 48,
    {
        proof {
            use_type_invariant(self);
        }
        PublicKey(bls_public_key(&self.bytes))
    }

    /// Sign `msg` with this key. Signing is deterministic; the fresh
    /// signature verifies under the derived public key unless the key is
    /// the identity.
    pub fn sign(&self, msg: &Vec<u8>) -> (r: Signature)
        ensures
            r@ == sign_bytes(self@, msg@),
            r@.len() == 96,
            signature_ok(r@),
            public_key_bytes(self@) != g1_identity_bytes() ==> bls_verified(
                r@,
                seq![msg@],
                seq![public_key_bytes(self@)],
            ),
    {
        proof {
            use_type_invariant(self);
        }
        Signature(bls_sign(&self.bytes, msg))
    }
}

/// The signature that an all-zero private key produces over the empty
/// message: the deterministic, network-agreed `last_blockhash` of a view-1
/// proposal.
pub fn genesis_marker() -> (r: Signature)
    ensures
        r@ == sign_bytes(zero_key_bytes(), Seq::<u8>::empty()),
        r@.len() == 96,
        signature_ok(r@),
{
    Signature(bls_genesis_sign())
}

/// Copy a key list.
pub fn clone_keys(keys: &Vec<PublicKey>) -> (r: Vec<PublicKey>)
    ensures
        r.deep_view() == keys.deep_view(),
        r@.len() == keys@.len(),
{
    let mut r: Vec<PublicKey> = Vec::new();
    let mut i: usize = 0;
    while i < keys.len()
        invariant
            i <= keys@.len(),
            r@.len() == i,
            forall|j: int| 0 <= j < i ==> r@[j]@ == keys@[j]@,
        decreases keys@.len() - i,
    {
        r.push(keys[i].clone());
        i += 1;
    }
    proof {
        assert(r.deep_view() =~~= keys.deep_view());
    }
    r
}

/// Copy a signature list.
pub fn clone_sigs(sigs: &Vec<Signature>) -> (r: Vec<Signature>)
    ensures
        r.deep_view() == sigs.deep_view(),
        r@.len() == sigs@.len(),
        sig_bytes_seq(r@) == sig_bytes_seq(sigs@),
{
    let mut r: Vec<Signature> = Vec::new();
    let mut i: usize = 0;
    while i < sigs.len()
        invariant
            i <= sigs@.len(),
            r@.len() == i,
            forall|j: int| 0 <= j < i ==> r@[j]@ == sigs@[j]@,
        decreases sigs@.len() - i,
    {
        r.push(sigs[i].clone());
        i += 1;
    }
    proof {
        assert(r.deep_view() =~~= sigs.deep_view());
        assert(sig_bytes_seq(r@) =~~= sig_bytes_seq(sigs@));
    }
    r
}

/// The byte encodings of a sequence of signatures.
pub open spec fn sig_bytes_seq(sigs: Seq<Signature>) -> Seq<Seq<u8>> {
    Seq::new(sigs.len(), |i: int| sigs[i]@)
}

/// Aggregate the given signatures into one. Returns `None` exactly when
/// the list is empty or one of the signatures does not decode to a group
/// element.
pub fn aggregate_signatures(sigs: &Vec<Signature>) -> (r: Option<Signature>)
    ensures
        r is Some <==> (sigs@.len() > 0 && forall|i: int|
            0 <= i < sigs@.len() ==> signature_ok(#[trigger] sigs@[i]@)),
        r is Some ==> r->0@ == aggregate_bytes(sig_bytes_seq(sigs@)),
        r is Some ==> r->0@.len() == 96 && signature_ok(r->0@),
{
    let mut raw: Vec<Vec<u8>> = Vec::new();
    let mut i: usize = 0;
    while i < sigs.len()
        invariant
            i <= sigs@.len(),
            raw@.len() == i,
            forall|j: int| 0 <= j < i ==> #[trigger] raw@[j]@ == sigs@[j]@,
        decreases sigs@.len() - i,
    {
        raw.push(sigs[i].0.clone());
        i += 1;
    }
    proof {
        assert(raw.deep_view() =~~= sig_bytes_seq(sigs@));
        assert forall|j: int|
            #![trigger raw@[j]]
            #![trigger sigs@[j]]
            0 <= j < raw@.len() implies (signature_ok(raw@[j]@) <==> signature_ok(
            sigs@[j]@,
        )) by {
            assert(raw@[j]@ == sigs@[j]@);
        }
    }
    match bls_aggregate(&raw) {
        Some(bytes) => Some(Signature(bytes)),
        None => None,
    }
}

/// Verify one signature over one message under one public key, all given
/// by their canonical bytes.
pub fn verify_one(sig: &Signature, msg: &Vec<u8>, key: &PublicKey) -> (r: bool)
    ensures
        r == bls_verified(sig@, seq![msg@], seq![key@]),
        r ==> signature_ok(sig@),
{
    let mut msgs: Vec<Vec<u8>> = Vec::new();
    msgs.push(msg.clone());
    let mut keys: Vec<Vec<u8>> = Vec::new();
    keys.push(key.0.clone());
    proof {
        assert(msgs.deep_view() =~~= seq![msg@]);
        assert(keys.deep_view() =~~= seq![key@]);
    }
    bls_verify(&sig.0, &msgs, &keys)
}

/// Verify an aggregated signature against positionally paired messages and
/// public keys, all given by their canonical bytes.
pub fn verify_aggregate(sig: &Signature, msgs: &Vec<Vec<u8>>, keys: &Vec<Vec<u8>>) -> (r: bool)
    ensures
        r == bls_verified(sig@, msgs.deep_view(), keys.deep_view()),
        r ==> signature_ok(sig@),
{
    bls_verify(&sig.0, msgs, keys)
}

/// Relies on `bls_signatures::PrivateKey::generate` and the byte round
/// trip of its `Serialize` impl: a freshly generated key is 32 bytes that
/// `from_bytes` accepts again. The value is random, so nothing more is
/// promised.
#[verifier::external_body]
fn bls_generate() -> (r: Vec<u8>)
    ensures
        r@.len() == 32,
        private_key_ok(r@),
{
    bls_signatures::PrivateKey::generate(&mut rand::thread_rng()).as_bytes()
}

/// Relies on `bls_signatures::PrivateKey::{from_bytes, public_key}`:
/// `public_key` computes the generator scaled by the key, deterministically,
/// and its compressed encoding is 48 bytes.
#[verifier::external_body]
fn bls_public_key(sk: &Vec<u8>) -> (r: Vec<u8>)
    requires
        private_key_ok(sk@),
    ensures
        r@ == public_key_bytes(sk@),
        r@.len() == 48,
{
    bls_signatures::PrivateKey::from_bytes(sk).unwrap().public_key().as_bytes()
}

/// Relies on `bls_signatures::PrivateKey::{from_bytes, sign}` and
/// `verify_messages`: `sign` hashes the message to the curve and scales it
/// by the key, deterministically; the compressed result is 96 bytes that
/// decode back; and `verify_messages` accepts a fresh signature over a
/// single message under the signer's own key whenever that key is not the
/// identity point.
#[verifier::external_body]
fn bls_sign(sk: &Vec<u8>, msg: &Vec<u8>) -> (r: Vec<u8>)
    requires
        private_key_ok(sk@),
    ensures
        r@ == sign_bytes(sk@, msg@),
        r@.len() == 96,
        signature_ok(r@),
        public_key_bytes(sk@) != g1_identity_bytes() ==> bls_verified(
            r@,
            seq![msg@],
            seq![public_key_bytes(sk@)],
        ),
{
    bls_signatures::PrivateKey::from_bytes(sk).unwrap().sign(msg).as_bytes()
}

/// Relies on `bls_signatures::verify_messages`, with the decoding of the
/// signature and key bytes folded in: bytes that do not decode verify as
/// false, otherwise the result is the pairing check itself. The whole is a
/// deterministic function of the byte arguments, named `bls_verified`.
#[verifier::external_body]
fn bls_verify(sig: &Vec<u8>, msgs: &Vec<Vec<u8>>, keys: &Vec<Vec<u8>>) -> (r: bool)
    ensures
        r == bls_verified(sig@, msgs.deep_view(), keys.deep_view()),
        r ==> signature_ok(sig@),
{
    let sig_r = bls_signatures::Signature::from_bytes(sig);
    let keys_r: Result<Vec<bls_signatures::PublicKey>, _> =
        keys.iter().map(|k| bls_signatures::PublicKey::from_bytes(k)).collect();
    let msgs_s: Vec<&[u8]> = msgs.iter().map(|m| m.as_slice()).collect();
    match (sig_r, keys_r) {
        (Ok(s), Ok(pks)) => bls_signatures::verify_messages(&s, &msgs_s, &pks),
        _ => false,
    }
}

/// Relies on `bls_signatures::aggregate`: on a non-empty list of decoded
/// signatures it returns their group sum, deterministically; on an empty
/// list it errs. Bytes that do not decode yield `None` here.
#[verifier::external_body]
fn bls_aggregate(sigs: &Vec<Vec<u8>>) -> (r: Option<Vec<u8>>)
    ensures
        r is Some <==> (sigs@.len() > 0 && forall|i: int|
            0 <= i < sigs@.len() ==> signature_ok(#[trigger] sigs@[i]@)),
        r is Some ==> r->0@ == aggregate_bytes(sigs.deep_view()),
        r is Some ==> r->0@.len() == 96 && signature_ok(r->0@),
{
    let parsed: Result<Vec<bls_signatures::Signature>, _> =
        sigs.iter().map(|s| bls_signatures::Signature::from_bytes(s)).collect();
    match parsed {
        Ok(list) => bls_signatures::aggregate(&list).map(|a| a.as_bytes()).ok(),
        Err(_) => None,
    }
}

/// Relies on `bls_signatures::PrivateKey::{from_bytes, sign}`: the all-zero
/// 32 bytes encode the zero scalar, which `from_bytes` accepts, and signing
/// is deterministic, so every validator computes the same marker.
#[verifier::external_body]
fn bls_genesis_sign() -> (r: Vec<u8>)
    ensures
        r@ == sign_bytes(zero_key_bytes(), Seq::<u8>::empty()),
        r@.len() == 96,
        signature_ok(r@),
{
    let key = bls_signatures::PrivateKey::from_bytes(&[0u8; 32]).unwrap();
    key.sign(Vec::<u8>::new()).as_bytes()
}

} // verus!

