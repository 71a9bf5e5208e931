use pfhs::block::Block;
use pfhs::certificates::QuorumCertificate;
use pfhs::crypto::{aggregate_signatures, genesis_marker, PrivateKey, PublicKey, Signature};
use pfhs::encoding::{encode_pubkeys, encode_vote, push_u32, push_u64};
use pfhs::message::{MessageType, SignedMessage, Vote};
use pfhs::transaction::Transaction;

fn sample_vote(view: u64) -> Vote {
    Vote { view, blockhash: genesis_marker() }
}

#[test]
fn genesis_marker_is_deterministic() {
    let a = genesis_marker();
    let b = genesis_marker();
    assert_eq!(a, b);
    assert_eq!(a.0.len(), 96);
}

#[test]
fn u64_encoding_matches_borsh() {
    for x in [0u64, 1, 7, 255, 256, 0xdead_beef, u64::MAX] {
        let mut buf: Vec<u8> = Vec::new();
        push_u64(&mut buf, x);
        assert_eq!(buf, borsh::to_vec(&x).unwrap());
    }
}

#[test]
fn u32_encoding_matches_borsh() {
    for x in [0u32, 1, 300, u32::MAX] {
        let mut buf: Vec<u8> = Vec::new();
        push_u32(&mut buf, x);
        assert_eq!(buf, borsh::to_vec(&x).unwrap());
    }
}

#[test]
fn vote_encoding_is_view_then_raw_blockhash() {
    let vote = sample_vote(513);
    let mut buf: Vec<u8> = Vec::new();
    encode_vote(&mut buf, &vote);
    let mut expected = borsh::to_vec(&513u64).unwrap();
    expected.extend_from_slice(&vote.blockhash.0);
    assert_eq!(buf, expected);
}

#[test]
fn pubkey_list_encoding_is_length_prefixed() {
    let sk = PrivateKey::generate();
    let pk = sk.public_key();
    let mut buf: Vec<u8> = Vec::new();
    let keys = vec![pk.clone(), pk.clone()];
    encode_pubkeys(&mut buf, &keys);
    let mut expected = borsh::to_vec(&2u32).unwrap();
    expected.extend_from_slice(&pk.0);
    expected.extend_from_slice(&pk.0);
    assert_eq!(buf, expected);
}

#[test]
fn signed_vote_verifies() {
    let sk = PrivateKey::generate();
    let msg = SignedMessage::vote(sample_vote(3), &sk);
    assert!(msg.verify());
}

#[test]
fn signed_block_verifies() {
    let sk = PrivateKey::generate();
    let block = Block {
        transactions: vec![],
        certificate: QuorumCertificate::Genesis,
        last_blockhash: genesis_marker(),
        view: 1,
    };
    let msg = SignedMessage::block(block, &sk);
    assert!(msg.verify());
}

#[test]
fn signed_new_view_verifies() {
    let sk = PrivateKey::generate();
    let nv = pfhs::message::NewView { view: 4, certificate: QuorumCertificate::Genesis };
    let msg = SignedMessage::new_view(nv, &sk);
    assert!(msg.verify());
}

#[test]
fn tampered_message_type_fails_verify() {
    let sk = PrivateKey::generate();
    let mut msg = SignedMessage::vote(sample_vote(3), &sk);
    msg.message_type = MessageType::Vote(sample_vote(4));
    assert!(!msg.verify());
}

#[test]
fn tampered_transmitter_fails_verify() {
    let sk = PrivateKey::generate();
    let other = PrivateKey::generate();
    let mut msg = SignedMessage::vote(sample_vote(3), &sk);
    msg.transmitter = other.public_key();
    assert!(!msg.verify());
}

#[test]
fn tampered_signature_fails_verify() {
    let sk = PrivateKey::generate();
    let mut msg = SignedMessage::vote(sample_vote(3), &sk);
    let mut bytes = msg.signature.0.clone();
    bytes[0] ^= 0x01;
    msg.signature = Signature(bytes);
    assert!(!msg.verify());
}

#[test]
fn aggregate_of_nothing_is_none() {
    let sigs: Vec<Signature> = vec![];
    assert!(aggregate_signatures(&sigs).is_none());
}

#[test]
fn aggregate_of_garbage_is_none() {
    let sigs = vec![Signature(vec![0u8; 96])];
    assert!(aggregate_signatures(&sigs).is_none());
}

#[test]
fn aggregate_of_one_is_itself() {
    let sk = PrivateKey::generate();
    let sig = SignedMessage::vote(sample_vote(1), &sk).signature;
    let agg = aggregate_signatures(&vec![sig.clone()]).unwrap();
    assert_eq!(agg, sig);
}

#[test]
fn valid_transaction_verifies() {
    let t = Transaction::new_valid();
    assert!(t.verify());
}

#[test]
fn invalid_transaction_fails_verify() {
    let t = Transaction::new_invalid();
    assert!(!t.verify());
}

#[test]
fn key_equality_is_byte_equality() {
    let sk = PrivateKey::generate();
    let pk = sk.public_key();
    assert_eq!(pk, PublicKey(pk.0.clone()));
    let other = PrivateKey::generate().public_key();
    assert!(pk != other);
}
