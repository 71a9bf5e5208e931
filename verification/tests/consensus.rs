use pfhs::certificates::QuorumCertificate;
use pfhs::cluster::{cluster_identities, name_gen};
use pfhs::crypto::{genesis_marker, PrivateKey, PublicKey, Signature};
use pfhs::endpoint::{Endpoint, Primary, ProposalOutcome};
use pfhs::message::{MessageType, NewView, SignedMessage, Vote};

fn build_endpoints(n: u64) -> Vec<Endpoint> {
    let identities = cluster_identities(n);
    let keys: Vec<PublicKey> = identities.iter().map(|id| id.public_key.clone()).collect();
    identities
        .into_iter()
        .enumerate()
        .map(|(i, id)| {
            let peers: Vec<PublicKey> = keys
                .iter()
                .enumerate()
                .filter(|(j, _)| *j != i)
                .map(|(_, k)| k.clone())
                .collect();
            Endpoint::new_genesis(id, peers)
        })
        .collect()
}

fn same_primary(a: &Primary, b: &Primary) -> bool {
    match (a, b) {
        (Primary::OurTurn, Primary::OurTurn) => true,
        (Primary::Peer(x), Primary::Peer(y)) => x == y,
        _ => false,
    }
}

#[test]
fn supermajority_thresholds() {
    for (n, threshold) in [(4u64, 3usize), (7, 5), (10, 7)] {
        let eps = build_endpoints(n);
        for k in 0..=(n as usize) {
            assert_eq!(eps[0].is_supermajority(k), k >= threshold, "n={n} k={k}");
        }
    }
}

#[test]
fn leader_rotation_is_periodic() {
    let eps = build_endpoints(4);
    for v in 0..12u64 {
        let a = eps[2].primary_for_view(v);
        let b = eps[2].primary_for_view(v + 4);
        assert!(same_primary(&a, &b), "view {v}");
    }
}

#[test]
fn single_validator_is_always_leader() {
    let eps = build_endpoints(1);
    for v in 0..10u64 {
        assert!(matches!(eps[0].primary_for_view(v), Primary::OurTurn));
    }
}

#[test]
fn validator_names_follow_the_scheme() {
    assert_eq!(name_gen(0).as_str(), "alice0");
    assert_eq!(name_gen(1).as_str(), "bob0");
    assert_eq!(name_gen(2).as_str(), "carol0");
    assert_eq!(name_gen(3).as_str(), "dave0");
    assert_eq!(name_gen(4).as_str(), "eric0");
    assert_eq!(name_gen(5).as_str(), "alice1");
    assert_eq!(name_gen(12).as_str(), "carol2");
}

fn happy_qc(
    eps: &Vec<Endpoint>,
    signer_idx: &[usize],
    vote: Vote,
    producer: usize,
) -> pfhs::certificates::QC {
    let sigs: Vec<Signature> = signer_idx
        .iter()
        .map(|i| SignedMessage::vote(vote.clone(), &eps[*i].identity.private_key).signature)
        .collect();
    let signers: Vec<PublicKey> =
        signer_idx.iter().map(|i| eps[*i].identity.public_key.clone()).collect();
    match QuorumCertificate::from_votes(
        vote,
        &sigs,
        signers,
        &eps[producer].identity.private_key,
    ) {
        Some(QuorumCertificate::Happy(qc)) => qc,
        _ => panic!("vote signatures must aggregate"),
    }
}

#[test]
fn happy_certificate_from_supermajority_is_valid() {
    let eps = build_endpoints(4);
    let vote = Vote { view: 1, blockhash: genesis_marker() };
    let qc = happy_qc(&eps, &[0, 1, 2], vote, 1);
    assert!(qc.valid(&eps[0].quorum));
}

#[test]
fn flipping_a_signer_invalidates_the_certificate() {
    let eps = build_endpoints(4);
    let vote = Vote { view: 1, blockhash: genesis_marker() };
    let mut qc = happy_qc(&eps, &[0, 1, 2], vote, 1);
    qc.signers[0] = eps[3].identity.public_key.clone();
    assert!(!qc.valid(&eps[0].quorum));
}

#[test]
fn flipping_the_vote_invalidates_the_certificate() {
    let eps = build_endpoints(4);
    let vote = Vote { view: 1, blockhash: genesis_marker() };
    let mut qc = happy_qc(&eps, &[0, 1, 2], vote, 1);
    qc.vote.view = 2;
    assert!(!qc.valid(&eps[0].quorum));
}

#[test]
fn too_few_signers_invalidate_the_certificate() {
    let eps = build_endpoints(4);
    let vote = Vote { view: 1, blockhash: genesis_marker() };
    let qc = happy_qc(&eps, &[0, 1], vote, 1);
    assert!(!qc.valid(&eps[0].quorum));
}

#[test]
fn signer_outside_the_quorum_invalidates_the_certificate() {
    let eps = build_endpoints(4);
    let outsider = PrivateKey::generate();
    let vote = Vote { view: 1, blockhash: genesis_marker() };
    let sigs: Vec<Signature> = vec![
        SignedMessage::vote(vote.clone(), &eps[0].identity.private_key).signature,
        SignedMessage::vote(vote.clone(), &eps[1].identity.private_key).signature,
        SignedMessage::vote(vote.clone(), &outsider).signature,
    ];
    let signers = vec![
        eps[0].identity.public_key.clone(),
        eps[1].identity.public_key.clone(),
        outsider.public_key(),
    ];
    let qc = match QuorumCertificate::from_votes(
        vote,
        &sigs,
        signers,
        &eps[1].identity.private_key,
    ) {
        Some(QuorumCertificate::Happy(qc)) => qc,
        _ => panic!("vote signatures must aggregate"),
    };
    assert!(!qc.valid(&eps[0].quorum));
}

fn sad_aggqc(
    eps: &Vec<Endpoint>,
    signer_idx: &[usize],
    inner: pfhs::certificates::QC,
    view: u64,
) -> pfhs::certificates::AggQC {
    let etas: Vec<NewView> = signer_idx
        .iter()
        .map(|_| NewView { view, certificate: QuorumCertificate::Happy(inner.clone()) })
        .collect();
    // Each signer's commitment is to its own high QC's aggregated
    // signature: its key bytes, then those signature bytes length-prefixed.
    let sigs: Vec<Signature> = signer_idx
        .iter()
        .map(|i| {
            let mut preimage = eps[*i].identity.public_key.0.clone();
            preimage.extend_from_slice(&borsh::to_vec(&inner.aggregated_signature.0).unwrap());
            eps[*i].identity.private_key.sign(&preimage)
        })
        .collect();
    let signers: Vec<PublicKey> =
        signer_idx.iter().map(|i| eps[*i].identity.public_key.clone()).collect();
    match QuorumCertificate::from_newviews(etas, sigs, signers, &eps[0].identity.private_key) {
        Some(QuorumCertificate::Sad(a)) => a,
        _ => panic!("new-view signatures must aggregate"),
    }
}

#[test]
fn sad_certificate_with_valid_high_qc_is_valid() {
    let eps = build_endpoints(4);
    let vote = Vote { view: 1, blockhash: genesis_marker() };
    let inner = happy_qc(&eps, &[0, 1, 2], vote, 1);
    let aggqc = sad_aggqc(&eps, &[0, 1, 2], inner, 2);
    let high = aggqc.find_high_qc().expect("a high QC is embedded");
    assert_eq!(high.vote.view, 1);
    assert!(aggqc.valid(&eps[0].quorum));
}

#[test]
fn sad_certificate_with_invalid_high_qc_is_invalid() {
    let eps = build_endpoints(4);
    let vote = Vote { view: 1, blockhash: genesis_marker() };
    // An under-subscribed inner certificate: its signers are no
    // supermajority, so the high QC fails validation.
    let inner = happy_qc(&eps, &[0, 1], vote, 1);
    let aggqc = sad_aggqc(&eps, &[0, 1, 2], inner, 2);
    assert!(!aggqc.valid(&eps[0].quorum));
}

#[test]
fn sad_certificate_without_any_high_qc_is_invalid() {
    let eps = build_endpoints(4);
    let etas: Vec<NewView> = (0..3)
        .map(|_| NewView { view: 2, certificate: QuorumCertificate::Genesis })
        .collect();
    let sigs: Vec<Signature> = (0..3)
        .map(|i: usize| {
            SignedMessage::new_view(etas[i].clone(), &eps[i].identity.private_key).signature
        })
        .collect();
    let signers: Vec<PublicKey> =
        (0..3).map(|i: usize| eps[i].identity.public_key.clone()).collect();
    let aggqc = match QuorumCertificate::from_newviews(
        etas,
        sigs,
        signers,
        &eps[0].identity.private_key,
    ) {
        Some(QuorumCertificate::Sad(a)) => a,
        _ => panic!("new-view signatures must aggregate"),
    };
    assert!(aggqc.find_high_qc().is_none());
    assert!(!aggqc.valid(&eps[0].quorum));
}

#[test]
fn forged_vote_is_dropped_before_the_tally() {
    let mut eps = build_endpoints(4);
    for ep in eps.iter_mut() {
        ep.advance_view();
        ep.advance_view();
    }
    let vote = Vote { view: 1, blockhash: genesis_marker() };
    let mut msg = SignedMessage::vote(vote, &eps[0].identity.private_key);
    let mut bytes = msg.signature.0.clone();
    bytes[1] ^= 0xff;
    msg.signature = Signature(bytes);
    let mut collector = eps[2].begin_primary_collection();
    let built = eps[2].primary_handle_message(&mut collector, msg);
    assert!(built.is_none());
    assert!(collector.votes.is_empty());
}

#[test]
fn well_signed_vote_from_outside_the_quorum_is_dropped() {
    let mut eps = build_endpoints(4);
    for ep in eps.iter_mut() {
        ep.advance_view();
        ep.advance_view();
    }
    let outsider = PrivateKey::generate();
    let vote = Vote { view: 1, blockhash: genesis_marker() };
    let msg = SignedMessage::vote(vote, &outsider);
    assert!(msg.verify());
    let mut collector = eps[2].begin_primary_collection();
    let built = eps[2].primary_handle_message(&mut collector, msg);
    assert!(built.is_none());
    assert!(collector.votes.is_empty());
}

#[test]
fn first_vote_group_reaching_supermajority_wins() {
    let mut eps = build_endpoints(4);
    for ep in eps.iter_mut() {
        ep.advance_view();
        ep.advance_view();
    }
    let sk = PrivateKey::generate();
    let h1 = sk.sign(&vec![1u8]);
    let h2 = sk.sign(&vec![2u8]);
    let vote1 = Vote { view: 1, blockhash: h1.clone() };
    let vote2 = Vote { view: 1, blockhash: h2.clone() };
    // The leader of view 2 is validator 2; its peers are 0, 1 and 3.
    let mut collector = eps[2].begin_primary_collection();
    let m0 = SignedMessage::vote(vote1.clone(), &eps[0].identity.private_key);
    assert!(eps[2].primary_handle_message(&mut collector, m0).is_none());
    let m1 = SignedMessage::vote(vote2.clone(), &eps[1].identity.private_key);
    assert!(eps[2].primary_handle_message(&mut collector, m1).is_none());
    // A repeated vote from the same signer changes nothing.
    let m0_again = SignedMessage::vote(vote1.clone(), &eps[0].identity.private_key);
    assert!(eps[2].primary_handle_message(&mut collector, m0_again).is_none());
    assert_eq!(collector.votes.len(), 2);
    assert_eq!(collector.votes[0].signers.len(), 1);
    // An equivocating validator contributes to both groups.
    let m1_equiv = SignedMessage::vote(vote1.clone(), &eps[1].identity.private_key);
    assert!(eps[2].primary_handle_message(&mut collector, m1_equiv).is_none());
    let m3 = SignedMessage::vote(vote1.clone(), &eps[3].identity.private_key);
    let built = eps[2].primary_handle_message(&mut collector, m3);
    match built {
        Some(QuorumCertificate::Happy(qc)) => {
            assert_eq!(qc.vote.blockhash, h1);
            assert_eq!(qc.signers.len(), 3);
            assert_eq!(qc.signers[0], eps[0].identity.public_key);
            assert_eq!(qc.signers[1], eps[1].identity.public_key);
            assert_eq!(qc.signers[2], eps[3].identity.public_key);
        },
        _ => panic!("the first group to reach a supermajority builds the certificate"),
    }
}

#[test]
fn four_validators_agree_on_committed_blocks() {
    let n: usize = 4;
    let mut eps = build_endpoints(n as u64);
    let keys: Vec<PublicKey> = eps.iter().map(|e| e.identity.public_key.clone()).collect();
    let mut inboxes: Vec<Vec<SignedMessage>> = vec![vec![], vec![], vec![], vec![]];
    let mut committed: Vec<Vec<(u64, Vec<u8>)>> = vec![vec![], vec![], vec![], vec![]];

    for view in 1..=8u64 {
        for ep in eps.iter_mut() {
            ep.advance_view();
        }
        let leader = (view % n as u64) as usize;
        let certificate = if view == 1 {
            QuorumCertificate::Genesis
        } else {
            let mut collector = eps[leader].begin_primary_collection();
            let pending: Vec<SignedMessage> = inboxes[leader].drain(..).collect();
            let mut built = None;
            for m in pending {
                if built.is_none() {
                    built = eps[leader].primary_handle_message(&mut collector, m);
                }
            }
            built.expect("a supermajority of votes for the previous view arrives")
        };
        if view >= 2 {
            match &certificate {
                QuorumCertificate::Happy(qc) => assert_eq!(qc.vote.view, view - 1),
                _ => panic!("the fault-free run stays on the happy path"),
            }
        }
        let proposal = eps[leader].primary_propose(certificate);
        for i in 0..n {
            if i == leader {
                continue;
            }
            match eps[i].nonprimary_handle_message(proposal.clone()) {
                ProposalOutcome::Voted { send, committed: newly } => {
                    for rec in &newly {
                        committed[i].push((rec.height, rec.blockhash.0.clone()));
                    }
                    if let Some((target, vote_msg)) = send {
                        let dest = keys.iter().position(|k| *k == target).unwrap();
                        inboxes[dest].push(vote_msg);
                    }
                },
                ProposalOutcome::Ignored => panic!("a fault-free proposal must be accepted"),
            }
        }
        // Record queues stay height-monotone at every validator.
        for ep in eps.iter() {
            let heights: Vec<u64> = ep.recent_views.iter().map(|r| r.height).collect();
            for w in heights.windows(2) {
                assert!(w[0] < w[1]);
            }
        }
    }

    // Nothing commits before the first three-chain completes at view 3,
    // and by view 8 every validator has committed several heights.
    for i in 0..n {
        assert!(committed[i].iter().all(|(h, _)| *h >= 1));
        assert!(committed[i].len() >= 4, "validator {i} committed {}", committed[i].len());
        let heights: Vec<u64> = committed[i].iter().map(|(h, _)| *h).collect();
        for w in heights.windows(2) {
            assert!(w[0] < w[1]);
        }
    }
    // Agreement: any two validators that committed a block at the same
    // height committed the identical block.
    for a in 0..n {
        for b in 0..n {
            for (ha, hash_a) in &committed[a] {
                for (hb, hash_b) in &committed[b] {
                    if ha == hb {
                        assert_eq!(hash_a, hash_b, "height {ha}");
                    }
                }
            }
        }
    }
}

#[test]
fn single_validator_first_view_produces_a_proposal() {
    let mut eps = build_endpoints(1);
    eps[0].advance_view();
    assert!(matches!(eps[0].primary_for_view(1), Primary::OurTurn));
    let proposal = eps[0].primary_propose(QuorumCertificate::Genesis);
    assert!(proposal.verify());
    assert_eq!(eps[0].recent_views.len(), 1);
    assert_eq!(eps[0].recent_views[0].height, 1);
    match &proposal.message_type {
        MessageType::Block(b) => {
            assert_eq!(b.view, 1);
            assert_eq!(b.last_blockhash, genesis_marker());
        },
        _ => panic!("a proposal is a block message"),
    }
}

#[test]
fn happy_pipeline_safety_requires_fresh_direct_child() {
    let eps = build_endpoints(4);
    let vote = Vote { view: 4, blockhash: genesis_marker() };
    let qc = happy_qc(&eps, &[0, 1, 2], vote, 1);
    let block = pfhs::block::Block {
        transactions: vec![],
        certificate: QuorumCertificate::Happy(qc.clone()),
        last_blockhash: genesis_marker(),
        view: 5,
    };
    assert!(pfhs::endpoint::pipeline_safe_block_qc(&block, &qc, 5));
    // Stale: the proposal's view is behind the validator.
    assert!(!pfhs::endpoint::pipeline_safe_block_qc(&block, &qc, 6));
    // Not the direct child of the certified view.
    let mut skipped = block;
    skipped.view = 6;
    assert!(!pfhs::endpoint::pipeline_safe_block_qc(&skipped, &qc, 5));
}

#[test]
fn sad_pipeline_safety_chains_to_the_high_qc_block() {
    let eps = build_endpoints(4);
    let parent_hash = genesis_marker();
    let vote = Vote { view: 1, blockhash: parent_hash.clone() };
    let inner = happy_qc(&eps, &[0, 1, 2], vote, 1);
    let aggqc = sad_aggqc(&eps, &[0, 1, 2], inner, 3);
    let chained = pfhs::block::Block {
        transactions: vec![],
        certificate: QuorumCertificate::Sad(aggqc.clone()),
        last_blockhash: parent_hash,
        view: 3,
    };
    assert!(pfhs::endpoint::pipeline_safe_block_aggqc(&chained, &aggqc, 3));
    let sk = PrivateKey::generate();
    let mut forked = chained;
    forked.last_blockhash = sk.sign(&vec![9u8]);
    assert!(!pfhs::endpoint::pipeline_safe_block_aggqc(&forked, &aggqc, 3));
}

#[test]
fn nonprimary_ignores_a_late_genesis_proposal() {
    let mut eps = build_endpoints(4);
    for ep in eps.iter_mut() {
        ep.advance_view();
        ep.advance_view();
    }
    let block = pfhs::block::Block {
        transactions: vec![],
        certificate: QuorumCertificate::Genesis,
        last_blockhash: genesis_marker(),
        view: 2,
    };
    let proposal = SignedMessage::block(block, &eps[2].identity.private_key);
    match eps[0].nonprimary_handle_message(proposal) {
        ProposalOutcome::Ignored => {},
        _ => panic!("a genesis certificate only justifies the first view"),
    }
    assert!(eps[0].recent_views.is_empty());
}

#[test]
fn nonprimary_ignores_an_invalid_certificate() {
    let mut eps = build_endpoints(4);
    for ep in eps.iter_mut() {
        ep.advance_view();
        ep.advance_view();
    }
    let vote = Vote { view: 1, blockhash: genesis_marker() };
    let qc = happy_qc(&eps, &[0, 1], vote, 1);
    let block = pfhs::block::Block {
        transactions: vec![],
        certificate: QuorumCertificate::Happy(qc),
        last_blockhash: genesis_marker(),
        view: 2,
    };
    let proposal = SignedMessage::block(block, &eps[2].identity.private_key);
    match eps[0].nonprimary_handle_message(proposal) {
        ProposalOutcome::Ignored => {},
        _ => panic!("an under-subscribed certificate justifies nothing"),
    }
    assert!(eps[0].recent_views.is_empty());
}
