use sp_core::Pair;
use vstreams::hash::Hash256;
use vstreams::interceptor::{
    check_block, decide_import, extracted_event_ids, finish_import, needs_event_check,
    provide_block_proofs, ImportDecision, ImportError,
};
use vstreams::quorum::{quorum_threshold, verify_proofs, EventProofs, ProofBundle, WitnessProof};
use vstreams::registry::{DeferAction, DefferedBlocks, FoundOutcome};
use vstreams::signature::VerifyError;

fn pair(seed: u8) -> sp_core::sr25519::Pair {
    sp_core::sr25519::Pair::from_seed(&[seed; 32])
}

fn public(p: &sp_core::sr25519::Pair) -> Vec<u8> {
    p.public().0.to_vec()
}

fn hash(b: u8) -> Hash256 {
    Hash256::from_slice(&vec![b; 32]).unwrap()
}

fn witness(p: &sp_core::sr25519::Pair, event: &Hash256) -> WitnessProof {
    WitnessProof { validator: public(p), signature: p.sign(&event.bytes).0.to_vec() }
}

fn bundle(event: &Hash256, signers: &[&sp_core::sr25519::Pair]) -> ProofBundle {
    let proofs = signers.iter().map(|p| witness(p, event)).collect();
    ProofBundle { entries: vec![EventProofs { event: event.clone(), proofs }] }
}

fn authorities() -> (Vec<sp_core::sr25519::Pair>, Vec<Vec<u8>>) {
    let pairs: Vec<_> = (1u8..=4).map(pair).collect();
    let keys = pairs.iter().map(public).collect();
    (pairs, keys)
}

#[test]
fn threshold_follows_byzantine_formula() {
    assert_eq!(quorum_threshold(1), 1);
    assert_eq!(quorum_threshold(2), 1);
    assert_eq!(quorum_threshold(3), 2);
    assert_eq!(quorum_threshold(4), 3);
    assert_eq!(quorum_threshold(5), 3);
    assert_eq!(quorum_threshold(6), 4);
    assert_eq!(quorum_threshold(7), 5);
    assert_eq!(quorum_threshold(10), 7);
}

#[test]
fn quorum_of_three_out_of_four_verifies() {
    let (p, keys) = authorities();
    let e = hash(7);
    let b = bundle(&e, &[&p[0], &p[1], &p[2]]);
    assert_eq!(verify_proofs(&b, &vec![e.clone()], &keys), Ok(true));
}

#[test]
fn two_out_of_four_is_insufficient() {
    let (p, keys) = authorities();
    let e = hash(7);
    let b = bundle(&e, &[&p[0], &p[1]]);
    assert_eq!(verify_proofs(&b, &vec![e.clone()], &keys), Ok(false));
}

#[test]
fn verification_is_deterministic() {
    let (p, keys) = authorities();
    let e = hash(7);
    let b = bundle(&e, &[&p[0], &p[1], &p[2]]);
    let first = verify_proofs(&b, &vec![e.clone()], &keys);
    let second = verify_proofs(&b, &vec![e.clone()], &keys);
    assert_eq!(first, second);
    let short = bundle(&e, &[&p[0]]);
    assert_eq!(verify_proofs(&short, &vec![e.clone()], &keys), verify_proofs(&short, &vec![e.clone()], &keys));
}

#[test]
fn outside_signer_fails_despite_quorum() {
    let (p, keys) = authorities();
    let outsider = pair(9);
    let e = hash(7);
    let b = bundle(&e, &[&p[0], &p[1], &p[2], &p[3], &outsider]);
    assert_eq!(verify_proofs(&b, &vec![e.clone()], &keys), Ok(false));
}

#[test]
fn forged_signature_fails() {
    let (p, keys) = authorities();
    let e = hash(7);
    let other = hash(8);
    let mut b = bundle(&e, &[&p[0], &p[1]]);
    b.entries[0].proofs.push(witness(&p[2], &other));
    assert_eq!(verify_proofs(&b, &vec![e.clone()], &keys), Ok(false));
}

#[test]
fn missing_event_fails() {
    let (p, keys) = authorities();
    let e = hash(7);
    let b = bundle(&e, &[&p[0], &p[1], &p[2]]);
    assert_eq!(verify_proofs(&b, &vec![e.clone(), hash(8)], &keys), Ok(false));
    assert_eq!(verify_proofs(&b, &vec![], &keys), Ok(true));
}

#[test]
fn malformed_signature_is_an_error() {
    let (p, keys) = authorities();
    let e = hash(7);
    let mut b = bundle(&e, &[&p[0], &p[1], &p[2]]);
    b.entries[0].proofs[1].signature.pop();
    assert_eq!(verify_proofs(&b, &vec![e.clone()], &keys), Err(VerifyError::BadSignature));
}

#[test]
fn malformed_public_key_is_an_error() {
    let (p, mut keys) = authorities();
    let e = hash(7);
    let short_key = vec![5u8; 31];
    keys.push(short_key.clone());
    let mut b = bundle(&e, &[&p[0], &p[1], &p[2]]);
    b.entries[0].proofs.push(WitnessProof { validator: short_key, signature: vec![0u8; 64] });
    assert_eq!(verify_proofs(&b, &vec![e.clone()], &keys), Err(VerifyError::BadPublicKey));
}

#[test]
fn repeated_signer_is_an_error() {
    let (p, keys) = authorities();
    let e = hash(7);
    let b = bundle(&e, &[&p[0], &p[1], &p[1]]);
    assert_eq!(verify_proofs(&b, &vec![e.clone()], &keys), Err(VerifyError::DuplicateEntry));
}

#[test]
fn empty_authority_set_witnesses_nothing() {
    let (p, _) = authorities();
    let e = hash(7);
    let b = bundle(&e, &[&p[0]]);
    assert_eq!(quorum_threshold(0), 1);
    assert_eq!(verify_proofs(&b, &vec![e.clone()], &vec![]), Ok(false));
    let empty = ProofBundle { entries: vec![EventProofs { event: e.clone(), proofs: vec![] }] };
    assert_eq!(verify_proofs(&empty, &vec![e.clone()], &vec![]), Ok(false));
    assert_eq!(verify_proofs(&b, &vec![], &vec![]), Ok(true));
}

#[test]
fn malformed_signature_after_short_event_is_an_error() {
    let (p, _) = authorities();
    let keys = vec![public(&p[0])];
    let e1 = hash(7);
    let e2 = hash(8);
    let mut w = witness(&p[0], &e2);
    w.signature.pop();
    let b = ProofBundle {
        entries: vec![
            EventProofs { event: e1.clone(), proofs: vec![] },
            EventProofs { event: e2.clone(), proofs: vec![w] },
        ],
    };
    assert_eq!(verify_proofs(&b, &vec![e1, e2], &keys), Err(VerifyError::BadSignature));
}

#[test]
fn malformed_signature_after_failing_one_is_an_error() {
    let (p, keys) = authorities();
    let e = hash(7);
    let mut b = bundle(&e, &[&p[0], &p[1]]);
    b.entries[0].proofs[0] = witness(&p[0], &hash(9));
    b.entries[0].proofs[1].signature.push(1);
    assert_eq!(verify_proofs(&b, &vec![e.clone()], &keys), Err(VerifyError::BadSignature));
}

#[test]
fn repeated_event_is_an_error() {
    let (p, keys) = authorities();
    let e = hash(7);
    let mut b = bundle(&e, &[&p[0], &p[1], &p[2]]);
    b.entries.push(EventProofs { event: e.clone(), proofs: vec![] });
    assert_eq!(verify_proofs(&b, &vec![e.clone()], &keys), Err(VerifyError::DuplicateEntry));
}

#[test]
fn hash_decoding_requires_exact_length() {
    assert!(Hash256::from_slice(&vec![0u8; 31]).is_none());
    assert!(Hash256::from_slice(&vec![0u8; 33]).is_none());
    let h = Hash256::from_slice(&vec![3u8; 32]).unwrap();
    assert_eq!(h.lookup_key(), vec![3u8; 32]);
    assert!(h.same(&hash(3)));
    assert!(!h.same(&hash(4)));
}

#[test]
fn deferring_twice_keeps_one_entry() {
    let mut reg = DefferedBlocks::new();
    let block = hash(1);
    assert_eq!(reg.deffer_block(&block, &vec![hash(7)], true), DeferAction::RequestLookup);
    assert_eq!(reg.deffer_block(&block, &vec![hash(8)], true), DeferAction::AlreadyDeferred);
    assert_eq!(reg.unwitnessed_of(&block), Some(vec![hash(7)]));
}

#[test]
fn deferral_without_network_is_dropped() {
    let mut reg = DefferedBlocks::new();
    let block = hash(1);
    assert_eq!(reg.deffer_block(&block, &vec![hash(7)], false), DeferAction::NetworkUnavailable);
    assert!(!reg.contains(&block));
}

#[test]
fn bad_key_length_is_ignored() {
    let (p, keys) = authorities();
    let mut reg = DefferedBlocks::new();
    let block = hash(1);
    let e = hash(7);
    reg.deffer_block(&block, &vec![e.clone()], true);
    let b = bundle(&e, &[&p[0], &p[1], &p[2]]);
    let outcome = reg.handle_found_proof(&vec![1u8; 31], Some(b), &Ok(keys));
    assert_eq!(outcome, FoundOutcome::BadKey);
    assert!(reg.contains(&block));
}

#[test]
fn unwitnessed_block_is_deferred() {
    let mut reg = DefferedBlocks::new();
    let block = hash(1);
    let e = hash(7);
    let decision = decide_import(&mut reg, &block, Ok(vec![e.clone()]), true);
    assert_eq!(decision, ImportDecision::Deferred(DeferAction::RequestLookup));
    assert_eq!(reg.unwitnessed_of(&block), Some(vec![e]));
}

#[test]
fn found_quorum_completes_deferral() {
    let (p, keys) = authorities();
    let mut reg = DefferedBlocks::new();
    let block = hash(1);
    let e = hash(7);
    decide_import(&mut reg, &block, Ok(vec![e.clone()]), true);
    let b = bundle(&e, &[&p[0], &p[1], &p[2]]);
    let outcome = reg.handle_found_proof(&block.lookup_key(), Some(b.clone()), &Ok(keys));
    assert_eq!(outcome, FoundOutcome::Completed(b));
    assert!(!reg.contains(&block));
}

#[test]
fn found_value_without_deferral_is_ignored() {
    let (p, keys) = authorities();
    let mut reg = DefferedBlocks::new();
    reg.deffer_block(&hash(1), &vec![hash(7)], true);
    let b = bundle(&hash(7), &[&p[0], &p[1], &p[2]]);
    let outcome = reg.handle_found_proof(&hash(2).lookup_key(), Some(b), &Ok(keys));
    assert_eq!(outcome, FoundOutcome::NotDeferred);
    assert_eq!(reg.unwitnessed_of(&hash(1)), Some(vec![hash(7)]));
    assert_eq!(reg.unwitnessed_of(&hash(2)), None);
}

#[test]
fn insufficient_or_unreadable_values_keep_deferral() {
    let (p, keys) = authorities();
    let mut reg = DefferedBlocks::new();
    let block = hash(1);
    let e = hash(7);
    reg.deffer_block(&block, &vec![e.clone()], true);
    let key = block.lookup_key();
    assert_eq!(reg.handle_found_proof(&key, None, &Ok(keys.clone())), FoundOutcome::Undecodable);
    let short = bundle(&e, &[&p[0]]);
    assert_eq!(reg.handle_found_proof(&key, Some(short.clone()), &Ok(keys.clone())), FoundOutcome::Insufficient);
    assert_eq!(
        reg.handle_found_proof(&key, Some(short), &Err("state pruned".to_string())),
        FoundOutcome::AuthoritiesUnavailable("state pruned".to_string())
    );
    let mut bad = bundle(&e, &[&p[0], &p[1], &p[2]]);
    bad.entries[0].proofs[0].signature.push(0);
    assert_eq!(
        reg.handle_found_proof(&key, Some(bad), &Ok(keys)),
        FoundOutcome::Rejected(VerifyError::BadSignature)
    );
    assert!(reg.contains(&block));
}

#[test]
fn header_only_block_goes_to_inner_stage() {
    assert!(!needs_event_check(false));
    assert!(needs_event_check(true));
    assert_eq!(check_block::<u32>(Ok(5)), Ok(5));
    assert_eq!(
        check_block::<u32>(Err("inner failed".to_string())),
        Err(ImportError::ClientImport("inner failed".to_string()))
    );
}

#[test]
fn witnessed_block_is_delegated() {
    let mut reg = DefferedBlocks::new();
    let block = hash(1);
    assert_eq!(decide_import(&mut reg, &block, Ok(vec![]), true), ImportDecision::Delegate);
    assert!(!reg.contains(&block));
    assert_eq!(
        decide_import(&mut reg, &block, Err("no state".to_string()), true),
        ImportDecision::Failed(ImportError::ClientImport("no state".to_string()))
    );
    assert!(!reg.contains(&block));
}

#[test]
fn failed_extraction_admits_block() {
    assert!(extracted_event_ids(None).is_empty());
    assert_eq!(extracted_event_ids(Some(vec![hash(7)])), vec![hash(7)]);
}

#[test]
fn import_succeeds_when_publication_is_skipped() {
    let block = hash(1);
    let done = finish_import::<u32>(Ok(3), &block, false);
    assert_eq!(done.result, Ok(3));
    assert_eq!(done.publish_under, None);
    let published = finish_import::<u32>(Ok(3), &block, true);
    assert_eq!(published.result, Ok(3));
    assert_eq!(published.publish_under, Some(vec![1u8; 32]));
    let failed = finish_import::<u32>(Err("boom".to_string()), &block, true);
    assert_eq!(failed.result, Err(ImportError::ClientImport("boom".to_string())));
    assert_eq!(failed.publish_under, None);
    assert_eq!(provide_block_proofs(true, &block), Some(vec![1u8; 32]));
    assert_eq!(provide_block_proofs(false, &block), None);
}

#[test]
fn notification_values_are_handled_in_order() {
    let (p, keys) = authorities();
    let mut reg = DefferedBlocks::new();
    let block = hash(1);
    let e = hash(7);
    reg.deffer_block(&block, &vec![e.clone()], true);
    let b = bundle(&e, &[&p[0], &p[1], &p[2]]);
    let values = vec![
        (vec![1u8; 5], Some(b.clone())),
        (block.lookup_key(), Some(b.clone())),
        (block.lookup_key(), Some(b.clone())),
    ];
    let outcomes = reg.handle_found_proofs(values, &Ok(keys));
    assert_eq!(outcomes, vec![FoundOutcome::BadKey, FoundOutcome::Completed(b), FoundOutcome::NotDeferred]);
    assert!(!reg.contains(&block));
}
