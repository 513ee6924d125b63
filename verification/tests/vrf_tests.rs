use mychain::{compute_block_random, VrfEngine};
use sha2::Digest;

#[test]
fn test_vrf_engine_generation() {
    let engine = VrfEngine::generate().unwrap();
    let pub_key = engine.public_key_bytes();
    assert!(!pub_key.is_empty());

    let priv_key = engine.private_key_bytes();
    assert!(!priv_key.is_empty());
}

#[test]
fn test_vrf_prove_verify_roundtrip() {
    let engine = VrfEngine::generate().unwrap();
    let message = b"test_message";

    let (proof, output) = engine.prove(message).unwrap();
    let public_key = engine.public_key_bytes();

    let is_valid = VrfEngine::verify(&public_key, message, &proof).is_ok();
    assert!(is_valid);
    let _ = output;
}

#[test]
fn test_vrf_prove_verify_round_trip() {
    let engine = VrfEngine::generate().unwrap();
    let message = b"test message";

    let (proof, output) = engine.prove(message).unwrap();
    let pub_key = engine.public_key_bytes();

    let verified_output = VrfEngine::verify(&pub_key, message, &proof).unwrap();
    assert_eq!(output, verified_output);
}

#[test]
fn test_vrf_deterministic() {
    let engine = VrfEngine::generate().unwrap();
    let message = b"test message";

    let (proof1, output1) = engine.prove(message).unwrap();
    let (proof2, output2) = engine.prove(message).unwrap();

    assert_eq!(proof1, proof2);
    assert_eq!(output1, output2);
}

#[test]
fn test_vrf_rejects_tampering() {
    let engine = VrfEngine::generate().unwrap();
    let message = b"honest message";
    let (proof, _output) = engine.prove(message).unwrap();
    let public_key = engine.public_key_bytes();

    // A tampered proof must not verify.
    let mut bad_proof = proof.clone();
    let last = bad_proof.len() - 1;
    bad_proof[last] ^= 0x01;
    assert!(VrfEngine::verify(&public_key, message, &bad_proof).is_err());

    // A different message must not verify.
    assert!(VrfEngine::verify(&public_key, b"another message", &proof).is_err());

    // A different public key must not verify.
    let other = VrfEngine::generate().unwrap();
    let other_pk = other.public_key_bytes();
    assert!(VrfEngine::verify(&other_pk, message, &proof).is_err());
}

#[test]
fn test_vrf_key_persistence_roundtrip() {
    let engine = VrfEngine::generate().unwrap();
    let sk = engine.private_key_bytes();
    let reloaded = VrfEngine::from_private_key(&sk).unwrap();
    assert_eq!(engine.public_key_bytes(), reloaded.public_key_bytes());

    let message = b"stable identity";
    let (p1, o1) = engine.prove(message).unwrap();
    let (p2, o2) = reloaded.prove(message).unwrap();
    assert_eq!(p1, p2);
    assert_eq!(o1, o2);

    assert!(VrfEngine::from_private_key(&[1u8, 2, 3]).is_err());
}

#[test]
fn test_flip_result_derivation() {
    let engine = VrfEngine::generate().unwrap();
    let output = vec![0u8; 32];
    let result1 = engine.derive_flip_result(&output);
    let expected1 = (blake3::hash(&output).as_bytes()[0] & 1) == 1;
    assert_eq!(result1, expected1);

    let output = vec![1u8; 32];
    let result2 = engine.derive_flip_result(&output);
    let expected2 = (blake3::hash(&output).as_bytes()[0] & 1) == 1;
    assert_eq!(result2, expected2);
}

#[test]
fn test_flip_result_deterministic() {
    let engine = VrfEngine::generate().unwrap();

    let chain_id = "test_chain";
    let height = 100;
    let block_random = b"block_random_seed_12345678901234567890";
    let tx_hash = b"tx_hash_1234567890123456789012345678";
    let wallet = b"wallet_12345678901234567890123456789012";
    let nonce = 42;

    // Process same flip twice
    let (msg1, proof1, output1, result1) = engine
        .process_flip(chain_id, height, block_random, tx_hash, wallet, nonce)
        .unwrap();

    let (msg2, proof2, output2, result2) = engine
        .process_flip(chain_id, height, block_random, tx_hash, wallet, nonce)
        .unwrap();

    // Results should be identical (deterministic)
    assert_eq!(msg1, msg2);
    assert_eq!(proof1, proof2);
    assert_eq!(output1, output2);
    assert_eq!(result1, result2);

    // Verify proof
    let public_key = engine.public_key_bytes();
    assert!(VrfEngine::verify(&public_key, &msg1, &proof1).is_ok());
}

#[test]
fn test_different_inputs_different_outputs() {
    let engine = VrfEngine::generate().unwrap();

    // Same parameters except nonce
    let chain_id = "test_chain";
    let height = 100;
    let block_random = b"block_random_seed_12345678901234567890";
    let tx_hash = b"tx_hash_1234567890123456789012345678";
    let wallet = b"wallet_12345678901234567890123456789012";

    let (_, _, output1, _) = engine
        .process_flip(chain_id, height, block_random, tx_hash, wallet, 1)
        .unwrap();

    let (_, _, output2, _) = engine
        .process_flip(chain_id, height, block_random, tx_hash, wallet, 2)
        .unwrap();

    // Outputs should be different
    assert_ne!(output1, output2);
}

#[test]
fn test_compute_message() {
    let engine = VrfEngine::generate().unwrap();

    let msg1 = engine.compute_message("test-chain", 100, &[1u8; 32], &[2u8; 32], &[3u8; 32], 42);
    let msg2 = engine.compute_message("test-chain", 100, &[1u8; 32], &[2u8; 32], &[3u8; 32], 42);

    assert_eq!(msg1, msg2); // Same inputs = same message

    let msg3 = engine.compute_message(
        "test-chain",
        101, // Different height
        &[1u8; 32],
        &[2u8; 32],
        &[3u8; 32],
        42,
    );

    assert_ne!(msg1, msg3); // Different inputs = different message
}

#[test]
fn test_compute_message_matches_sha256_construction() {
    let engine = VrfEngine::generate().unwrap();
    let chain_id = "mychain";
    let height: u64 = 5;
    let seed = [9u8; 32];
    let tx_hash = [8u8; 32];
    let wallet = [7u8; 32];
    let nonce: u64 = 11;

    let msg = engine.compute_message(chain_id, height, &seed, &tx_hash, &wallet, nonce);

    let mut hasher = sha2::Sha256::new();
    hasher.update(b"MYCHAIN:VRF:v1");
    hasher.update(chain_id.as_bytes());
    hasher.update(height.to_le_bytes());
    hasher.update(seed);
    hasher.update(tx_hash);
    hasher.update(wallet);
    hasher.update(nonce.to_le_bytes());
    let expected: Vec<u8> = hasher.finalize().to_vec();
    assert_eq!(msg, expected);
}

#[test]
fn test_message_sensitivity_every_field() {
    let engine = VrfEngine::generate().unwrap();
    let base = engine.compute_message("chain", 1, &[0u8; 32], &[0u8; 32], &[0u8; 32], 0);
    let by_height = engine.compute_message("chain", 2, &[0u8; 32], &[0u8; 32], &[0u8; 32], 0);
    let by_seed = engine.compute_message("chain", 1, &[1u8; 32], &[0u8; 32], &[0u8; 32], 0);
    let by_tx = engine.compute_message("chain", 1, &[0u8; 32], &[1u8; 32], &[0u8; 32], 0);
    let by_wallet = engine.compute_message("chain", 1, &[0u8; 32], &[0u8; 32], &[1u8; 32], 0);
    let by_nonce = engine.compute_message("chain", 1, &[0u8; 32], &[0u8; 32], &[0u8; 32], 1);
    assert_ne!(base, by_height);
    assert_ne!(base, by_seed);
    assert_ne!(base, by_tx);
    assert_ne!(base, by_wallet);
    assert_ne!(base, by_nonce);
}

#[test]
fn test_outcome_distribution_roughly_balanced() {
    let engine = VrfEngine::generate().unwrap();
    let seed = [3u8; 32];
    let tx_hash = [4u8; 32];
    let wallet = [5u8; 32];
    let trials: u64 = 300;
    let mut heads: u64 = 0;
    for nonce in 0..trials {
        let (_, _, _, result) = engine
            .process_flip("chain", 1, &seed, &tx_hash, &wallet, nonce)
            .unwrap();
        if result {
            heads += 1;
        }
    }
    // Statistical balance, not exact 50/50: allow a generous band.
    assert!(heads > trials / 4, "too few heads: {heads}");
    assert!(heads < trials * 3 / 4, "too many heads: {heads}");
}

#[test]
fn test_block_random_computation() {
    let random1 = compute_block_random(&[1u8; 32], &[2u8; 32]);
    let random2 = compute_block_random(&[1u8; 32], &[2u8; 32]);
    assert_eq!(random1, random2); // Deterministic

    let random3 = compute_block_random(&[2u8; 32], &[2u8; 32]);
    assert_ne!(random1, random3); // Different inputs
}
