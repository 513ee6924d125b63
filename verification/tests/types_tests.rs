use mychain::{compute_app_hash, BetRecord, FlipEvent, TxFlip};

#[test]
fn test_tx_flip_serialization() {
    let tx = TxFlip::new([1u8; 32], 1000, 42);
    let bytes = tx.to_bytes();
    let recovered = TxFlip::from_bytes(&bytes).unwrap();
    assert_eq!(tx, recovered);
}

#[test]
fn test_tx_flip_hash() {
    let tx = TxFlip::new([1u8; 32], 1000, 42);
    let hash1 = tx.hash();
    let hash2 = tx.hash();
    assert_eq!(hash1, hash2);

    // Different nonce should produce different hash
    let tx2 = TxFlip::new([1u8; 32], 1000, 43);
    let hash3 = tx2.hash();
    assert_ne!(hash1, hash3);
}

#[test]
fn test_tx_flip_hash_matches_blake3_of_encoding() {
    let tx = TxFlip::new([7u8; 32], 123, 9);
    let bytes = tx.to_bytes();
    assert_eq!(bytes.len(), 49);
    let expected = *blake3::hash(&bytes).as_bytes();
    assert_eq!(tx.hash(), expected);
}

#[test]
fn test_tx_flip_decode_rejects_wrong_length() {
    assert!(TxFlip::from_bytes(&[0u8; 48]).is_err());
    assert!(TxFlip::from_bytes(&[0u8; 50]).is_err());
    assert!(TxFlip::from_bytes(&[]).is_err());
}

#[test]
fn test_bet_record_serialization() {
    let record = BetRecord {
        wallet: [2u8; 32],
        amount: 500,
        nonce: 123,
        vrf_message: vec![1, 2, 3],
        vrf_proof: vec![4, 5, 6],
        vrf_output: vec![7, 8, 9],
        result: true,
        height: 100,
        tx_hash: [3u8; 32],
    };

    let bytes = record.to_bytes();
    let recovered = BetRecord::from_bytes(&bytes).unwrap();
    assert_eq!(record.wallet, recovered.wallet);
    assert_eq!(record.amount, recovered.amount);
    assert_eq!(record.result, recovered.result);
}

#[test]
fn test_bet_record_roundtrip_all_fields() {
    let record = BetRecord {
        wallet: [9u8; 32],
        amount: u64::MAX,
        nonce: 0,
        vrf_message: Vec::new(),
        vrf_proof: vec![0xaa; 80],
        vrf_output: vec![0xbb; 64],
        result: false,
        height: 7,
        tx_hash: [4u8; 32],
    };
    let recovered = BetRecord::from_bytes(&record.to_bytes()).unwrap();
    assert_eq!(recovered.wallet, record.wallet);
    assert_eq!(recovered.amount, record.amount);
    assert_eq!(recovered.nonce, record.nonce);
    assert_eq!(recovered.vrf_message, record.vrf_message);
    assert_eq!(recovered.vrf_proof, record.vrf_proof);
    assert_eq!(recovered.vrf_output, record.vrf_output);
    assert_eq!(recovered.result, record.result);
    assert_eq!(recovered.height, record.height);
    assert_eq!(recovered.tx_hash, record.tx_hash);
}

#[test]
fn test_bet_record_decode_rejects_truncation() {
    let record = BetRecord {
        wallet: [2u8; 32],
        amount: 500,
        nonce: 123,
        vrf_message: vec![1, 2, 3],
        vrf_proof: vec![4, 5, 6],
        vrf_output: vec![7, 8, 9],
        result: true,
        height: 100,
        tx_hash: [3u8; 32],
    };
    let bytes = record.to_bytes();
    assert!(BetRecord::from_bytes(&bytes[..bytes.len() - 1]).is_err());
    let mut extended = bytes.clone();
    extended.push(0);
    assert!(BetRecord::from_bytes(&extended).is_err());
}

#[test]
fn test_app_hash_deterministic() {
    let pk = vec![1, 2, 3, 4];
    let hashes = vec![[7u8; 32]];
    let hash1 = compute_app_hash(100, &[1u8; 32], &pk, &hashes);
    let hash2 = compute_app_hash(100, &[1u8; 32], &pk, &hashes);
    assert_eq!(hash1, hash2);

    // Different inputs should produce different hashes
    let hash3 = compute_app_hash(101, &[1u8; 32], &pk, &hashes);
    let hash4 = compute_app_hash(100, &[2u8; 32], &pk, &hashes);
    assert_ne!(hash1, hash3);
    assert_ne!(hash1, hash4);
}

#[test]
fn test_app_hash_covers_record_hashes() {
    let pk = vec![1, 2, 3, 4];
    let seed = [1u8; 32];
    let with_record = compute_app_hash(100, &seed, &pk, &vec![[7u8; 32]]);
    let without_record = compute_app_hash(100, &seed, &pk, &Vec::new());
    let other_record = compute_app_hash(100, &seed, &pk, &vec![[8u8; 32]]);
    assert_ne!(with_record, without_record);
    assert_ne!(with_record, other_record);
}

#[test]
fn test_flip_event_rendering() {
    let record = BetRecord {
        wallet: [0xabu8; 32],
        amount: 1000,
        nonce: 1,
        vrf_message: vec![0x01, 0x2f],
        vrf_proof: vec![0xde, 0xad],
        vrf_output: vec![0xbe, 0xef],
        result: true,
        height: 1,
        tx_hash: [0x10u8; 32],
    };
    let event = FlipEvent::from_record(&record);
    assert_eq!(event.wallet, hex::encode(record.wallet));
    assert_eq!(event.amount, "1000");
    assert_eq!(event.result, "heads");
    assert_eq!(event.tx_hash, hex::encode(record.tx_hash));
    assert_eq!(event.vrf_proof, "dead");
    assert_eq!(event.vrf_output, "beef");

    let mut tails = record;
    tails.result = false;
    tails.amount = 0;
    let event2 = FlipEvent::from_record(&tails);
    assert_eq!(event2.result, "tails");
    assert_eq!(event2.amount, "0");
}
