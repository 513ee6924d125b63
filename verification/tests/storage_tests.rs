use mychain::{BetRecord, Storage};
use tempfile::TempDir;

fn create_test_storage() -> (Storage, TempDir) {
    let temp_dir = TempDir::new().unwrap();
    let storage = Storage::open(temp_dir.path().to_str().unwrap()).unwrap();
    (storage, temp_dir)
}

#[test]
fn test_storage_creation() {
    let (storage, _temp_dir) = create_test_storage();
    assert_eq!(storage.get_latest_height().unwrap(), 0);
}

#[test]
fn test_storage_basic_operations() {
    let (mut storage, _temp_dir) = create_test_storage();

    // Test height operations
    assert_eq!(storage.get_last_height().unwrap(), 0);

    let mut batch = storage.batch();
    storage.set_last_height(42, &mut batch);
    storage.apply_batch(batch).unwrap();

    assert_eq!(storage.get_last_height().unwrap(), 42);

    // Test VRF key operations
    let vrf_pk = b"test_vrf_public_key";
    let mut batch = storage.batch();
    storage.set_vrf_public_key(vrf_pk, &mut batch);
    storage.apply_batch(batch).unwrap();

    assert_eq!(storage.get_vrf_public_key().unwrap().unwrap(), vrf_pk);
}

#[test]
fn test_genesis_initialization() {
    let (mut storage, _temp_dir) = create_test_storage();
    let vrf_pk = vec![1, 2, 3, 4];
    let block_random = [5u8; 32];

    storage.init_genesis(&vrf_pk, &block_random).unwrap();

    assert_eq!(storage.get_latest_height().unwrap(), 1);
    assert_eq!(storage.get_vrf_public_key().unwrap().unwrap(), vrf_pk);
    assert_eq!(storage.get_block_random(1).unwrap().unwrap(), block_random);
}

#[test]
fn test_height_operations() {
    let (mut storage, _temp_dir) = create_test_storage();

    storage.set_latest_height(42).unwrap();
    assert_eq!(storage.get_latest_height().unwrap(), 42);

    storage.set_latest_height(100).unwrap();
    assert_eq!(storage.get_latest_height().unwrap(), 100);
}

#[test]
fn test_bet_storage() {
    let (mut storage, _temp_dir) = create_test_storage();

    let tx_hash = [1u8; 32];
    let bet_record = BetRecord {
        wallet: [2u8; 32],
        amount: 1000,
        nonce: 42,
        vrf_message: vec![1, 2, 3],
        vrf_proof: vec![4, 5, 6],
        vrf_output: vec![7, 8, 9],
        result: true,
        height: 100,
        tx_hash,
    };

    let mut batch = storage.batch();
    storage.store_bet(&tx_hash, &bet_record, &mut batch);
    storage.apply_batch(batch).unwrap();
    let retrieved = storage.get_bet(&tx_hash).unwrap().unwrap();

    assert_eq!(retrieved.wallet, bet_record.wallet);
    assert_eq!(retrieved.amount, bet_record.amount);
    assert_eq!(retrieved.result, bet_record.result);
}

#[test]
fn test_tx_height_storage() {
    let (mut storage, _temp_dir) = create_test_storage();
    let tx_hash = [6u8; 32];

    assert!(storage.get_tx_height(&tx_hash).unwrap().is_none());

    let mut batch = storage.batch();
    storage.store_tx_height(&tx_hash, 17, &mut batch);
    storage.apply_batch(batch).unwrap();

    assert_eq!(storage.get_tx_height(&tx_hash).unwrap().unwrap(), 17);
}

#[test]
fn test_block_random_operations() {
    let (mut storage, _temp_dir) = create_test_storage();

    let block_random = [42u8; 32];
    storage.set_block_random(100, &block_random).unwrap();

    let retrieved = storage.get_block_random(100).unwrap().unwrap();
    assert_eq!(retrieved, block_random);

    assert!(storage.get_block_random(999).unwrap().is_none());
}

#[test]
fn test_app_hash_operations() {
    let (mut storage, _temp_dir) = create_test_storage();

    let app_hash = [99u8; 32];
    storage.set_app_hash(50, &app_hash).unwrap();

    let retrieved = storage.get_app_hash(50).unwrap().unwrap();
    assert_eq!(retrieved, app_hash);

    assert!(storage.get_app_hash(999).unwrap().is_none());
}

#[test]
fn test_batch_atomic_visibility() {
    let (mut storage, _temp_dir) = create_test_storage();

    // Nothing staged in a batch is visible before apply_batch.
    let mut batch = storage.batch();
    storage.set_last_height(7, &mut batch);
    storage.set_vrf_public_key(b"pk", &mut batch);
    assert_eq!(storage.get_last_height().unwrap(), 0);
    assert!(storage.get_vrf_public_key().unwrap().is_none());

    storage.apply_batch(batch).unwrap();
    assert_eq!(storage.get_last_height().unwrap(), 7);
    assert_eq!(storage.get_vrf_public_key().unwrap().unwrap(), b"pk");
}
