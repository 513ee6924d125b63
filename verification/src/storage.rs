//! The persistent keyed state store.
//!
//! An embedded ordered key-value database (sled) holds the chain state
//! under fixed, namespaced keys. The store is modeled as a map from key
//! bytes to value bytes, named by `db_view`; every operation's contract
//! says how it reads or rewrites that map. Writes are staged into a
//! `StorageBatch` and applied as one atomic, durably flushed unit.
//!
//! Keyspaces: `meta/last_height`, `chain/vrf_public_key`,
//! `chain/vrf_private_key`, `bets/{txHash}`, `tx_height/{txHash}`,
//! `block_seed/{height}` and `state_digest/{height}`, with every integer
//! encoded as 8 little-endian bytes.

use vstd::prelude::*;
use vstd::bytes::*;
use vstd::string::StringSliceAdditionalSpecFns;
use crate::errors::StoreError;
use crate::types::{BetRecord, spec_record_encode, spec_record_decode, spec_app_hash};
use crate::types::compute_app_hash;

verus! {

#[verifier::external_type_specification]
#[verifier::external_body]
pub struct ExDb(sled::Db);

#[verifier::external_type_specification]
#[verifier::external_body]
pub struct ExSledBatch(sled::Batch);

/// The contents of the database: the map from key bytes to value bytes.
pub uninterp spec fn db_view(db: sled::Db) -> Map<Seq<u8>, Seq<u8>>;

/// The writes staged in a sled batch, later entries overwriting earlier
/// ones for the same key.
pub uninterp spec fn sled_batch_view(b: sled::Batch) -> Map<Seq<u8>, Seq<u8>>;

/// Relies on sled::open: opens or creates the database at `path`. Nothing
/// is assumed about what the opened database contains.
#[verifier::external_body]
fn sled_open(path: &str) -> (r: Result<sled::Db, StoreError>) {
    match sled::open(path) {
        Ok(db) => Ok(db),
        Err(_) => Err(StoreError::Backend),
    }
}

/// Relies on sled::Tree::get: a point read returns exactly the value the
/// database holds under the key, or nothing.
#[verifier::external_body]
fn sled_get(db: &sled::Db, key: &[u8]) -> (r: Result<Option<Vec<u8>>, StoreError>)
    ensures
        r matches Ok(Some(v)) ==> db_view(*db).contains_key(key@) && v@ == db_view(*db)[key@],
        r matches Ok(None) ==> !db_view(*db).contains_key(key@),
{
    match db.get(key) {
        Ok(Some(v)) => Ok(Some(v.to_vec())),
        Ok(None) => Ok(None),
        Err(_) => Err(StoreError::Backend),
    }
}

/// The empty key-value map.
pub open spec fn spec_empty_map() -> Map<Seq<u8>, Seq<u8>> {
    Map::empty()
}

/// Relies on sled::Batch::default: a fresh batch stages nothing.
#[verifier::external_body]
fn sled_batch_new() -> (r: sled::Batch)
    ensures
        sled_batch_view(r) == spec_empty_map(),
{
    sled::Batch::default()
}

/// Relies on sled::Batch::insert: staging a write adds the pair to the
/// batch, replacing an earlier staged write to the same key.
#[verifier::external_body]
fn sled_batch_insert(b: &mut sled::Batch, key: &[u8], value: &[u8])
    ensures
        sled_batch_view(*final(b)) == sled_batch_view(*old(b)).insert(key@, value@),
{
    b.insert(key, value);
}

/// Relies on sled::Tree::apply_batch: applies every staged write as one
/// atomic unit; on success the database holds the old contents overlaid
/// with the batch.
#[verifier::external_body]
fn sled_apply(db: &mut sled::Db, batch: sled::Batch) -> (r: Result<(), StoreError>)
    ensures
        r is Ok ==> db_view(*final(db)) == db_view(*old(db)).union_prefer_right(
            sled_batch_view(batch),
        ),
{
    match db.apply_batch(batch) {
        Ok(()) => Ok(()),
        Err(_) => Err(StoreError::Backend),
    }
}

/// Relies on sled::Db::flush: forces applied writes to durable storage;
/// the contents are unchanged.
#[verifier::external_body]
fn sled_flush(db: &sled::Db) -> (r: Result<(), StoreError>) {
    match db.flush() {
        Ok(_) => Ok(()),
        Err(_) => Err(StoreError::Backend),
    }
}

/// Key of the latest committed height.
pub open spec fn spec_key_last_height() -> Seq<u8> {
    "meta/last_height".spec_bytes()
}

/// Key of the persisted VRF public key.
pub open spec fn spec_key_vrf_public_key() -> Seq<u8> {
    "chain/vrf_public_key".spec_bytes()
}

/// Key of the provisioned VRF private key.
pub open spec fn spec_key_vrf_private_key() -> Seq<u8> {
    "chain/vrf_private_key".spec_bytes()
}

/// Key of the bet record settled for a transaction hash.
pub open spec fn spec_key_bet(tx_hash: Seq<u8>) -> Seq<u8> {
    "bets/".spec_bytes() + tx_hash
}

/// Key of the height at which a transaction was settled.
pub open spec fn spec_key_tx_height(tx_hash: Seq<u8>) -> Seq<u8> {
    "tx_height/".spec_bytes() + tx_hash
}

/// Key of the block seed for a height.
pub open spec fn spec_key_block_seed(height: u64) -> Seq<u8> {
    "block_seed/".spec_bytes() + spec_u64_to_le_bytes(height)
}

/// Key of the state digest for a height.
pub open spec fn spec_key_state_digest(height: u64) -> Seq<u8> {
    "state_digest/".spec_bytes() + spec_u64_to_le_bytes(height)
}

/// The latest height the store records: 0 before genesis, the stored
/// 8-byte value otherwise, or nothing when the stored value is malformed.
pub open spec fn spec_stored_height(m: Map<Seq<u8>, Seq<u8>>) -> Option<u64> {
    if !m.contains_key(spec_key_last_height()) {
        Some(0)
    } else if m[spec_key_last_height()].len() == 8 {
        Some(spec_u64_from_le_bytes(m[spec_key_last_height()]))
    } else {
        None
    }
}

fn key_last_height() -> (r: Vec<u8>)
    ensures
        r@ == spec_key_last_height(),
{
    vstd::slice::slice_to_vec("meta/last_height".as_bytes())
}

fn key_vrf_public_key() -> (r: Vec<u8>)
    ensures
        r@ == spec_key_vrf_public_key(),
{
    vstd::slice::slice_to_vec("chain/vrf_public_key".as_bytes())
}

fn key_vrf_private_key() -> (r: Vec<u8>)
    ensures
        r@ == spec_key_vrf_private_key(),
{
    vstd::slice::slice_to_vec("chain/vrf_private_key".as_bytes())
}

fn key_bet(tx_hash: &[u8]) -> (r: Vec<u8>)
    ensures
        r@ == spec_key_bet(tx_hash@),
{
    let mut v = vstd::slice::slice_to_vec("bets/".as_bytes());
    v.extend_from_slice(tx_hash);
    assert(v@ =~= spec_key_bet(tx_hash@));
    v
}

fn key_tx_height(tx_hash: &[u8]) -> (r: Vec<u8>)
    ensures
        r@ == spec_key_tx_height(tx_hash@),
{
    let mut v = vstd::slice::slice_to_vec("tx_height/".as_bytes());
    v.extend_from_slice(tx_hash);
    assert(v@ =~= spec_key_tx_height(tx_hash@));
    v
}

fn key_block_seed(height: u64) -> (r: Vec<u8>)
    ensures
        r@ == spec_key_block_seed(height),
{
    let mut v = vstd::slice::slice_to_vec("block_seed/".as_bytes());
    let mut h = u64_to_le_bytes(height);
    v.append(&mut h);
    assert(v@ =~= spec_key_block_seed(height));
    v
}

fn key_state_digest(height: u64) -> (r: Vec<u8>)
    ensures
        r@ == spec_key_state_digest(height),
{
    let mut v = vstd::slice::slice_to_vec("state_digest/".as_bytes());
    let mut h = u64_to_le_bytes(height);
    v.append(&mut h);
    assert(v@ =~= spec_key_state_digest(height));
    v
}

/// Staged writes for one atomic commit: an ordered list of key-value
/// pairs, read as a map in which a later write to a key overrides an
/// earlier one.
pub struct StorageBatch {
    entries: Vec<(Vec<u8>, Vec<u8>)>,
}

/// The map an ordered list of writes denotes: later entries win.
pub open spec fn spec_entries_map(s: Seq<(Seq<u8>, Seq<u8>)>) -> Map<Seq<u8>, Seq<u8>>
    decreases s.len(),
{
    if s.len() == 0 {
        Map::empty()
    } else {
        spec_entries_map(s.drop_last()).insert(s.last().0, s.last().1)
    }
}

impl View for StorageBatch {
    type V = Map<Seq<u8>, Seq<u8>>;

    closed spec fn view(&self) -> Map<Seq<u8>, Seq<u8>> {
        spec_entries_map(self.entries@.map_values(|p: (Vec<u8>, Vec<u8>)| (p.0@, p.1@)))
    }
}

impl StorageBatch {
    /// An empty batch.
    pub fn new() -> (r: StorageBatch)
        ensures
            r@ == Map::<Seq<u8>, Seq<u8>>::empty(),
    {
        StorageBatch { entries: Vec::new() }
    }

    /// Stages one write.
    fn put(&mut self, key: Vec<u8>, value: Vec<u8>)
        ensures
            final(self)@ == old(self)@.insert(key@, value@),
    {
        let ghost pre = self.entries@.map_values(|p: (Vec<u8>, Vec<u8>)| (p.0@, p.1@));
        self.entries.push((key, value));
        proof {
            let post = self.entries@.map_values(|p: (Vec<u8>, Vec<u8>)| (p.0@, p.1@));
            assert(post.drop_last() =~= pre);
            assert(post.last() == (key@, value@));
        }
    }
}

/// The persistent state store: an exclusively owned handle to the
/// embedded database. Concurrent readers go through their own read-only
/// operations; all mutation passes through `apply_batch`.
pub struct Storage {
    db: sled::Db,
}

impl View for Storage {
    type V = Map<Seq<u8>, Seq<u8>>;

    closed spec fn view(&self) -> Map<Seq<u8>, Seq<u8>> {
        db_view(self.db)
    }
}

impl Storage {
    /// Opens or creates the store at the given filesystem path. The
    /// contents are whatever the database holds on disk.
    pub fn open(path: &str) -> (r: Result<Storage, StoreError>) {
        match sled_open(path) {
            Ok(db) => Ok(Storage { db }),
            Err(e) => Err(e),
        }
    }

    /// A fresh, empty batch for staging writes.
    pub fn batch(&self) -> (r: StorageBatch)
        ensures
            r@ == Map::<Seq<u8>, Seq<u8>>::empty(),
    {
        StorageBatch::new()
    }

    /// Applies every staged write as one atomic unit and flushes it to
    /// durable storage before returning success.
    pub fn apply_batch(&mut self, batch: StorageBatch) -> (r: Result<(), StoreError>)
        ensures
            r is Ok ==> final(self)@ == old(self)@.union_prefer_right(batch@),
    {
        let ghost entries_view = batch.entries@.map_values(|p: (Vec<u8>, Vec<u8>)| (p.0@, p.1@));
        let mut sb = sled_batch_new();
        let count: usize = batch.entries.len();
        let mut i: usize = 0;
        while i < count
            invariant
                count == batch.entries@.len(),
                i <= count,
                entries_view == batch.entries@.map_values(|p: (Vec<u8>, Vec<u8>)| (p.0@, p.1@)),
                sled_batch_view(sb) == spec_entries_map(entries_view.take(i as int)),
            decreases count - i,
        {
            let entry = vstd::slice::slice_index_get(batch.entries.as_slice(), i);
            sled_batch_insert(&mut sb, entry.0.as_slice(), entry.1.as_slice());
            proof {
                assert(entries_view.take(i + 1).drop_last() =~= entries_view.take(i as int));
                assert(entries_view.take(i + 1).last() == entries_view[i as int]);
            }
            i = i + 1;
        }
        proof {
            assert(entries_view.take(count as int) =~= entries_view);
        }
        match sled_apply(&mut self.db, sb) {
            Ok(()) => {},
            Err(e) => {
                return Err(e);
            },
        }
        match sled_flush(&self.db) {
            Ok(()) => Ok(()),
            Err(e) => Err(e),
        }
    }

    /// Forces applied writes to durable storage.
    pub fn commit(&self) -> (r: Result<(), StoreError>) {
        sled_flush(&self.db)
    }

    /// The latest committed height: 0 before genesis, otherwise the stored
    /// value; fails when the stored value is malformed or the backend
    /// fails.
    pub fn get_last_height(&self) -> (r: Result<u64, StoreError>)
        ensures
            r matches Ok(h) ==> spec_stored_height(self@) == Some(h),
            spec_stored_height(self@) is None ==> r is Err,
    {
        let key = key_last_height();
        match sled_get(&self.db, key.as_slice()) {
            Ok(Some(v)) => {
                if v.len() == 8 {
                    Ok(u64_from_le_bytes(v.as_slice()))
                } else {
                    Err(StoreError::Corrupt)
                }
            },
            Ok(None) => Ok(0),
            Err(e) => Err(e),
        }
    }

    /// The latest committed height, under the longer of its two names.
    pub fn get_latest_height(&self) -> (r: Result<u64, StoreError>)
        ensures
            r matches Ok(h) ==> spec_stored_height(self@) == Some(h),
            spec_stored_height(self@) is None ==> r is Err,
    {
        self.get_last_height()
    }

    /// Stages the latest-height pointer into a batch.
    pub fn set_last_height(&self, height: u64, batch: &mut StorageBatch)
        ensures
            final(batch)@ == old(batch)@.insert(spec_key_last_height(), spec_u64_to_le_bytes(height)),
    {
        batch.put(key_last_height(), u64_to_le_bytes(height));
    }

    /// Writes the latest-height pointer directly, as its own atomic batch.
    pub fn set_latest_height(&mut self, height: u64) -> (r: Result<(), StoreError>)
        ensures
            r is Ok ==> final(self)@ == old(self)@.insert(
                spec_key_last_height(),
                spec_u64_to_le_bytes(height),
            ),
    {
        let mut batch = StorageBatch::new();
        self.set_last_height(height, &mut batch);
        let ghost b = batch@;
        let r = self.apply_batch(batch);
        proof {
            if r is Ok {
                assert(self@ =~= old(self)@.insert(
                    spec_key_last_height(),
                    spec_u64_to_le_bytes(height),
                ));
            }
        }
        r
    }

    /// The persisted VRF public key, if genesis has run.
    pub fn get_vrf_public_key(&self) -> (r: Result<Option<Vec<u8>>, StoreError>)
        ensures
            r matches Ok(Some(v)) ==> self@.contains_key(spec_key_vrf_public_key()) && v@
                == self@[spec_key_vrf_public_key()],
            r matches Ok(None) ==> !self@.contains_key(spec_key_vrf_public_key()),
    {
        let key = key_vrf_public_key();
        sled_get(&self.db, key.as_slice())
    }

    /// Stages the VRF public key into a batch. Written once at genesis;
    /// rotating it would need an explicit replicated transaction.
    pub fn set_vrf_public_key(&self, vrf_pk: &[u8], batch: &mut StorageBatch)
        ensures
            final(batch)@ == old(batch)@.insert(spec_key_vrf_public_key(), vrf_pk@),
    {
        batch.put(key_vrf_public_key(), vstd::slice::slice_to_vec(vrf_pk));
    }

    /// The provisioned VRF private key, if genesis has run.
    pub fn get_vrf_private_key(&self) -> (r: Result<Option<Vec<u8>>, StoreError>)
        ensures
            r matches Ok(Some(v)) ==> self@.contains_key(spec_key_vrf_private_key()) && v@
                == self@[spec_key_vrf_private_key()],
            r matches Ok(None) ==> !self@.contains_key(spec_key_vrf_private_key()),
    {
        let key = key_vrf_private_key();
        sled_get(&self.db, key.as_slice())
    }

    /// Stages the VRF private key into a batch, beside the public key, so
    /// a restart can reload the same identity instead of regenerating it.
    pub fn set_vrf_private_key(&self, vrf_sk: &[u8], batch: &mut StorageBatch)
        ensures
            final(batch)@ == old(batch)@.insert(spec_key_vrf_private_key(), vrf_sk@),
    {
        batch.put(key_vrf_private_key(), vstd::slice::slice_to_vec(vrf_sk));
    }

    /// Stages a settled bet record under its transaction hash.
    pub fn store_bet(&self, tx_hash: &[u8], bet: &BetRecord, batch: &mut StorageBatch)
        ensures
            final(batch)@ == old(batch)@.insert(spec_key_bet(tx_hash@), spec_record_encode(bet@)),
    {
        batch.put(key_bet(tx_hash), bet.to_bytes());
    }

    /// The bet record settled for a transaction hash, decoded from its
    /// canonical encoding; fails when the stored bytes are malformed or
    /// the backend fails.
    pub fn get_bet(&self, tx_hash: &[u8]) -> (r: Result<Option<BetRecord>, StoreError>)
        ensures
            r matches Ok(Some(rec)) ==> self@.contains_key(spec_key_bet(tx_hash@))
                && spec_record_decode(self@[spec_key_bet(tx_hash@)]) == Some(rec@),
            r matches Ok(None) ==> !self@.contains_key(spec_key_bet(tx_hash@)),
    {
        let key = key_bet(tx_hash);
        match sled_get(&self.db, key.as_slice()) {
            Ok(Some(v)) => {
                match BetRecord::from_bytes(v.as_slice()) {
                    Ok(rec) => Ok(Some(rec)),
                    Err(_) => Err(StoreError::Corrupt),
                }
            },
            Ok(None) => Ok(None),
            Err(e) => Err(e),
        }
    }

    /// Stages the settlement height of a transaction.
    pub fn store_tx_height(&self, tx_hash: &[u8], height: u64, batch: &mut StorageBatch)
        ensures
            final(batch)@ == old(batch)@.insert(
                spec_key_tx_height(tx_hash@),
                spec_u64_to_le_bytes(height),
            ),
    {
        batch.put(key_tx_height(tx_hash), u64_to_le_bytes(height));
    }

    /// The height at which a transaction was settled, if it was.
    pub fn get_tx_height(&self, tx_hash: &[u8]) -> (r: Result<Option<u64>, StoreError>)
        ensures
            r matches Ok(Some(h)) ==> self@.contains_key(spec_key_tx_height(tx_hash@))
                && self@[spec_key_tx_height(tx_hash@)].len() == 8 && h == spec_u64_from_le_bytes(
                self@[spec_key_tx_height(tx_hash@)],
            ),
            r matches Ok(None) ==> !self@.contains_key(spec_key_tx_height(tx_hash@)),
    {
        let key = key_tx_height(tx_hash);
        match sled_get(&self.db, key.as_slice()) {
            Ok(Some(v)) => {
                if v.len() == 8 {
                    Ok(Some(u64_from_le_bytes(v.as_slice())))
                } else {
                    Err(StoreError::Corrupt)
                }
            },
            Ok(None) => Ok(None),
            Err(e) => Err(e),
        }
    }

    /// Stages the state digest for a height.
    pub fn store_app_hash(&self, height: u64, app_hash: &[u8; 32], batch: &mut StorageBatch)
        ensures
            final(batch)@ == old(batch)@.insert(spec_key_state_digest(height), app_hash@),
    {
        batch.put(key_state_digest(height), vstd::slice::slice_to_vec(app_hash.as_slice()));
    }

    /// The state digest recorded for a height, if any.
    pub fn get_app_hash(&self, height: u64) -> (r: Result<Option<[u8; 32]>, StoreError>)
        ensures
            r matches Ok(Some(h)) ==> self@.contains_key(spec_key_state_digest(height)) && h@
                == self@[spec_key_state_digest(height)],
            r matches Ok(None) ==> !self@.contains_key(spec_key_state_digest(height)),
    {
        let key = key_state_digest(height);
        match sled_get(&self.db, key.as_slice()) {
            Ok(Some(v)) => {
                if v.len() == 32 {
                    Ok(Some(crate::codec::bytes32(v.as_slice())))
                } else {
                    Err(StoreError::Corrupt)
                }
            },
            Ok(None) => Ok(None),
            Err(e) => Err(e),
        }
    }

    /// Writes the state digest for a height directly, as its own atomic
    /// batch.
    pub fn set_app_hash(&mut self, height: u64, app_hash: &[u8; 32]) -> (r: Result<
        (),
        StoreError,
    >)
        ensures
            r is Ok ==> final(self)@ == old(self)@.insert(spec_key_state_digest(height), app_hash@),
    {
        let mut batch = StorageBatch::new();
        self.store_app_hash(height, app_hash, &mut batch);
        let r = self.apply_batch(batch);
        proof {
            if r is Ok {
                assert(self@ =~= old(self)@.insert(spec_key_state_digest(height), app_hash@));
            }
        }
        r
    }

    /// The block seed recorded for a height, if any.
    pub fn get_block_random(&self, height: u64) -> (r: Result<Option<[u8; 32]>, StoreError>)
        ensures
            r matches Ok(Some(s)) ==> self@.contains_key(spec_key_block_seed(height)) && s@
                == self@[spec_key_block_seed(height)],
            r matches Ok(None) ==> !self@.contains_key(spec_key_block_seed(height)),
    {
        let key = key_block_seed(height);
        match sled_get(&self.db, key.as_slice()) {
            Ok(Some(v)) => {
                if v.len() == 32 {
                    Ok(Some(crate::codec::bytes32(v.as_slice())))
                } else {
                    Err(StoreError::Corrupt)
                }
            },
            Ok(None) => Ok(None),
            Err(e) => Err(e),
        }
    }

    /// Writes the block seed for a height directly, as its own atomic
    /// batch. A seed is written once per height and never rewritten with a
    /// different value.
    pub fn set_block_random(&mut self, height: u64, block_random: &[u8; 32]) -> (r: Result<
        (),
        StoreError,
    >)
        ensures
            r is Ok ==> final(self)@ == old(self)@.insert(spec_key_block_seed(height), block_random@),
    {
        let mut batch = StorageBatch::new();
        batch.put(key_block_seed(height), vstd::slice::slice_to_vec(block_random.as_slice()));
        let r = self.apply_batch(batch);
        proof {
            if r is Ok {
                assert(self@ =~= old(self)@.insert(spec_key_block_seed(height), block_random@));
            }
        }
        r
    }

    /// Initializes genesis state in one atomic batch: the VRF public key,
    /// the initial block seed for height 1, the height pointer at 1, and
    /// the genesis digest (over no bet records).
    pub fn init_genesis(&mut self, vrf_public_key: &[u8], initial_block_random: &[u8; 32]) -> (r:
        Result<(), StoreError>)
        ensures
            r is Ok ==> final(self)@ == old(self)@.insert(spec_key_vrf_public_key(), vrf_public_key@)
                .insert(spec_key_block_seed(1), initial_block_random@).insert(
                spec_key_last_height(),
                spec_u64_to_le_bytes(1),
            ).insert(
                spec_key_state_digest(1),
                spec_app_hash(1, initial_block_random@, vrf_public_key@, Seq::empty()),
            ),
    {
        let mut batch = StorageBatch::new();
        self.set_vrf_public_key(vrf_public_key, &mut batch);
        batch.put(
            key_block_seed(1),
            vstd::slice::slice_to_vec(initial_block_random.as_slice()),
        );
        self.set_last_height(1, &mut batch);
        let pk_vec = vstd::slice::slice_to_vec(vrf_public_key);
        let no_hashes: Vec<[u8; 32]> = Vec::new();
        let digest = compute_app_hash(1, initial_block_random, &pk_vec, &no_hashes);
        proof {
            assert(no_hashes@.map_values(|h: [u8; 32]| h@) =~= Seq::<Seq<u8>>::empty());
        }
        self.store_app_hash(1, &digest, &mut batch);
        let r = self.apply_batch(batch);
        proof {
            if r is Ok {
                assert(self@ =~= old(self)@.insert(spec_key_vrf_public_key(), vrf_public_key@)
                    .insert(spec_key_block_seed(1), initial_block_random@).insert(
                    spec_key_last_height(),
                    spec_u64_to_le_bytes(1),
                ).insert(
                    spec_key_state_digest(1),
                    spec_app_hash(1, initial_block_random@, vrf_public_key@, Seq::empty()),
                ));
            }
        }
        r
    }
}

} // verus!
