//! The block executor: validates, orders and applies transactions, settles
//! each bet through the randomness engine, and commits every block's writes
//! as one atomic batch crowned by a state digest.
//!
//! Every replica that runs `process_block` on the same prior state and the
//! same ordered transaction list reaches the same records, the same store
//! contents and the same digest: the contracts below pin all three to spec
//! functions of the inputs alone.

use vstd::prelude::*;
use vstd::bytes::*;
use vstd::string::StringSliceAdditionalSpecFns;
use vstd::string::StringExecFns;
use crate::codec::{ascii_string, decimal_bytes, hex_bytes, spec_decimal, spec_hex};
use crate::errors::{AppError, TxError, VrfError};
use crate::hashes::{blake3_of, blake3_hash};
use crate::storage::{
    spec_key_bet, spec_key_block_seed, spec_key_last_height, spec_key_state_digest,
    spec_key_tx_height, spec_key_vrf_private_key, spec_key_vrf_public_key, spec_stored_height,
    Storage,
};
use crate::types::{
    compute_app_hash, spec_app_hash, spec_record_decode, spec_record_encode, spec_tx_encode,
    BetRecord, BetRecordV, TxFlip, TX_ENCODING_LEN,
};
use crate::vrf::{
    compute_block_random, spec_block_random, spec_flip_result, spec_vrf_message, spec_zero32,
    vrf_output_of_proof, vrf_pk_of, vrf_proof_of, VrfEngine,
};

verus! {

/// Whether these bytes are an acceptable transaction: well-formed encoding,
/// supported version, positive amount, and a non-zero wallet. The mempool
/// check and block execution both apply exactly this predicate.
pub open spec fn spec_tx_valid(d: Seq<u8>) -> bool {
    &&& d.len() == TX_ENCODING_LEN
    &&& d[0] == 1
    &&& spec_u64_from_le_bytes(d.subrange(33, 41)) != 0
    &&& d.subrange(1, 33) != spec_zero32()
}

/// The rejection reason for bytes that are not an acceptable transaction,
/// checked in a fixed order: encoding, version, amount, wallet.
pub open spec fn spec_tx_error(d: Seq<u8>) -> TxError {
    if d.len() != TX_ENCODING_LEN {
        TxError::Decode
    } else if d[0] != 1 {
        TxError::Version
    } else if spec_u64_from_le_bytes(d.subrange(33, 41)) == 0 {
        TxError::Amount
    } else {
        TxError::Wallet
    }
}

/// The record that settles a validated transaction at a height under a
/// block seed: the VRF message over the transaction's fields, the
/// deterministic proof and output under the engine's key, and the derived
/// outcome.
pub open spec fn spec_exec_record(
    sk: Seq<u8>,
    chain_id: Seq<u8>,
    height: u64,
    seed: Seq<u8>,
    tx: TxFlip,
    tx_hash: Seq<u8>,
) -> BetRecordV {
    let message = spec_vrf_message(chain_id, height, seed, tx_hash, tx.wallet@, tx.nonce);
    let proof = vrf_proof_of(sk, message);
    let output = vrf_output_of_proof(proof);
    BetRecordV {
        wallet: tx.wallet@,
        amount: tx.amount,
        nonce: tx.nonce,
        vrf_message: message,
        vrf_proof: proof,
        vrf_output: output,
        result: spec_flip_result(output),
        height,
        tx_hash,
    }
}

/// The record settled for raw transaction bytes: fields read from the
/// canonical encoding, hashed by BLAKE3 for the lookup key.
pub open spec fn spec_settled_record(
    sk: Seq<u8>,
    chain_id: Seq<u8>,
    height: u64,
    seed: Seq<u8>,
    tx_bytes: Seq<u8>,
) -> BetRecordV {
    let tx_hash = blake3_of(tx_bytes);
    let wallet = tx_bytes.subrange(1, 33);
    let amount = spec_u64_from_le_bytes(tx_bytes.subrange(33, 41));
    let nonce = spec_u64_from_le_bytes(tx_bytes.subrange(41, 49));
    let message = spec_vrf_message(chain_id, height, seed, tx_hash, wallet, nonce);
    let proof = vrf_proof_of(sk, message);
    let output = vrf_output_of_proof(proof);
    BetRecordV {
        wallet,
        amount,
        nonce,
        vrf_message: message,
        vrf_proof: proof,
        vrf_output: output,
        result: spec_flip_result(output),
        height,
        tx_hash,
    }
}

/// The records a block produces: one per acceptable transaction, in the
/// authoritative input order; unacceptable transactions are skipped and
/// never abort the block.
pub open spec fn spec_block_records(
    sk: Seq<u8>,
    chain_id: Seq<u8>,
    height: u64,
    seed: Seq<u8>,
    txs: Seq<Seq<u8>>,
) -> Seq<BetRecordV>
    decreases txs.len(),
{
    if txs.len() == 0 {
        Seq::empty()
    } else {
        let rest = spec_block_records(sk, chain_id, height, seed, txs.drop_last());
        if spec_tx_valid(txs.last()) {
            rest.push(spec_settled_record(sk, chain_id, height, seed, txs.last()))
        } else {
            rest
        }
    }
}

/// The per-transaction writes a block stages: each settled record under its
/// bet key, and the settlement height under its transaction-height key.
pub open spec fn spec_block_writes(
    sk: Seq<u8>,
    chain_id: Seq<u8>,
    height: u64,
    seed: Seq<u8>,
    txs: Seq<Seq<u8>>,
) -> Map<Seq<u8>, Seq<u8>>
    decreases txs.len(),
{
    if txs.len() == 0 {
        Map::empty()
    } else {
        let rest = spec_block_writes(sk, chain_id, height, seed, txs.drop_last());
        if spec_tx_valid(txs.last()) {
            let rec = spec_settled_record(sk, chain_id, height, seed, txs.last());
            rest.insert(spec_key_bet(rec.tx_hash), spec_record_encode(rec)).insert(
                spec_key_tx_height(rec.tx_hash),
                spec_u64_to_le_bytes(height),
            )
        } else {
            rest
        }
    }
}

/// The seed the previous block left behind: the stored 32-byte value, or
/// all zeros before any block recorded one.
pub open spec fn spec_prev_seed(m: Map<Seq<u8>, Seq<u8>>, height: u64) -> Seq<u8> {
    if m.contains_key(spec_key_block_seed(height)) {
        m[spec_key_block_seed(height)]
    } else {
        spec_zero32()
    }
}

/// The deterministic application core: one store handle, one VRF identity,
/// and the height of the latest committed block. Processes exactly one
/// block at a time.
pub struct MyChainApp {
    storage: Storage,
    vrf_engine: VrfEngine,
    chain_id: String,
    height: u64,
}

impl MyChainApp {
    /// The engine holds a usable, persisted key identity.
    pub closed spec fn wf(&self) -> bool {
        self.vrf_engine.wf()
    }

    /// The private-key bytes of the engine.
    pub closed spec fn spec_private_key(&self) -> Seq<u8> {
        self.vrf_engine.spec_private_key()
    }

    /// The public-key bytes of the engine.
    pub closed spec fn spec_public_key(&self) -> Seq<u8> {
        self.vrf_engine.spec_public_key()
    }

    /// The UTF-8 bytes of the chain identifier.
    pub closed spec fn spec_chain_id(&self) -> Seq<u8> {
        vstd::utf8::encode_utf8(self.chain_id@)
    }

    /// The characters of the chain identifier.
    pub closed spec fn spec_chain_id_chars(&self) -> Seq<char> {
        self.chain_id@
    }

    /// The height of the latest committed block.
    pub closed spec fn spec_height(&self) -> u64 {
        self.height
    }

    /// The contents of the persistent store.
    pub closed spec fn spec_storage(&self) -> Map<Seq<u8>, Seq<u8>> {
        self.storage@
    }

    /// The public key is the one derived from the private key.
    pub proof fn lemma_wf_keys(&self)
        requires
            self.wf(),
        ensures
            self.spec_public_key() == vrf_pk_of(self.spec_private_key()),
    {
        self.vrf_engine.lemma_wf_keys();
    }

    /// Opens the store at the given path and provisions the VRF identity
    /// through `from_storage`.
    pub fn new(storage_path: &str, chain_id: String) -> (r: Result<MyChainApp, AppError>)
        ensures
            r matches Ok(app) ==> {
                &&& app.wf()
                &&& app.spec_chain_id() == vstd::utf8::encode_utf8(chain_id@)
                &&& spec_stored_height(app.spec_storage()) == Some(app.spec_height())
                &&& app.spec_storage().contains_key(spec_key_vrf_public_key())
                &&& app.spec_storage()[spec_key_vrf_public_key()] == app.spec_public_key()
            },
    {
        let storage = match Storage::open(storage_path) {
            Ok(s) => s,
            Err(e) => {
                return Err(AppError::Store(e));
            },
        };
        MyChainApp::from_storage(storage, chain_id)
    }

    /// Provisions the VRF identity over an opened store. With no persisted
    /// public key, this is genesis: a fresh keypair is generated, both
    /// halves are persisted beside a height of 0 and a genesis digest.
    /// With a persisted public key the call is idempotent: the store is
    /// left exactly as it was, the persisted identity is reloaded — never
    /// regenerated or rotated — and the call fails rather than writes when
    /// the private key is absent or does not match the persisted public
    /// key.
    pub fn from_storage(storage: Storage, chain_id: String) -> (r: Result<MyChainApp, AppError>)
        ensures
            r matches Ok(app) ==> {
                &&& app.wf()
                &&& app.spec_chain_id() == vstd::utf8::encode_utf8(chain_id@)
                &&& spec_stored_height(app.spec_storage()) == Some(app.spec_height())
                &&& app.spec_storage().contains_key(spec_key_vrf_public_key())
                &&& app.spec_storage()[spec_key_vrf_public_key()] == app.spec_public_key()
                &&& storage@.contains_key(spec_key_vrf_public_key()) ==> {
                    &&& app.spec_storage() == storage@
                    &&& app.spec_public_key() == storage@[spec_key_vrf_public_key()]
                }
            },
            storage@.contains_key(spec_key_vrf_public_key()) && !storage@.contains_key(
                spec_key_vrf_private_key(),
            ) ==> r is Err,
            storage@.contains_key(spec_key_vrf_public_key()) && storage@.contains_key(
                spec_key_vrf_private_key(),
            ) && vrf_pk_of(storage@[spec_key_vrf_private_key()])
                != storage@[spec_key_vrf_public_key()] ==> r is Err,
    {
        let mut storage = storage;
        let existing_pk = match storage.get_vrf_public_key() {
            Ok(p) => p,
            Err(e) => {
                return Err(AppError::Store(e));
            },
        };
        if existing_pk.is_none() {
            // Genesis: provision a fresh identity, a height of 0 and the
            // genesis digest in one atomic batch, then fall through to the
            // common loading path below.
            let engine = match VrfEngine::generate() {
                Ok(e) => e,
                Err(e) => {
                    return Err(AppError::Key(e));
                },
            };
            let mut batch = storage.batch();
            let pk = engine.public_key_bytes();
            let sk = engine.private_key_bytes();
            storage.set_vrf_public_key(pk.as_slice(), &mut batch);
            storage.set_vrf_private_key(sk.as_slice(), &mut batch);
            storage.set_last_height(0, &mut batch);
            let zero_seed: [u8; 32] = [0u8; 32];
            let no_hashes: Vec<[u8; 32]> = Vec::new();
            let digest = compute_app_hash(0, &zero_seed, &pk, &no_hashes);
            storage.store_app_hash(0, &digest, &mut batch);
            match storage.apply_batch(batch) {
                Ok(()) => {},
                Err(e) => {
                    return Err(AppError::Store(e));
                },
            }
        }
        // Load the persisted identity; never regenerate it.
        let pk = match storage.get_vrf_public_key() {
            Ok(Some(p)) => p,
            Ok(None) => {
                return Err(AppError::Key(VrfError::Key));
            },
            Err(e) => {
                return Err(AppError::Store(e));
            },
        };
        let sk = match storage.get_vrf_private_key() {
            Ok(Some(s)) => s,
            Ok(None) => {
                return Err(AppError::Key(VrfError::Key));
            },
            Err(e) => {
                return Err(AppError::Store(e));
            },
        };
        let vrf_engine = match VrfEngine::from_private_key(sk.as_slice()) {
            Ok(e) => e,
            Err(e) => {
                return Err(AppError::Key(e));
            },
        };
        proof {
            vrf_engine.lemma_wf_keys();
        }
        let derived_pk = vrf_engine.public_key_bytes();
        if !bytes_eq(derived_pk.as_slice(), pk.as_slice()) {
            return Err(AppError::Key(VrfError::Key));
        }
        let height = match storage.get_last_height() {
            Ok(h) => h,
            Err(e) => {
                return Err(AppError::Store(e));
            },
        };
        Ok(MyChainApp { storage, vrf_engine, chain_id, height })
    }

    /// Stateless structural validation, run for every transaction offered
    /// to the mempool and again during block execution: accepts exactly
    /// the bytes `spec_tx_valid` accepts, and names the reason otherwise.
    /// Never touches the randomness engine and never mutates state.
    pub fn validate_tx(&self, tx_bytes: &[u8]) -> (r: Result<TxFlip, TxError>)
        ensures
            r is Ok <==> spec_tx_valid(tx_bytes@),
            r matches Ok(tx) ==> spec_tx_encode(tx) == tx_bytes@,
            r matches Err(e) ==> e == spec_tx_error(tx_bytes@),
    {
        let tx = match TxFlip::from_bytes(tx_bytes) {
            Ok(tx) => tx,
            Err(_) => {
                return Err(TxError::Decode);
            },
        };
        proof {
            lemma_auto_spec_u64_to_from_le_bytes();
            assert(tx_bytes@[0] == tx.version);
            assert(tx_bytes@.subrange(1, 33) =~= tx.wallet@);
            assert(tx_bytes@.subrange(33, 41) =~= spec_u64_to_le_bytes(tx.amount));
            assert(tx_bytes@.subrange(41, 49) =~= spec_u64_to_le_bytes(tx.nonce));
        }
        if tx.version != 1 {
            return Err(TxError::Version);
        }
        if tx.amount == 0 {
            return Err(TxError::Amount);
        }
        if wallet_is_zero(&tx.wallet) {
            return Err(TxError::Wallet);
        }
        Ok(tx)
    }

    /// Settles one validated transaction at a height: reads the block seed
    /// recorded for that height, computes the VRF message, proves, derives
    /// the outcome and assembles the record, which is pinned to the
    /// deterministic `spec_exec_record` of the inputs.
    pub fn execute_tx(&self, tx: &TxFlip, height: u64, tx_hash: [u8; 32]) -> (r: Result<
        BetRecord,
        AppError,
    >)
        requires
            self.wf(),
        ensures
            r matches Ok(rec) ==> {
                &&& self.spec_storage().contains_key(spec_key_block_seed(height))
                &&& rec@ == spec_exec_record(
                    self.spec_private_key(),
                    self.spec_chain_id(),
                    height,
                    self.spec_storage()[spec_key_block_seed(height)],
                    *tx,
                    tx_hash@,
                )
                &&& rec@.wf()
            },
            r == Err::<BetRecord, AppError>(AppError::MissingSeed) ==> !self.spec_storage()
                .contains_key(spec_key_block_seed(height)),
    {
        let seed = match self.storage.get_block_random(height) {
            Ok(Some(s)) => s,
            Ok(None) => {
                return Err(AppError::MissingSeed);
            },
            Err(e) => {
                return Err(AppError::Store(e));
            },
        };
        let flip = match self.vrf_engine.process_flip(
            self.chain_id.as_str(),
            height,
            seed.as_slice(),
            tx_hash.as_slice(),
            tx.wallet.as_slice(),
            tx.nonce,
        ) {
            Ok(f) => f,
            Err(e) => {
                return Err(AppError::Key(e));
            },
        };
        let (vrf_message, vrf_proof, vrf_output, result) = flip;
        let rec = BetRecord {
            wallet: tx.wallet,
            amount: tx.amount,
            nonce: tx.nonce,
            vrf_message,
            vrf_proof,
            vrf_output,
            result,
            height,
            tx_hash,
        };
        Ok(rec)
    }

    /// Executes one block at the next height: chains the block seed
    /// forward, settles every acceptable transaction in the authoritative
    /// input order (skipping unacceptable ones without aborting), stages
    /// every write, computes the state digest over the new records, and
    /// applies the batch atomically. The returned records, the new store
    /// contents and the digest are all pinned to spec functions of the
    /// prior state and the ordered transaction list alone.
    #[verifier::loop_isolation(false)]
    pub fn process_block(&mut self, txs: Vec<Vec<u8>>) -> (r: Result<Vec<BetRecord>, AppError>)
        requires
            old(self).wf(),
            old(self).spec_height() < u64::MAX,
        ensures
            final(self).wf(),
            final(self).spec_private_key() == old(self).spec_private_key(),
            final(self).spec_public_key() == old(self).spec_public_key(),
            final(self).spec_chain_id() == old(self).spec_chain_id(),
            r is Err ==> final(self).spec_height() == old(self).spec_height(),
            r matches Ok(records) ==> {
                let sk = old(self).spec_private_key();
                let chain = old(self).spec_chain_id();
                let h = (old(self).spec_height() + 1) as u64;
                let seed = spec_block_random(
                    spec_zero32(),
                    spec_prev_seed(old(self).spec_storage(), old(self).spec_height()),
                );
                let recs = spec_block_records(sk, chain, h, seed, txs@.map_values(|t: Vec<u8>| t@));
                &&& final(self).spec_height() == h
                &&& records@.map_values(|rec: BetRecord| rec@) == recs
                &&& forall|j: int|
                    0 <= j < records@.len() ==> (#[trigger] records@[j])@.wf()
                &&& final(self).spec_storage() == old(self).spec_storage().insert(
                    spec_key_block_seed(h),
                    seed,
                ).union_prefer_right(
                    spec_block_writes(sk, chain, h, seed, txs@.map_values(|t: Vec<u8>| t@)).insert(
                        spec_key_last_height(),
                        spec_u64_to_le_bytes(h),
                    ).insert(
                        spec_key_state_digest(h),
                        spec_app_hash(
                            h,
                            seed,
                            vrf_pk_of(sk),
                            recs.map_values(|rec: BetRecordV| rec.tx_hash),
                        ),
                    ),
                )
            },
    {
        let ghost sk = self.spec_private_key();
        let ghost pk0 = self.spec_public_key();
        let ghost chain = self.spec_chain_id();
        let ghost h0 = self.spec_height();
        let ghost txs_view = txs@.map_values(|t: Vec<u8>| t@);
        let new_height = self.height + 1;
        let prev_seed: [u8; 32] = match self.storage.get_block_random(self.height) {
            Ok(Some(s)) => s,
            Ok(None) => [0u8; 32],
            Err(e) => {
                return Err(AppError::Store(e));
            },
        };
        proof {
            assert(prev_seed@ == spec_prev_seed(self.spec_storage(), self.spec_height()));
        }
        let zero_hash: [u8; 32] = [0u8; 32];
        proof {
            assert(zero_hash@ =~= spec_zero32());
        }
        let new_seed = compute_block_random(zero_hash.as_slice(), prev_seed.as_slice());
        let ghost seed = new_seed@;
        match self.storage.set_block_random(new_height, &new_seed) {
            Ok(()) => {},
            Err(e) => {
                return Err(AppError::Store(e));
            },
        }
        let ghost mid = old(self).spec_storage().insert(spec_key_block_seed(new_height), seed);
        assert(self.spec_storage() == mid);
        let mut batch = self.storage.batch();
        let mut records: Vec<BetRecord> = Vec::new();
        let mut hashes: Vec<[u8; 32]> = Vec::new();
        let count: usize = txs.len();
        let mut i: usize = 0;
        while i < count
            invariant
                self.wf(),
                count == txs@.len(),
                i <= count,
                txs_view == txs@.map_values(|t: Vec<u8>| t@),
                sk == self.spec_private_key(),
                pk0 == self.spec_public_key(),
                chain == self.spec_chain_id(),
                h0 == self.spec_height(),
                new_height == h0 + 1,
                self.spec_storage() == mid,
                mid.contains_key(spec_key_block_seed(new_height)),
                mid[spec_key_block_seed(new_height)] == seed,
                records@.map_values(|rec: BetRecord| rec@) == spec_block_records(
                    sk,
                    chain,
                    new_height,
                    seed,
                    txs_view.take(i as int),
                ),
                hashes@.map_values(|hh: [u8; 32]| hh@) == spec_block_records(
                    sk,
                    chain,
                    new_height,
                    seed,
                    txs_view.take(i as int),
                ).map_values(|rec: BetRecordV| rec.tx_hash),
                batch@ == spec_block_writes(sk, chain, new_height, seed, txs_view.take(i as int)),
                forall|j: int| 0 <= j < records@.len() ==> (#[trigger] records@[j])@.wf(),
            decreases count - i,
        {
            let tx_bytes = vstd::slice::slice_index_get(txs.as_slice(), i);
            let tx_hash = blake3_hash(tx_bytes.as_slice());
            let ghost prev_records = records@.map_values(|rec: BetRecord| rec@);
            let ghost prev_hashes = hashes@.map_values(|hh: [u8; 32]| hh@);
            let ghost prev_batch = batch@;
            proof {
                assert(txs_view[i as int] == tx_bytes@);
            }
            match self.validate_tx(tx_bytes.as_slice()) {
                Ok(tx) => {
                    let rec = match self.execute_tx(&tx, new_height, tx_hash) {
                        Ok(rec) => rec,
                        Err(e) => {
                            return Err(e);
                        },
                    };
                    proof {
                        lemma_auto_spec_u64_to_from_le_bytes();
                        let b = tx_bytes@;
                        assert(b.subrange(1, 33) =~= tx.wallet@);
                        assert(b.subrange(33, 41) =~= spec_u64_to_le_bytes(tx.amount));
                        assert(b.subrange(41, 49) =~= spec_u64_to_le_bytes(tx.nonce));
                        assert(rec@ == spec_settled_record(sk, chain, new_height, seed, b));
                    }
                    self.storage.store_bet(tx_hash.as_slice(), &rec, &mut batch);
                    self.storage.store_tx_height(tx_hash.as_slice(), new_height, &mut batch);
                    records.push(rec);
                    hashes.push(tx_hash);
                    proof {
                        let srec = spec_settled_record(sk, chain, new_height, seed, tx_bytes@);
                        assert(records@.map_values(|rec2: BetRecord| rec2@) =~= prev_records.push(
                            srec,
                        ));
                        assert(tx_hash@ == srec.tx_hash);
                        assert(hashes@.map_values(|hh: [u8; 32]| hh@) =~= prev_hashes.push(
                            srec.tx_hash,
                        ));
                        assert(batch@ == prev_batch.insert(
                            spec_key_bet(srec.tx_hash),
                            spec_record_encode(srec),
                        ).insert(spec_key_tx_height(srec.tx_hash), spec_u64_to_le_bytes(new_height)));
                    }
                },
                Err(_) => {
                    proof {
                        assert(!spec_tx_valid(txs_view[i as int]));
                    }
                },
            }
            i = i + 1;
            proof {
                assert(txs_view.take(i as int).drop_last() =~= txs_view.take(i - 1));
                assert(txs_view.take(i as int).last() == txs_view[i - 1]);
                let srecs = spec_block_records(sk, chain, new_height, seed, txs_view.take(i as int));
                let prev_srecs = spec_block_records(sk, chain, new_height, seed, txs_view.take(i - 1));
                if spec_tx_valid(txs_view[i - 1]) {
                    assert(srecs == prev_srecs.push(
                        spec_settled_record(sk, chain, new_height, seed, txs_view[i - 1]),
                    ));
                } else {
                    assert(srecs == prev_srecs);
                }
                assert(records@.map_values(|rec: BetRecord| rec@) =~= srecs);
                assert(hashes@.map_values(|hh: [u8; 32]| hh@) =~= srecs.map_values(
                    |rec: BetRecordV| rec.tx_hash,
                ));
                assert(batch@ == spec_block_writes(sk, chain, new_height, seed, txs_view.take(i as int)));
            }
        }
        proof {
            assert(txs_view.take(count as int) =~= txs_view);
        }
        let pk = self.vrf_engine.public_key_bytes();
        proof {
            self.vrf_engine.lemma_wf_keys();
            assert(pk@ == vrf_pk_of(sk));
        }
        let digest = compute_app_hash(new_height, &new_seed, &pk, &hashes);
        self.storage.set_last_height(new_height, &mut batch);
        self.storage.store_app_hash(new_height, &digest, &mut batch);
        let ghost final_batch = batch@;
        match self.storage.apply_batch(batch) {
            Ok(()) => {},
            Err(e) => {
                return Err(AppError::Store(e));
            },
        }
        self.height = new_height;
        proof {
            let srecs = spec_block_records(sk, chain, new_height, seed, txs_view);
            assert(final_batch == spec_block_writes(sk, chain, new_height, seed, txs_view).insert(
                spec_key_last_height(),
                spec_u64_to_le_bytes(new_height),
            ).insert(
                spec_key_state_digest(new_height),
                spec_app_hash(
                    new_height,
                    seed,
                    vrf_pk_of(sk),
                    srecs.map_values(|rec: BetRecordV| rec.tx_hash),
                ),
            ));
            assert(self.spec_storage() == mid.union_prefer_right(final_batch));
        }
        Ok(records)
    }

    /// Looks up the settled bet for a transaction hash: read-only, and
    /// returns nothing rather than failing when the bet is unknown.
    pub fn query_bet(&self, tx_hash: &[u8; 32]) -> (r: Result<Option<BetRecord>, AppError>)
        ensures
            r matches Ok(Some(rec)) ==> self.spec_storage().contains_key(spec_key_bet(tx_hash@))
                && spec_record_decode(self.spec_storage()[spec_key_bet(tx_hash@)]) == Some(rec@),
            r matches Ok(None) ==> !self.spec_storage().contains_key(spec_key_bet(tx_hash@)),
    {
        match self.storage.get_bet(tx_hash.as_slice()) {
            Ok(v) => Ok(v),
            Err(e) => Err(AppError::Store(e)),
        }
    }

    /// Read-only query dispatch for the consensus adapter: the "/bet" path
    /// takes a 32-byte transaction hash and answers with the canonical
    /// encoding of the settled record. Result codes: 0 found, 2 malformed
    /// key, 4 not found, 5 storage failure, 6 unknown path; the value is
    /// present exactly on success.
    pub fn handle_query(&self, path: &str, data: &[u8]) -> (r: (u32, Option<Vec<u8>>))
        ensures
            r.0 == 0 || r.0 == 2 || r.0 == 4 || r.0 == 5 || r.0 == 6,
            path.spec_bytes() != "/bet".spec_bytes() ==> r.0 == 6 && r.1 is None,
            path.spec_bytes() == "/bet".spec_bytes() && data@.len() != 32 ==> r.0 == 2 && r.1
                is None,
            path.spec_bytes() == "/bet".spec_bytes() && data@.len() == 32
                && !self.spec_storage().contains_key(spec_key_bet(data@)) ==> r.0 == 4 || r.0 == 5,
            path.spec_bytes() == "/bet".spec_bytes() && data@.len() == 32
                && self.spec_storage().contains_key(spec_key_bet(data@)) && spec_record_decode(
                self.spec_storage()[spec_key_bet(data@)],
            ) is Some ==> r.0 == 0 || r.0 == 5,
            r.0 == 0 <==> r.1 is Some,
            r.1 matches Some(v) ==> {
                &&& path.spec_bytes() == "/bet".spec_bytes()
                &&& self.spec_storage().contains_key(spec_key_bet(data@))
                &&& spec_record_decode(self.spec_storage()[spec_key_bet(data@)]) matches Some(rec)
                    && v@ == spec_record_encode(rec)
            },
            r.0 == 4 ==> !self.spec_storage().contains_key(spec_key_bet(data@)),
    {
        if !bytes_eq(path.as_bytes(), "/bet".as_bytes()) {
            return (6, None);
        }
        if data.len() != 32 {
            return (2, None);
        }
        let tx_hash = crate::codec::bytes32(data);
        match self.storage.get_bet(tx_hash.as_slice()) {
            Ok(Some(rec)) => {
                let encoded = rec.to_bytes();
                proof {
                    assert(tx_hash@ == data@);
                }
                (0, Some(encoded))
            },
            Ok(None) => (4, None),
            Err(_) => (5, None),
        }
    }

    /// The height of the latest committed block.
    pub fn get_height(&self) -> (r: u64)
        ensures
            r == self.spec_height(),
    {
        self.height
    }

    /// The chain identifier this executor settles bets for.
    pub fn get_chain_id(&self) -> (r: &str)
        ensures
            r@ == self.spec_chain_id_chars(),
    {
        self.chain_id.as_str()
    }
}

/// Digest determinism: the records of a block, and with them the state
/// digest, are pure functions of the key, chain, height, seed and the
/// ordered transaction list, so executing the same ordered list twice
/// from the same prior state yields the same digest both times.
pub proof fn lemma_block_determinism(
    sk: Seq<u8>,
    chain: Seq<u8>,
    height: u64,
    seed: Seq<u8>,
    txs1: Seq<Seq<u8>>,
    txs2: Seq<Seq<u8>>,
)
    requires
        txs1 == txs2,
    ensures
        spec_block_records(sk, chain, height, seed, txs1) == spec_block_records(
            sk,
            chain,
            height,
            seed,
            txs2,
        ),
        spec_app_hash(
            height,
            seed,
            vrf_pk_of(sk),
            spec_block_records(sk, chain, height, seed, txs1).map_values(
                |rec: BetRecordV| rec.tx_hash,
            ),
        ) == spec_app_hash(
            height,
            seed,
            vrf_pk_of(sk),
            spec_block_records(sk, chain, height, seed, txs2).map_values(
                |rec: BetRecordV| rec.tx_hash,
            ),
        ),
{
}

/// Mempool and execution agree: a transaction the admission check accepts
/// is settled by the block that includes it, and one it rejects never
/// produces a record, so no transaction accepted at admission is later
/// rejected for the same reason, or the other way round.
pub proof fn lemma_check_execute_consistent(
    sk: Seq<u8>,
    chain: Seq<u8>,
    height: u64,
    seed: Seq<u8>,
    txs: Seq<Seq<u8>>,
    i: int,
)
    requires
        0 <= i < txs.len(),
    ensures
        spec_tx_valid(txs[i]) <==> spec_block_records(sk, chain, height, seed, txs.take(i + 1)).len()
            == spec_block_records(sk, chain, height, seed, txs.take(i)).len() + 1,
{
    assert(txs.take(i + 1).drop_last() =~= txs.take(i));
    assert(txs.take(i + 1).last() == txs[i]);
}

/// The ASCII characters a byte string below 128 denotes, one character per
/// byte.
pub open spec fn spec_ascii_chars(s: Seq<u8>) -> Seq<char> {
    s.map_values(|b: u8| b as char)
}

/// The event emitted for one settled bet, in the form external indexers
/// consume: wallet, transaction hash, proof and output as lower-case hex
/// strings, the amount as a decimal string, and the outcome spelled out.
pub struct FlipEvent {
    /// The wallet address, hex-encoded.
    pub wallet: String,
    /// The wager amount, as a decimal string.
    pub amount: String,
    /// The outcome: "heads" or "tails".
    pub result: String,
    /// The transaction hash, hex-encoded.
    pub tx_hash: String,
    /// The VRF proof, hex-encoded.
    pub vrf_proof: String,
    /// The VRF output, hex-encoded.
    pub vrf_output: String,
}

impl FlipEvent {
    /// Renders the event for one settled bet. Every field is pinned to the
    /// record's contents, so indexers see exactly what was persisted.
    pub fn from_record(record: &BetRecord) -> (r: FlipEvent)
        ensures
            r.wallet@ == spec_ascii_chars(spec_hex(record@.wallet)),
            r.amount@ == spec_ascii_chars(spec_decimal(record@.amount as nat)),
            record@.result ==> r.result@ == "heads"@,
            !record@.result ==> r.result@ == "tails"@,
            r.tx_hash@ == spec_ascii_chars(spec_hex(record@.tx_hash)),
            r.vrf_proof@ == spec_ascii_chars(spec_hex(record@.vrf_proof)),
            r.vrf_output@ == spec_ascii_chars(spec_hex(record@.vrf_output)),
    {
        FlipEvent {
            wallet: ascii_string(hex_bytes(record.wallet.as_slice())),
            amount: ascii_string(decimal_bytes(record.amount)),
            result: if record.result {
                String::from_str("heads")
            } else {
                String::from_str("tails")
            },
            tx_hash: ascii_string(hex_bytes(record.tx_hash.as_slice())),
            vrf_proof: ascii_string(hex_bytes(record.vrf_proof.as_slice())),
            vrf_output: ascii_string(hex_bytes(record.vrf_output.as_slice())),
        }
    }
}

/// Whether two byte strings are equal.
fn bytes_eq(a: &[u8], b: &[u8]) -> (r: bool)
    ensures
        r <==> a@ == b@,
{
    if a.len() != b.len() {
        assert(a@ != b@);
        return false;
    }
    let n: usize = a.len();
    let mut i: usize = 0;
    while i < n
        invariant
            n == a@.len(),
            n == b@.len(),
            i <= n,
            forall|j: int| 0 <= j < i ==> a@[j] == b@[j],
        decreases n - i,
    {
        if *vstd::slice::slice_index_get(a, i) != *vstd::slice::slice_index_get(b, i) {
            assert(a@[i as int] != b@[i as int]);
            return false;
        }
        i = i + 1;
    }
    assert(a@ =~= b@);
    true
}

/// Whether a wallet address is all-zero.
fn wallet_is_zero(w: &[u8; 32]) -> (r: bool)
    ensures
        r <==> w@ == spec_zero32(),
{
    let mut i: usize = 0;
    while i < 32
        invariant
            i <= 32,
            forall|j: int| 0 <= j < i ==> w@[j] == 0,
        decreases 32 - i,
    {
        if *vstd::slice::slice_index_get(w.as_slice(), i) != 0 {
            assert(w@[i as int] != 0);
            assert(w@ != spec_zero32());
            return false;
        }
        i = i + 1;
    }
    assert(w@ =~= spec_zero32());
    true
}

} // verus!
