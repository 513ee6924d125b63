//! Transactions, settled-bet records, and the canonical wire encoding.
//!
//! The wire encoding is a fixed, versioned binary layout: field order and
//! widths are fixed, and every integer is little-endian. The content hash of
//! a transaction is the BLAKE3 digest of this canonical encoding, so the
//! encoding must be stable across replicas; the round-trip and injectivity
//! lemmas below pin it down.

use vstd::prelude::*;
use vstd::bytes::*;
use crate::hashes::{blake3_of, blake3_hash};
use crate::errors::TxError;

verus! {

broadcast use vstd::array::group_array_axioms;

/// Exact length in bytes of an encoded transaction.
pub const TX_ENCODING_LEN: usize = 49;

/// A caller's wager intent. Immutable once constructed; its identity is the
/// BLAKE3 hash of its canonical encoding.
#[derive(Clone, Copy, Debug, PartialEq, Eq)]
#[verifier::ext_equal]
pub struct TxFlip {
    /// Protocol version; only version 1 is accepted.
    pub version: u8,
    /// Wallet address; must not be all-zero.
    pub wallet: [u8; 32],
    /// Wager amount in minimal units; must be positive.
    pub amount: u64,
    /// Caller-chosen replay-prevention nonce.
    pub nonce: u64,
}

/// Canonical encoding of a transaction: version byte, wallet, then amount
/// and nonce as 8 little-endian bytes each; 49 bytes in all.
pub open spec fn spec_tx_encode(tx: TxFlip) -> Seq<u8> {
    seq![tx.version] + tx.wallet@ + spec_u64_to_le_bytes(tx.amount) + spec_u64_to_le_bytes(tx.nonce)
}

/// Content hash of a transaction: BLAKE3 of the canonical encoding.
pub open spec fn spec_tx_hash(tx: TxFlip) -> Seq<u8> {
    blake3_of(spec_tx_encode(tx))
}

impl TxFlip {
    /// Builds a version-1 transaction from its fields.
    pub fn new(wallet: [u8; 32], amount: u64, nonce: u64) -> (r: TxFlip)
        ensures
            r == (TxFlip { version: 1, wallet, amount, nonce }),
    {
        TxFlip { version: 1, wallet, amount, nonce }
    }

    /// Serializes to the canonical 49-byte encoding.
    pub fn to_bytes(&self) -> (r: Vec<u8>)
        ensures
            r@ == spec_tx_encode(*self),
            r@.len() == TX_ENCODING_LEN,
    {
        proof {
            lemma_auto_spec_u64_to_from_le_bytes();
        }
        let mut out: Vec<u8> = Vec::new();
        out.push(self.version);
        out.extend_from_slice(self.wallet.as_slice());
        let mut amount_bytes = u64_to_le_bytes(self.amount);
        out.append(&mut amount_bytes);
        let mut nonce_bytes = u64_to_le_bytes(self.nonce);
        out.append(&mut nonce_bytes);
        assert(out@ =~= spec_tx_encode(*self));
        out
    }

    /// Parses the canonical encoding; accepts exactly the 49-byte layout.
    pub fn from_bytes(data: &[u8]) -> (r: Result<TxFlip, TxError>)
        ensures
            r is Ok <==> data@.len() == TX_ENCODING_LEN,
            r matches Ok(tx) ==> spec_tx_encode(tx) == data@,
            r is Err ==> r == Err::<TxFlip, TxError>(TxError::Decode),
    {
        proof {
            lemma_auto_spec_u64_to_from_le_bytes();
        }
        if data.len() != TX_ENCODING_LEN {
            return Err(TxError::Decode);
        }
        let version = data[0];
        let wallet = crate::codec::bytes32(vstd::slice::slice_subrange(data, 1, 33));
        let amount = u64_from_le_bytes(vstd::slice::slice_subrange(data, 33, 41));
        let nonce = u64_from_le_bytes(vstd::slice::slice_subrange(data, 41, 49));
        let tx = TxFlip { version, wallet, amount, nonce };
        proof {
            assert(spec_tx_encode(tx) =~= data@);
        }
        Ok(tx)
    }

    /// The transaction's content hash: BLAKE3 of the canonical encoding.
    pub fn hash(&self) -> (r: [u8; 32])
        ensures
            r@ == spec_tx_hash(*self),
    {
        let bytes = self.to_bytes();
        blake3_hash(bytes.as_slice())
    }
}

/// The canonical encoding is injective: equal encodings come from equal
/// transactions, so the content hash identifies the transaction up to hash
/// collisions.
pub proof fn lemma_tx_encode_injective(a: TxFlip, b: TxFlip)
    requires
        spec_tx_encode(a) == spec_tx_encode(b),
    ensures
        a == b,
{
    lemma_auto_spec_u64_to_from_le_bytes();
    let e = spec_tx_encode(a);
    assert(a.version == e[0] && b.version == e[0]);
    assert(a.wallet@ =~= e.subrange(1, 33));
    assert(b.wallet@ =~= e.subrange(1, 33));
    assert(a.wallet =~= b.wallet);
    assert(spec_u64_to_le_bytes(a.amount) =~= e.subrange(33, 41));
    assert(spec_u64_to_le_bytes(b.amount) =~= e.subrange(33, 41));
    assert(a.amount == spec_u64_from_le_bytes(e.subrange(33, 41)));
    assert(b.amount == spec_u64_from_le_bytes(e.subrange(33, 41)));
    assert(spec_u64_to_le_bytes(a.nonce) =~= e.subrange(41, 49));
    assert(spec_u64_to_le_bytes(b.nonce) =~= e.subrange(41, 49));
    assert(a.nonce == spec_u64_from_le_bytes(e.subrange(41, 49)));
    assert(b.nonce == spec_u64_from_le_bytes(e.subrange(41, 49)));
    assert(a =~= b);
}

/// Every canonical encoding has the accepted length, so parsing an
/// encoding always succeeds, and by injectivity recovers the encoded
/// transaction.
pub proof fn lemma_tx_encode_len(tx: TxFlip)
    ensures
        spec_tx_encode(tx).len() == TX_ENCODING_LEN,
{
    lemma_auto_spec_u64_to_from_le_bytes();
}

/// The settled outcome of one bet, persisted permanently and never mutated.
#[derive(Clone, Debug)]
pub struct BetRecord {
    /// Wallet address copied from the transaction.
    pub wallet: [u8; 32],
    /// Wager amount copied from the transaction.
    pub amount: u64,
    /// Nonce copied from the transaction.
    pub nonce: u64,
    /// The VRF input message the proof was produced over.
    pub vrf_message: Vec<u8>,
    /// The VRF proof.
    pub vrf_proof: Vec<u8>,
    /// The VRF output committed by the proof.
    pub vrf_output: Vec<u8>,
    /// The derived coin-flip outcome: true is heads, false is tails.
    pub result: bool,
    /// Height of the block that settled the bet.
    pub height: u64,
    /// Content hash of the transaction; the primary lookup key.
    pub tx_hash: [u8; 32],
}

/// The mathematical value of a bet record: every byte field as a sequence.
#[verifier::ext_equal]
pub struct BetRecordV {
    pub wallet: Seq<u8>,
    pub amount: u64,
    pub nonce: u64,
    pub vrf_message: Seq<u8>,
    pub vrf_proof: Seq<u8>,
    pub vrf_output: Seq<u8>,
    pub result: bool,
    pub height: u64,
    pub tx_hash: Seq<u8>,
}

impl View for BetRecord {
    type V = BetRecordV;

    open spec fn view(&self) -> BetRecordV {
        BetRecordV {
            wallet: self.wallet@,
            amount: self.amount,
            nonce: self.nonce,
            vrf_message: self.vrf_message@,
            vrf_proof: self.vrf_proof@,
            vrf_output: self.vrf_output@,
            result: self.result,
            height: self.height,
            tx_hash: self.tx_hash@,
        }
    }
}

impl BetRecordV {
    /// Shape every record produced by the executor has: fixed-width hashes
    /// and variable fields short enough for their length prefixes.
    pub open spec fn wf(self) -> bool {
        &&& self.wallet.len() == 32
        &&& self.tx_hash.len() == 32
        &&& self.vrf_message.len() <= u64::MAX
        &&& self.vrf_proof.len() <= u64::MAX
        &&& self.vrf_output.len() <= u64::MAX
    }
}

/// A byte string prefixed with its length as 8 little-endian bytes.
pub open spec fn spec_len_prefixed(s: Seq<u8>) -> Seq<u8> {
    spec_u64_to_le_bytes(s.len() as u64) + s
}

/// Canonical encoding of a bet record: wallet, amount, nonce, the three
/// length-prefixed VRF byte strings, the outcome byte, height, and the
/// transaction hash.
pub open spec fn spec_record_encode(r: BetRecordV) -> Seq<u8> {
    r.wallet + spec_u64_to_le_bytes(r.amount) + spec_u64_to_le_bytes(r.nonce)
        + spec_len_prefixed(r.vrf_message) + spec_len_prefixed(r.vrf_proof) + spec_len_prefixed(
        r.vrf_output,
    ) + seq![(if r.result { 1u8 } else { 0u8 })] + spec_u64_to_le_bytes(r.height) + r.tx_hash
}

/// Deterministic parse of the canonical record encoding. Returns `None` for
/// any byte string that is not exactly the encoding of some record.
pub open spec fn spec_record_decode(d: Seq<u8>) -> Option<BetRecordV> {
    if d.len() < 56 {
        None
    } else {
        let l1 = spec_u64_from_le_bytes(d.subrange(48, 56)) as int;
        if d.len() < 64 + l1 {
            None
        } else {
            let l2 = spec_u64_from_le_bytes(d.subrange(56 + l1, 64 + l1)) as int;
            if d.len() < 72 + l1 + l2 {
                None
            } else {
                let l3 = spec_u64_from_le_bytes(d.subrange(64 + l1 + l2, 72 + l1 + l2)) as int;
                if d.len() != 113 + l1 + l2 + l3 {
                    None
                } else {
                    let rb = d[72 + l1 + l2 + l3];
                    if rb != 0 && rb != 1 {
                        None
                    } else {
                        Some(
                            BetRecordV {
                                wallet: d.subrange(0, 32),
                                amount: spec_u64_from_le_bytes(d.subrange(32, 40)),
                                nonce: spec_u64_from_le_bytes(d.subrange(40, 48)),
                                vrf_message: d.subrange(56, 56 + l1),
                                vrf_proof: d.subrange(64 + l1, 64 + l1 + l2),
                                vrf_output: d.subrange(72 + l1 + l2, 72 + l1 + l2 + l3),
                                result: rb == 1,
                                height: spec_u64_from_le_bytes(
                                    d.subrange(73 + l1 + l2 + l3, 81 + l1 + l2 + l3),
                                ),
                                tx_hash: d.subrange(81 + l1 + l2 + l3, 113 + l1 + l2 + l3),
                            },
                        )
                    }
                }
            }
        }
    }
}

impl BetRecord {
    /// Serializes to the canonical encoding.
    pub fn to_bytes(&self) -> (r: Vec<u8>)
        ensures
            r@ == spec_record_encode(self@),
    {
        proof {
            lemma_auto_spec_u64_to_from_le_bytes();
        }
        let mut out: Vec<u8> = Vec::new();
        out.extend_from_slice(self.wallet.as_slice());
        let mut t = u64_to_le_bytes(self.amount);
        out.append(&mut t);
        let mut t = u64_to_le_bytes(self.nonce);
        out.append(&mut t);
        let mut t = u64_to_le_bytes(self.vrf_message.len() as u64);
        out.append(&mut t);
        out.extend_from_slice(self.vrf_message.as_slice());
        let mut t = u64_to_le_bytes(self.vrf_proof.len() as u64);
        out.append(&mut t);
        out.extend_from_slice(self.vrf_proof.as_slice());
        let mut t = u64_to_le_bytes(self.vrf_output.len() as u64);
        out.append(&mut t);
        out.extend_from_slice(self.vrf_output.as_slice());
        out.push(if self.result { 1 } else { 0 });
        let mut t = u64_to_le_bytes(self.height);
        out.append(&mut t);
        out.extend_from_slice(self.tx_hash.as_slice());
        assert(out@ =~= spec_record_encode(self@));
        out
    }

    /// Parses the canonical encoding; accepts exactly the encodings that
    /// `spec_record_decode` accepts, and returns the decoded record.
    pub fn from_bytes(data: &[u8]) -> (r: Result<BetRecord, TxError>)
        ensures
            r matches Ok(rec) ==> spec_record_decode(data@) == Some(rec@),
            r is Err ==> spec_record_decode(data@) is None,
    {
        proof {
            lemma_auto_spec_u64_to_from_le_bytes();
        }
        let n: usize = data.len();
        if n < 56 {
            return Err(TxError::Decode);
        }
        let l1 = u64_from_le_bytes(vstd::slice::slice_subrange(data, 48, 56));
        if n < 64 || l1 > (n - 64) as u64 {
            return Err(TxError::Decode);
        }
        let l1s: usize = l1 as usize;
        let o1: usize = 56 + l1s;
        let l2 = u64_from_le_bytes(vstd::slice::slice_subrange(data, o1, o1 + 8));
        let rem1: usize = n - o1 - 8;
        if rem1 < 8 || l2 > (rem1 - 8) as u64 {
            return Err(TxError::Decode);
        }
        let l2s: usize = l2 as usize;
        let o2: usize = o1 + 8 + l2s;
        let l3 = u64_from_le_bytes(vstd::slice::slice_subrange(data, o2, o2 + 8));
        let rem: usize = n - o2 - 8;
        if l3 > rem as u64 {
            return Err(TxError::Decode);
        }
        let l3s: usize = l3 as usize;
        if rem < 41 || rem - 41 != l3s {
            return Err(TxError::Decode);
        }
        let o3: usize = o2 + 8 + l3s;
        let rb = data[o3];
        if rb != 0 && rb != 1 {
            return Err(TxError::Decode);
        }
        let rec = BetRecord {
            wallet: crate::codec::bytes32(vstd::slice::slice_subrange(data, 0, 32)),
            amount: u64_from_le_bytes(vstd::slice::slice_subrange(data, 32, 40)),
            nonce: u64_from_le_bytes(vstd::slice::slice_subrange(data, 40, 48)),
            vrf_message: vstd::slice::slice_to_vec(vstd::slice::slice_subrange(data, 56, o1)),
            vrf_proof: vstd::slice::slice_to_vec(vstd::slice::slice_subrange(data, o1 + 8, o2)),
            vrf_output: vstd::slice::slice_to_vec(vstd::slice::slice_subrange(data, o2 + 8, o3)),
            result: rb == 1,
            height: u64_from_le_bytes(vstd::slice::slice_subrange(data, o3 + 1, o3 + 9)),
            tx_hash: crate::codec::bytes32(vstd::slice::slice_subrange(data, o3 + 9, o3 + 41)),
        };
        proof {
            assert(spec_record_decode(data@) == Some(rec@));
        }
        Ok(rec)
    }
}

/// Parsing the canonical record encoding recovers the record: the wire
/// format is unambiguous for every well-formed record.
pub proof fn lemma_record_roundtrip(v: BetRecordV)
    requires
        v.wf(),
    ensures
        spec_record_decode(spec_record_encode(v)) == Some(v),
{
    lemma_auto_spec_u64_to_from_le_bytes();
    let e = spec_record_encode(v);
    let m = v.vrf_message.len() as int;
    let p = v.vrf_proof.len() as int;
    let o = v.vrf_output.len() as int;
    assert(e.len() == 113 + m + p + o);
    assert(e.subrange(48, 56) =~= spec_u64_to_le_bytes(v.vrf_message.len() as u64));
    assert(spec_u64_from_le_bytes(e.subrange(48, 56)) as int == m);
    assert(e.subrange(56 + m, 64 + m) =~= spec_u64_to_le_bytes(v.vrf_proof.len() as u64));
    assert(spec_u64_from_le_bytes(e.subrange(56 + m, 64 + m)) as int == p);
    assert(e.subrange(64 + m + p, 72 + m + p) =~= spec_u64_to_le_bytes(v.vrf_output.len() as u64));
    assert(spec_u64_from_le_bytes(e.subrange(64 + m + p, 72 + m + p)) as int == o);
    assert(e[72 + m + p + o] == (if v.result { 1u8 } else { 0u8 }));
    assert(e.subrange(0, 32) =~= v.wallet);
    assert(e.subrange(32, 40) =~= spec_u64_to_le_bytes(v.amount));
    assert(e.subrange(40, 48) =~= spec_u64_to_le_bytes(v.nonce));
    assert(e.subrange(56, 56 + m) =~= v.vrf_message);
    assert(e.subrange(64 + m, 64 + m + p) =~= v.vrf_proof);
    assert(e.subrange(72 + m + p, 72 + m + p + o) =~= v.vrf_output);
    assert(e.subrange(73 + m + p + o, 81 + m + p + o) =~= spec_u64_to_le_bytes(v.height));
    assert(e.subrange(81 + m + p + o, 113 + m + p + o) =~= v.tx_hash);
    assert(spec_record_decode(e) == Some(v)) by {
        assert(spec_record_decode(e).unwrap() =~= v);
    }
}

/// Concatenation of a list of byte strings, in order.
pub open spec fn spec_concat(hs: Seq<Seq<u8>>) -> Seq<u8>
    decreases hs.len(),
{
    if hs.len() == 0 {
        Seq::empty()
    } else {
        spec_concat(hs.drop_last()) + hs.last()
    }
}

/// Preimage of the state digest for one block: height, the block seed, the
/// length-prefixed VRF public key, and the ordered transaction hashes of the
/// records written in the block.
pub open spec fn spec_digest_preimage(
    height: u64,
    block_seed: Seq<u8>,
    vrf_public_key: Seq<u8>,
    record_hashes: Seq<Seq<u8>>,
) -> Seq<u8> {
    spec_u64_to_le_bytes(height) + block_seed + spec_u64_to_le_bytes(vrf_public_key.len() as u64)
        + vrf_public_key + spec_concat(record_hashes)
}

/// The state digest for one block: BLAKE3 of the digest preimage.
pub open spec fn spec_app_hash(
    height: u64,
    block_seed: Seq<u8>,
    vrf_public_key: Seq<u8>,
    record_hashes: Seq<Seq<u8>>,
) -> Seq<u8> {
    blake3_of(spec_digest_preimage(height, block_seed, vrf_public_key, record_hashes))
}

/// Computes the state digest committing to one block: the height, the block
/// seed, the active VRF public key, and every bet record written in the
/// block, in transaction order. A pure function of its arguments, so every
/// replica that applies the same block reaches the same digest.
pub fn compute_app_hash(
    height: u64,
    block_seed: &[u8; 32],
    vrf_public_key: &Vec<u8>,
    record_hashes: &Vec<[u8; 32]>,
) -> (r: [u8; 32])
    ensures
        r@ == spec_app_hash(
            height,
            block_seed@,
            vrf_public_key@,
            record_hashes@.map_values(|h: [u8; 32]| h@),
        ),
{
    proof {
        lemma_auto_spec_u64_to_from_le_bytes();
    }
    let ghost hashes_view = record_hashes@.map_values(|h: [u8; 32]| h@);
    let mut pre: Vec<u8> = Vec::new();
    let mut t = u64_to_le_bytes(height);
    pre.append(&mut t);
    pre.extend_from_slice(block_seed.as_slice());
    let mut t = u64_to_le_bytes(vrf_public_key.len() as u64);
    pre.append(&mut t);
    pre.extend_from_slice(vrf_public_key.as_slice());
    let ghost base = pre@;
    let count: usize = record_hashes.len();
    let mut i: usize = 0;
    while i < count
        invariant
            count == record_hashes@.len(),
            i <= count,
            hashes_view == record_hashes@.map_values(|h: [u8; 32]| h@),
            pre@ == base + spec_concat(hashes_view.take(i as int)),
        decreases count - i,
    {
        pre.extend_from_slice(record_hashes[i].as_slice());
        i = i + 1;
        proof {
            assert(hashes_view.take(i as int).drop_last() =~= hashes_view.take(i - 1));
            assert(pre@ =~= base + spec_concat(hashes_view.take(i as int)));
        }
    }
    proof {
        assert(hashes_view.take(count as int) =~= hashes_view);
        assert(pre@ =~= spec_digest_preimage(height, block_seed@, vrf_public_key@, hashes_view));
    }
    blake3_hash(pre.as_slice())
}

} // verus!
