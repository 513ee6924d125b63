//! The verifiable-randomness engine.
//!
//! Key generation, proving and verification go through the ECVRF of the
//! `fastcrypto` crate (Ristretto255, deterministic nonce derivation per the
//! IRTF ECVRF draft). The engine's own contracts are stated over four names
//! for what that implementation computes: key validity, the public key
//! derived from a private key, the proof for a message, and the output a
//! proof commits to. Message construction and outcome derivation are
//! verified here against the hash names.

use vstd::prelude::*;
use vstd::bytes::*;
use vstd::string::StringSliceAdditionalSpecFns;
use crate::hashes::{blake3_of, blake3_hash, sha256_of, sha256_hash};
use crate::errors::VrfError;
use fastcrypto::vrf::VRFKeyPair;
use fastcrypto::vrf::VRFProof;
use fastcrypto::vrf::ecvrf::{ECVRFKeyPair, ECVRFPrivateKey, ECVRFProof, ECVRFPublicKey};

verus! {

/// Whether these bytes decode to a usable ECVRF private key (a canonical
/// Ristretto255 scalar); a function of the bytes alone.
pub uninterp spec fn vrf_sk_valid(sk: Seq<u8>) -> bool;

/// The serialized public key derived from a private key; a function of the
/// private-key bytes alone.
pub uninterp spec fn vrf_pk_of(sk: Seq<u8>) -> Seq<u8>;

/// The serialized ECVRF proof for a message under a private key. Proving is
/// deterministic (the nonce is derived by hashing), so this is a function
/// of key and message alone.
pub uninterp spec fn vrf_proof_of(sk: Seq<u8>, message: Seq<u8>) -> Seq<u8>;

/// The 64-byte pseudorandom output a serialized proof commits to; a
/// function of the proof bytes alone.
pub uninterp spec fn vrf_output_of_proof(proof: Seq<u8>) -> Seq<u8>;

/// Whether ECVRF verification accepts this proof for this public key and
/// message. Verification is a deterministic check of the proof equation,
/// so acceptance is a function of the three byte strings alone; bytes that
/// do not decode to a key or a proof are never accepted.
pub uninterp spec fn vrf_proof_valid(public_key: Seq<u8>, message: Seq<u8>, proof: Seq<u8>) -> bool;

/// The all-zero 32-byte string: the encoding of the Ristretto identity
/// point, which is the one public key ECVRF verification rejects as
/// invalid.
pub open spec fn spec_zero32() -> Seq<u8> {
    Seq::new(32, |i: int| 0u8)
}

#[verifier::external_type_specification]
#[verifier::external_body]
pub struct ExThreadRng(rand::rngs::ThreadRng);

/// Relies on rand::thread_rng: a cryptographically secure generator, used
/// only for key creation.
#[verifier::external_body]
fn new_rng() -> rand::rngs::ThreadRng {
    rand::thread_rng()
}

/// Relies on fastcrypto's ECVRFKeyPair::generate: draws a random scalar and
/// derives its public key, so the public key is a function of the private
/// key; both serialize to 32 canonical bytes.
#[verifier::external_body]
fn ecvrf_generate(rng: &mut rand::rngs::ThreadRng) -> (r: (Vec<u8>, Vec<u8>))
    ensures
        vrf_sk_valid(r.0@),
        r.1@ == vrf_pk_of(r.0@),
        r.0@.len() == 32,
        r.1@.len() == 32,
{
    let kp = ECVRFKeyPair::generate(rng);
    let sk = bincode::serialize(&kp.sk).unwrap();
    let pk = bincode::serialize(&kp.pk).unwrap();
    (sk, pk)
}

/// Relies on fastcrypto's ECVRFKeyPair::from: rebuilding the keypair from
/// serialized private-key bytes succeeds exactly when the bytes decode to a
/// canonical scalar, and then yields the same public key every time.
#[verifier::external_body]
fn ecvrf_derive_public(sk: &[u8]) -> (r: Result<Vec<u8>, VrfError>)
    ensures
        r is Ok <==> vrf_sk_valid(sk@),
        r matches Ok(pk) ==> pk@ == vrf_pk_of(sk@) && pk@.len() == 32,
{
    let sk_key: ECVRFPrivateKey = match bincode::deserialize(sk) {
        Ok(k) => k,
        Err(_) => {
            return Err(VrfError::Key);
        },
    };
    let kp = ECVRFKeyPair::from(sk_key);
    Ok(bincode::serialize(&kp.pk).unwrap())
}

/// Relies on fastcrypto's ECVRFKeyPair::output: the proof is computed
/// deterministically from key and message, and the returned output is the
/// hash the proof itself commits to. The proof serializes to 80 bytes: a
/// 32-byte point, a 16-byte challenge and a 32-byte scalar.
#[verifier::external_body]
fn ecvrf_prove(sk: &[u8], message: &[u8]) -> (r: (Vec<u8>, Vec<u8>))
    requires
        vrf_sk_valid(sk@),
    ensures
        r.0@ == vrf_proof_of(sk@, message@),
        r.0@.len() == 80,
        r.1@ == vrf_output_of_proof(r.0@),
        r.1@.len() == 64,
{
    let sk_key: ECVRFPrivateKey = bincode::deserialize(sk).unwrap();
    let kp = ECVRFKeyPair::from(sk_key);
    let (output, proof) = kp.output(message);
    (bincode::serialize(&proof).unwrap(), output.to_vec())
}

/// Relies on fastcrypto's ECVRFProof::verify: deterministically checks
/// the proof equation against the public key and message, succeeding
/// exactly on the accepted triples. On success the returned output is the
/// hash committed by the proof; a proof honestly produced under the
/// matching valid key always passes.
#[verifier::external_body]
fn ecvrf_verify(public_key: &[u8], message: &[u8], proof: &[u8]) -> (r: Result<Vec<u8>, VrfError>)
    ensures
        r is Ok <==> vrf_proof_valid(public_key@, message@, proof@),
        r matches Ok(out) ==> out@ == vrf_output_of_proof(proof@) && out@.len() == 64,
        (forall|sk: Seq<u8>|
            vrf_sk_valid(sk) && #[trigger] vrf_proof_of(sk, message@) == proof@ && vrf_pk_of(sk)
                == public_key@ && public_key@ != spec_zero32() ==> r is Ok),
{
    let Ok(pk_key) = bincode::deserialize::<ECVRFPublicKey>(public_key) else {
        return Err(VrfError::Verify);
    };
    let Ok(pf) = bincode::deserialize::<ECVRFProof>(proof) else {
        return Err(VrfError::Verify);
    };
    match pf.verify(message, &pk_key) {
        Ok(()) => Ok(pf.to_hash().to_vec()),
        Err(_) => Err(VrfError::Verify),
    }
}

/// Domain-separation tag of every VRF input message.
pub open spec fn spec_domain_tag() -> Seq<u8> {
    "MYCHAIN:VRF:v1".spec_bytes()
}

/// Preimage of the VRF input message: the domain tag, the chain id, and the
/// per-bet fields, each integer as 8 little-endian bytes.
pub open spec fn spec_message_preimage(
    chain_id: Seq<u8>,
    height: u64,
    block_random: Seq<u8>,
    tx_hash: Seq<u8>,
    wallet: Seq<u8>,
    nonce: u64,
) -> Seq<u8> {
    spec_domain_tag() + chain_id + spec_u64_to_le_bytes(height) + block_random + tx_hash + wallet
        + spec_u64_to_le_bytes(nonce)
}

/// The VRF input message: SHA-256 of the message preimage, so a pure
/// function of its inputs.
pub open spec fn spec_vrf_message(
    chain_id: Seq<u8>,
    height: u64,
    block_random: Seq<u8>,
    tx_hash: Seq<u8>,
    wallet: Seq<u8>,
    nonce: u64,
) -> Seq<u8> {
    sha256_of(spec_message_preimage(chain_id, height, block_random, tx_hash, wallet, nonce))
}

/// The coin-flip outcome a VRF output commits to: the low bit of the first
/// byte of a secondary BLAKE3 hash, so the bit does not depend on the
/// structure of the VRF output itself.
pub open spec fn spec_flip_result(output: Seq<u8>) -> bool {
    blake3_of(output)[0] & 1 == 1
}

/// The chained per-height entropy seed: BLAKE3 of the previous block hash
/// followed by the previous seed.
pub open spec fn spec_block_random(prev_block_hash: Seq<u8>, prev_vrf_accum: Seq<u8>) -> Seq<u8> {
    blake3_of(prev_block_hash + prev_vrf_accum)
}

/// Computes the chained block seed for the next height from the previous
/// block hash and the previous accumulator.
pub fn compute_block_random(prev_block_hash: &[u8], prev_vrf_accum: &[u8]) -> (r: [u8; 32])
    ensures
        r@ == spec_block_random(prev_block_hash@, prev_vrf_accum@),
{
    let mut pre: Vec<u8> = Vec::new();
    pre.extend_from_slice(prev_block_hash);
    pre.extend_from_slice(prev_vrf_accum);
    assert(pre@ =~= prev_block_hash@ + prev_vrf_accum@);
    blake3_hash(pre.as_slice())
}

/// The VRF keypair used to settle bets. Generated once at genesis and
/// persisted; regenerating it later would make historic proofs
/// unverifiable, so constructors are the only way to obtain one.
pub struct VrfEngine {
    private_key: Vec<u8>,
    public_key: Vec<u8>,
}

impl VrfEngine {
    /// The engine holds a decodable private key, the matching public key,
    /// and that key is not the rejected identity encoding.
    pub closed spec fn wf(&self) -> bool {
        &&& vrf_sk_valid(self.private_key@)
        &&& self.public_key@ == vrf_pk_of(self.private_key@)
        &&& self.public_key@ != spec_zero32()
        &&& self.public_key@.len() == 32
    }

    /// The private-key bytes, as a spec value.
    pub closed spec fn spec_private_key(&self) -> Seq<u8> {
        self.private_key@
    }

    /// The public-key bytes, as a spec value.
    pub closed spec fn spec_public_key(&self) -> Seq<u8> {
        self.public_key@
    }

    /// The public key is the one derived from the private key.
    pub proof fn lemma_wf_keys(&self)
        requires
            self.wf(),
        ensures
            vrf_sk_valid(self.spec_private_key()),
            self.spec_public_key() == vrf_pk_of(self.spec_private_key()),
            self.spec_public_key() != spec_zero32(),
            self.spec_public_key().len() == 32,
    {
    }

    /// Generates a fresh keypair from a cryptographically secure source.
    /// Invoked only at genesis; never per block or per transaction. Both
    /// serialized halves are 32 bytes.
    pub fn generate() -> (r: Result<VrfEngine, VrfError>)
        ensures
            r matches Ok(e) ==> {
                &&& e.wf()
                &&& e.spec_private_key().len() == 32
                &&& e.spec_public_key().len() == 32
            },
    {
        let mut rng = new_rng();
        let (sk, pk) = ecvrf_generate(&mut rng);
        if is_zero32(&pk) {
            return Err(VrfError::Key);
        }
        Ok(VrfEngine { private_key: sk, public_key: pk })
    }

    /// Loads the engine from persisted private-key bytes; fails exactly
    /// when the bytes do not decode to a usable key (or decode to the one
    /// key verification would reject).
    pub fn from_private_key(private_key_bytes: &[u8]) -> (r: Result<VrfEngine, VrfError>)
        ensures
            r is Ok <==> (vrf_sk_valid(private_key_bytes@) && vrf_pk_of(private_key_bytes@)
                != spec_zero32()),
            r matches Ok(e) ==> {
                &&& e.wf()
                &&& e.spec_private_key() == private_key_bytes@
                &&& e.spec_public_key().len() == 32
            },
    {
        let pk = match ecvrf_derive_public(private_key_bytes) {
            Ok(pk) => pk,
            Err(e) => {
                return Err(e);
            },
        };
        if is_zero32(&pk) {
            return Err(VrfError::Key);
        }
        let sk = vstd::slice::slice_to_vec(private_key_bytes);
        Ok(VrfEngine { private_key: sk, public_key: pk })
    }

    /// The serialized public key, for persistence at genesis.
    pub fn public_key_bytes(&self) -> (r: Vec<u8>)
        ensures
            r@ == self.spec_public_key(),
    {
        vstd::slice::slice_to_vec(self.public_key.as_slice())
    }

    /// The serialized private key, for secure provisioning.
    pub fn private_key_bytes(&self) -> (r: Vec<u8>)
        ensures
            r@ == self.spec_private_key(),
    {
        vstd::slice::slice_to_vec(self.private_key.as_slice())
    }

    /// Builds the VRF input message for one bet: SHA-256 over the
    /// domain-separated concatenation of chain id, height, block seed,
    /// transaction hash, wallet and nonce. Deterministic: identical inputs
    /// always yield identical output bytes.
    pub fn compute_message(
        &self,
        chain_id: &str,
        height: u64,
        block_random: &[u8],
        tx_hash: &[u8],
        wallet: &[u8],
        nonce: u64,
    ) -> (r: Vec<u8>)
        ensures
            r@ == spec_vrf_message(
                chain_id.spec_bytes(),
                height,
                block_random@,
                tx_hash@,
                wallet@,
                nonce,
            ),
            r@.len() == 32,
    {
        let mut pre: Vec<u8> = Vec::new();
        pre.extend_from_slice("MYCHAIN:VRF:v1".as_bytes());
        pre.extend_from_slice(chain_id.as_bytes());
        let mut t = u64_to_le_bytes(height);
        pre.append(&mut t);
        pre.extend_from_slice(block_random);
        pre.extend_from_slice(tx_hash);
        pre.extend_from_slice(wallet);
        let mut t = u64_to_le_bytes(nonce);
        pre.append(&mut t);
        assert(pre@ =~= spec_message_preimage(
            chain_id.spec_bytes(),
            height,
            block_random@,
            tx_hash@,
            wallet@,
            nonce,
        ));
        sha256_hash(pre.as_slice())
    }

    /// Produces the VRF proof and output for a message. Deterministic for a
    /// fixed key and message: re-proving reproduces byte-identical proof
    /// and output.
    pub fn prove(&self, message: &[u8]) -> (r: Result<(Vec<u8>, Vec<u8>), VrfError>)
        requires
            self.wf(),
        ensures
            r is Ok,
            r matches Ok(pr) ==> {
                &&& pr.0@ == vrf_proof_of(self.spec_private_key(), message@)
                &&& pr.0@.len() == 80
                &&& pr.1@ == vrf_output_of_proof(pr.0@)
                &&& pr.1@.len() == 64
            },
    {
        let (proof, output) = ecvrf_prove(self.private_key.as_slice(), message);
        Ok((proof, output))
    }

    /// Verifies a proof against a public key and message, returning the
    /// committed output exactly when the triple is accepted. A proof
    /// produced by the matching valid private key over the same message
    /// always verifies.
    pub fn verify(public_key: &[u8], message: &[u8], proof: &[u8]) -> (r: Result<Vec<u8>, VrfError>)
        ensures
            r is Ok <==> vrf_proof_valid(public_key@, message@, proof@),
            r matches Ok(out) ==> out@ == vrf_output_of_proof(proof@) && out@.len() == 64,
            (exists|sk: Seq<u8>|
                vrf_sk_valid(sk) && #[trigger] vrf_proof_of(sk, message@) == proof@ && vrf_pk_of(sk)
                    == public_key@ && public_key@ != spec_zero32()) ==> r is Ok,
    {
        ecvrf_verify(public_key, message, proof)
    }

    /// Extracts the coin-flip bit from a VRF output through a secondary
    /// hash.
    pub fn derive_flip_result(&self, vrf_output: &[u8]) -> (r: bool)
        ensures
            r == spec_flip_result(vrf_output@),
    {
        let h = blake3_hash(vrf_output);
        h[0] & 1 == 1
    }

    /// Settles one bet: builds the message, proves, and derives the
    /// outcome. Returns the message, the proof, the output, and the flip
    /// result, each pinned to the deterministic value for these inputs.
    pub fn process_flip(
        &self,
        chain_id: &str,
        height: u64,
        block_random: &[u8],
        tx_hash: &[u8],
        wallet: &[u8],
        nonce: u64,
    ) -> (r: Result<(Vec<u8>, Vec<u8>, Vec<u8>, bool), VrfError>)
        requires
            self.wf(),
        ensures
            r is Ok,
            r matches Ok(f) ==> {
                let message = spec_vrf_message(
                    chain_id.spec_bytes(),
                    height,
                    block_random@,
                    tx_hash@,
                    wallet@,
                    nonce,
                );
                let proof = vrf_proof_of(self.spec_private_key(), message);
                &&& f.0@ == message
                &&& f.0@.len() == 32
                &&& f.1@ == proof
                &&& f.1@.len() == 80
                &&& f.2@ == vrf_output_of_proof(proof)
                &&& f.2@.len() == 64
                &&& f.3 == spec_flip_result(vrf_output_of_proof(proof))
            },
    {
        let message = self.compute_message(chain_id, height, block_random, tx_hash, wallet, nonce);
        let (proof, output) = match self.prove(message.as_slice()) {
            Ok(p) => p,
            Err(e) => {
                return Err(e);
            },
        };
        let result = self.derive_flip_result(output.as_slice());
        Ok((message, proof, output, result))
    }
}

/// Verification soundness, completeness half: a proof the engine itself
/// produced over a message verifies against the engine's public key and
/// returns the same committed output. Verus proves the success from the
/// engine invariant and the verifier's contract.
pub fn prove_and_verify(engine: &VrfEngine, message: &[u8]) -> (r: Result<Vec<u8>, VrfError>)
    requires
        engine.wf(),
    ensures
        r is Ok,
        r matches Ok(out) ==> out@ == vrf_output_of_proof(
            vrf_proof_of(engine.spec_private_key(), message@),
        ),
{
    let public_key = engine.public_key_bytes();
    let (proof, _output) = match engine.prove(message) {
        Ok(p) => p,
        Err(e) => {
            return Err(e);
        },
    };
    proof {
        let sk = engine.spec_private_key();
        assert(vrf_sk_valid(sk) && vrf_proof_of(sk, message@) == proof@ && vrf_pk_of(sk)
            == public_key@ && public_key@ != spec_zero32());
    }
    VrfEngine::verify(public_key.as_slice(), message, proof.as_slice())
}

/// Sensitivity of the VRF input message: two message preimages over the
/// protocol's fixed-width fields agree only when every field agrees, so
/// changing any single input changes the hashed preimage.
pub proof fn lemma_message_preimage_injective(
    chain_id: Seq<u8>,
    h1: u64,
    s1: Seq<u8>,
    t1: Seq<u8>,
    w1: Seq<u8>,
    n1: u64,
    h2: u64,
    s2: Seq<u8>,
    t2: Seq<u8>,
    w2: Seq<u8>,
    n2: u64,
)
    requires
        s1.len() == 32 && t1.len() == 32 && w1.len() == 32,
        s2.len() == 32 && t2.len() == 32 && w2.len() == 32,
        spec_message_preimage(chain_id, h1, s1, t1, w1, n1) == spec_message_preimage(
            chain_id,
            h2,
            s2,
            t2,
            w2,
            n2,
        ),
    ensures
        h1 == h2,
        s1 == s2,
        t1 == t2,
        w1 == w2,
        n1 == n2,
{
    lemma_auto_spec_u64_to_from_le_bytes();
    let e = spec_message_preimage(chain_id, h1, s1, t1, w1, n1);
    let d: int = (spec_domain_tag().len() + chain_id.len()) as int;
    assert(e.subrange(d, d + 8) =~= spec_u64_to_le_bytes(h1));
    assert(e.subrange(d, d + 8) =~= spec_u64_to_le_bytes(h2));
    assert(h1 == spec_u64_from_le_bytes(e.subrange(d, d + 8)));
    assert(h2 == spec_u64_from_le_bytes(e.subrange(d, d + 8)));
    assert(s1 =~= e.subrange(d + 8, d + 40));
    assert(s2 =~= e.subrange(d + 8, d + 40));
    assert(t1 =~= e.subrange(d + 40, d + 72));
    assert(t2 =~= e.subrange(d + 40, d + 72));
    assert(w1 =~= e.subrange(d + 72, d + 104));
    assert(w2 =~= e.subrange(d + 72, d + 104));
    assert(e.subrange(d + 104, d + 112) =~= spec_u64_to_le_bytes(n1));
    assert(e.subrange(d + 104, d + 112) =~= spec_u64_to_le_bytes(n2));
    assert(n1 == spec_u64_from_le_bytes(e.subrange(d + 104, d + 112)));
    assert(n2 == spec_u64_from_le_bytes(e.subrange(d + 104, d + 112)));
}

/// Whether a 32-byte value is entirely zero.
fn is_zero32(v: &Vec<u8>) -> (r: bool)
    ensures
        r <==> v@ == spec_zero32(),
{
    if v.len() != 32 {
        assert(v@ != spec_zero32());
        return false;
    }
    let mut i: usize = 0;
    while i < 32
        invariant
            i <= 32,
            v@.len() == 32,
            forall|j: int| 0 <= j < i ==> v@[j] == 0,
        decreases 32 - i,
    {
        if *vstd::slice::slice_index_get(v.as_slice(), i) != 0 {
            assert(v@[i as int] != 0);
            assert(v@ != spec_zero32());
            return false;
        }
        i = i + 1;
    }
    assert(v@ =~= spec_zero32());
    true
}

} // verus!
