//! Trusted bindings for the two hash primitives the chain rests on.
//!
//! Both digests are named by uninterpreted spec functions: the contracts of
//! the rest of the library speak of `blake3_of` and `sha256_of`, and the two
//! wrappers below are the only places where those names are given meaning by
//! the outside implementations.

use vstd::prelude::*;
use sha2::Digest;

verus! {

/// The BLAKE3 digest of a byte string: 32 bytes, a function of the input alone.
pub uninterp spec fn blake3_of(data: Seq<u8>) -> Seq<u8>;

/// The SHA-256 digest of a byte string: 32 bytes, a function of the input alone.
pub uninterp spec fn sha256_of(data: Seq<u8>) -> Seq<u8>;

/// Relies on blake3::hash: returns the 32-byte BLAKE3 digest of the input,
/// which depends on the input bytes alone.
#[verifier::external_body]
pub fn blake3_hash(data: &[u8]) -> (r: [u8; 32])
    ensures
        r@ == blake3_of(data@),
{
    *blake3::hash(data).as_bytes()
}

/// Relies on sha2::Sha256::digest: returns the 32-byte SHA-256 digest of the
/// input, which depends on the input bytes alone.
#[verifier::external_body]
pub fn sha256_hash(data: &[u8]) -> (r: Vec<u8>)
    ensures
        r@ == sha256_of(data@),
        r@.len() == 32,
{
    sha2::Sha256::digest(data).to_vec()
}

} // verus!
