//! The two Keccak-based hash functions of Kaspa proof of work, called from
//! the `kaspa_hashes` crate. Their results are named, not described: each is
//! a cSHAKE256 computation that only the outside crate performs.

use kaspa_hashes::{KHeavyHash, PowHash};
use vstd::prelude::*;

verus! {

/// What `kaspa_hashes` computes as the proof-of-work pre-hash of a block
/// header hash, a timestamp and a nonce (cSHAKE256 with the domain
/// "ProofOfWorkHash" over pre_pow_hash, timestamp, 32 zero bytes and nonce).
pub uninterp spec fn pow_hash_of(pre_pow_hash: Seq<u8>, timestamp: u64, nonce: u64) -> Seq<u8>;

/// What `kaspa_hashes::KHeavyHash::hash` computes of a 32-byte input
/// (cSHAKE256 with the domain "HeavyHash").
pub uninterp spec fn kheavy_hash_of(input: Seq<u8>) -> Seq<u8>;

/// Calls `kaspa_hashes::PowHash::new(pre_pow_hash, timestamp)` and then
/// `finalize_with_nonce(nonce)` on it. `PowHash::new` only xors the two
/// values into a fixed initial state, so the pair is one function of
/// (pre_pow_hash, timestamp, nonce); the contract claims no more than that
/// the 32 bytes returned are that function's value, named `pow_hash_of`.
#[verifier::external_body]
pub(crate) fn pow_hash(pre_pow_hash: [u8; 32], timestamp: u64, nonce: u64) -> (r: [u8; 32])
    ensures
        r@ == pow_hash_of(pre_pow_hash@, timestamp, nonce),
{
    PowHash::new(kaspa_hashes::Hash::from_bytes(pre_pow_hash), timestamp).finalize_with_nonce(nonce).as_bytes()
}

/// Calls `kaspa_hashes::KHeavyHash::hash`; the contract claims only that the
/// 32 bytes returned are that function of the input, named `kheavy_hash_of`.
#[verifier::external_body]
pub(crate) fn kheavy_hash(input: [u8; 32]) -> (r: [u8; 32])
    ensures
        r@ == kheavy_hash_of(input@),
{
    KHeavyHash::hash(kaspa_hashes::Hash::from_bytes(input)).as_bytes()
}

} // verus!
