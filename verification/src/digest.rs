//! SHA-256, computed by the Soroban host.
use vstd::prelude::*;

use crate::ids::Hash32;

verus! {

/// The longest input hashed here: far below what a default host budget
/// (100M CPU instructions, 40 MB) lets SHA-256 and the byte copy consume.
pub const MAX_HASH_INPUT: usize = 65_536;

/// The SHA-256 digest of a byte string, as the host computes it.
pub uninterp spec fn sha256_digest(data: Seq<u8>) -> Seq<u8>;

/// Calls `soroban_sdk::crypto::Crypto::sha256` on the bytes of `data` (in a
/// fresh `Env`) and returns the digest as an array.  The contract claims
/// only that the result is the host's digest of exactly these bytes, a
/// function of the bytes alone; what SHA-256 computes is not stated.  The
/// host panics once its budget is spent, so inputs are kept short.
#[verifier::external_body]
pub(crate) fn sha256(data: &[u8]) -> (h: Hash32)
    requires
        data@.len() <= MAX_HASH_INPUT,
    ensures
        h@ == sha256_digest(data@),
{
    let env = soroban_sdk::Env::default();
    let bytes = soroban_sdk::Bytes::from_slice(&env, data);
    env.crypto().sha256(&bytes).to_array()
}

} // verus!
