//! Best-effort software attestation (SHA-256 of the executable).
//!
//! It completes the cryptographic authentication by a sign of conformity of the
//! build: on opening a tunnel the Client declares the SHA-256 of its own
//! executable, and the Guard compares it for the peers of which it expects one.
//! The Client declares its own fingerprint, so this detects a drift of the
//! build, not an active impersonation.

use vstd::prelude::*;
use sha2::{Digest, Sha256};

verus! {

/// Length of a SHA-256 digest.
pub const SHA256_LEN: usize = 32;

/// The SHA-256 digest of a byte string (`sha2::Sha256::digest`).
pub uninterp spec fn sha256(data: Seq<u8>) -> Seq<u8>;

/// `sha2::Sha256::digest`.
#[verifier::external_body]
fn digest(data: &[u8]) -> (r: [u8; 32])
    ensures
        r@ == sha256(data@),
{
    Sha256::digest(data).into()
}

/// SHA-256 of the running executable, computed once: the digest of `image` where
/// the cache is empty, and afterwards what the cache holds, so that a Client that
/// opens many tunnels does not hash its own binary each time.
pub fn current_binary_sha256(cache: &mut Option<[u8; 32]>, image: &[u8]) -> (r: [u8; 32])
    ensures
        *old(cache) is Some ==> r == old(cache)->0 && *final(cache) == *old(cache),
        *old(cache) is None ==> r@ == sha256(image@) && *final(cache) == Some(r),
{
    match *cache {
        Some(hash) => hash,
        None => {
            let hash = digest(image);
            *cache = Some(hash);
            hash
        },
    }
}

} // verus!
