//! Trusted bindings to the outside cryptography crates.
//!
//! Two primitives are relied on and never restated: SHA-256 (`sha2`) and
//! ECDSA verification on curve P-256 (`p256`).  Each result is given a name
//! (`sha256_of`, `p256_verifies`) that stands for a pure function of the
//! argument bytes; the rest of the crate reasons in terms of those names.

use vstd::prelude::*;

verus! {

/// The 32-byte SHA-256 digest of `data`: a function of the input bytes alone.
pub uninterp spec fn sha256_of(data: Seq<u8>) -> Seq<u8>;

/// Whether P-256/ECDSA verification accepts `(public_key_sec1, digest32,
/// signature_rs)`: a function of the three byte strings alone.  It holds
/// exactly when `public_key_sec1` is a SEC1 encoding of a curve point, the
/// two 32-byte halves of `signature_rs` are scalars in `[1, n-1]`, and the
/// ECDSA equation holds for the digest; both `s` and `n - s` are accepted
/// (no low-`s` canonicalization).
pub uninterp spec fn p256_verifies(
    public_key_sec1: Seq<u8>,
    digest32: Seq<u8>,
    signature_rs: Seq<u8>,
) -> bool;

/// Relies on `sha2::Sha256` (the one-shot `Digest::digest` API): returns the
/// SHA-256 digest of the input, which is 32 bytes long and depends on the
/// input bytes alone.
#[verifier::external_body]
pub(crate) fn sha256(data: &Vec<u8>) -> (r: Vec<u8>)
    ensures
        r@ == sha256_of(data@),
        r@.len() == 32,
{
    <sha2::Sha256 as sha2::Digest>::digest(data.as_slice()).to_vec()
}

/// Relies on `p256::ecdsa::VerifyingKey::from_sec1_bytes`,
/// `p256::ecdsa::Signature::from_slice` (which rejects `r`/`s` outside
/// `[1, n-1]`), and `PrehashVerifier::verify_prehash`: returns whether
/// P-256/ECDSA verification of the pre-hashed message accepts, a
/// deterministic function of the three byte strings; none of the calls
/// panics on any input.
#[verifier::external_body]
pub(crate) fn p256_verify_prehash(
    public_key_sec1: &Vec<u8>,
    digest: &Vec<u8>,
    signature: &Vec<u8>,
) -> (r: bool)
    ensures
        r == p256_verifies(public_key_sec1@, digest@, signature@),
{
    let key = match p256::ecdsa::VerifyingKey::from_sec1_bytes(public_key_sec1.as_slice()) {
        Ok(k) => k,
        Err(_) => return false,
    };
    let sig = match p256::ecdsa::Signature::from_slice(signature.as_slice()) {
        Ok(s) => s,
        Err(_) => return false,
    };
    p256::ecdsa::signature::hazmat::PrehashVerifier::verify_prehash(
        &key,
        digest.as_slice(),
        &sig,
    ).is_ok()
}

} // verus!
