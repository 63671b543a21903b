//! P-256/ECDSA signature verification over a pre-hashed payload.
//!
//! Malleability policy, chosen explicitly: a signature is accepted whether
//! its `s` half is canonical (low) or not — both `s` and `n - s` verify, as
//! the underlying `p256` crate's plain ECDSA check does.  `r` and `s` must
//! both lie in `[1, n-1]`; values outside that range are rejected as
//! `InvalidSignature`.

use vstd::prelude::*;

use crate::crypto::{p256_verifies, p256_verify_prehash};
use crate::errors::AuthError;

verus! {

/// A SEC1 uncompressed-point encoding of a raw 64-byte `X ‖ Y` public key:
/// the tag byte `0x04` followed by the coordinates.
pub open spec fn sec1_of_raw(xy: Seq<u8>) -> Seq<u8> {
    seq![4u8] + xy
}

/// What `verify` returns.
pub open spec fn verify_spec(
    public_key_sec1: Seq<u8>,
    payload_hash: Seq<u8>,
    signature: Seq<u8>,
) -> Result<(), AuthError> {
    if signature.len() != 64 {
        Err(AuthError::InvalidSignatureLength)
    } else if p256_verifies(public_key_sec1, payload_hash, signature) {
        Ok(())
    } else {
        Err(AuthError::InvalidSignature)
    }
}

/// Prefix a raw 64-byte `X ‖ Y` public key with the SEC1 uncompressed tag.
pub fn to_sec1(xy: &Vec<u8>) -> (r: Vec<u8>)
    ensures
        r@ == sec1_of_raw(xy@),
{
    let mut out: Vec<u8> = Vec::new();
    out.push(4u8);
    let mut i: usize = 0;
    while i < xy.len()
        invariant
            i <= xy@.len(),
            out@ == seq![4u8] + xy@.take(i as int),
        decreases xy@.len() - i,
    {
        out.push(xy[i]);
        proof {
            assert(seq![4u8] + xy@.take(i + 1) =~= (seq![4u8] + xy@.take(i as int)).push(
                xy@[i as int],
            ));
        }
        i = i + 1;
    }
    proof {
        assert(xy@.take(xy@.len() as int) =~= xy@);
    }
    out
}

/// Check a P-256/ECDSA signature over a pre-hashed payload.
///
/// Rejects `InvalidSignatureLength` unless the signature is exactly 64
/// bytes (32-byte `r` then 32-byte `s`), independent of its content; then
/// accepts exactly when P-256 verification of the digest succeeds, else
/// rejects `InvalidSignature`.
pub fn verify(public_key_sec1: &Vec<u8>, payload_hash: &Vec<u8>, signature: &Vec<u8>) -> (r:
    Result<(), AuthError>)
    ensures
        r == verify_spec(public_key_sec1@, payload_hash@, signature@),
{
    if signature.len() != 64 {
        return Err(AuthError::InvalidSignatureLength);
    }
    if p256_verify_prehash(public_key_sec1, payload_hash, signature) {
        Ok(())
    } else {
        Err(AuthError::InvalidSignature)
    }
}

} // verus!
