//! The authorization decision: one linear accept/reject pass per request.
//!
//! Given the stored public key, the host-supplied expected payload hash and
//! an authentication assertion, the steps run in order and the first
//! failure is terminal: stored key present → signature exactly 64 bytes →
//! challenge extracted from the client data → challenge byte-equals the
//! expected hash → P-256 signature verifies over the assertion's payload
//! hash.  The whole decision is a pure function of (stored state, request).

use vstd::prelude::*;

use crate::client_data;
use crate::crypto;
use crate::crypto::{p256_verifies, sha256_of};
use crate::errors::AuthError;
use crate::signature_verifier;
use crate::webauthn::Signature;

verus! {

/// The signed payload hash of an assertion:
/// `SHA-256(authenticatorData ‖ SHA-256(clientDataText))`.
pub open spec fn payload_hash_spec(authenticator_data: Seq<u8>, client_data_json: Seq<u8>) -> Seq<
    u8,
> {
    sha256_of(authenticator_data + sha256_of(client_data_json))
}

/// What `authorize` returns, step by step.
pub open spec fn authorize_spec(
    stored_key_sec1: Option<Seq<u8>>,
    expected_payload_hash: Seq<u8>,
    authenticator_data: Seq<u8>,
    client_data_json: Seq<u8>,
    signature: Seq<u8>,
) -> Result<(), AuthError> {
    match stored_key_sec1 {
        None => Err(AuthError::NotInitialized),
        Some(pk) => if signature.len() != 64 {
            Err(AuthError::InvalidSignatureLength)
        } else {
            match client_data::extract_challenge_spec(client_data_json) {
                Err(_) => Err(AuthError::ChallengeExtractionFailed),
                Ok(challenge) => if challenge != expected_payload_hash {
                    Err(AuthError::ChallengeMismatch)
                } else if !p256_verifies(
                    pk,
                    payload_hash_spec(authenticator_data, client_data_json),
                    signature,
                ) {
                    Err(AuthError::InvalidSignature)
                } else {
                    Ok(())
                },
            }
        },
    }
}

/// An optional byte vector, as a mathematical value.
pub open spec fn opt_bytes_view(bytes: Option<Vec<u8>>) -> Option<Seq<u8>> {
    match bytes {
        Some(b) => Some(b@),
        None => None,
    }
}

/// Compute the payload hash that the authenticator signed:
/// `SHA-256(authenticatorData ‖ SHA-256(clientDataText))`.
pub fn payload_hash(authenticator_data: &Vec<u8>, client_data_json: &Vec<u8>) -> (r: Vec<u8>)
    ensures
        r@ == payload_hash_spec(authenticator_data@, client_data_json@),
        r@.len() == 32,
{
    let inner = crypto::sha256(client_data_json);
    let mut payload: Vec<u8> = Vec::new();
    append_bytes(&mut payload, authenticator_data);
    append_bytes(&mut payload, &inner);
    proof {
        assert(payload@ == authenticator_data@ + sha256_of(client_data_json@));
    }
    crypto::sha256(&payload)
}

/// Append all of `src` to `dst`.
fn append_bytes(dst: &mut Vec<u8>, src: &Vec<u8>)
    ensures
        final(dst)@ == old(dst)@ + src@,
{
    let mut j: usize = 0;
    while j < src.len()
        invariant
            j <= src@.len(),
            dst@ == old(dst)@ + src@.take(j as int),
        decreases src@.len() - j,
    {
        dst.push(src[j]);
        proof {
            assert(old(dst)@ + src@.take(j + 1) =~= (old(dst)@ + src@.take(j as int)).push(
                src@[j as int],
            ));
        }
        j = j + 1;
    }
    proof {
        assert(old(dst)@ + src@.take(src@.len() as int) =~= old(dst)@ + src@);
    }
}

/// The host authorization entry point: decide one authorization request.
///
/// `stored_key_sec1` is the account's public key in SEC1 form (or the raw
/// 64-byte `X ‖ Y` form, handled by the caller through
/// `signature_verifier::to_sec1`); `None` means the account was never
/// initialized.  `expected_payload_hash` is the 32-byte hash the host
/// demands the assertion be bound to.
pub fn authorize(
    stored_key_sec1: &Option<Vec<u8>>,
    expected_payload_hash: &Vec<u8>,
    assertion: &Signature,
) -> (r: Result<(), AuthError>)
    requires
        expected_payload_hash@.len() == 32,
    ensures
        r == authorize_spec(
            opt_bytes_view(*stored_key_sec1),
            expected_payload_hash@,
            assertion.authenticator_data@,
            assertion.client_data_json@,
            assertion.signature@,
        ),
{
    let pk = match stored_key_sec1 {
        Some(pk) => pk,
        None => {
            return Err(AuthError::NotInitialized);
        },
    };
    if assertion.signature.len() != 64 {
        return Err(AuthError::InvalidSignatureLength);
    }
    let challenge = match client_data::extract_challenge(&assertion.client_data_json) {
        Ok(c) => c,
        Err(_) => {
            return Err(AuthError::ChallengeExtractionFailed);
        },
    };
    if !bytes_eq(&challenge, expected_payload_hash) {
        return Err(AuthError::ChallengeMismatch);
    }
    let digest = payload_hash(&assertion.authenticator_data, &assertion.client_data_json);
    match signature_verifier::verify(pk, &digest, &assertion.signature) {
        Ok(()) => Ok(()),
        Err(_) => Err(AuthError::InvalidSignature),
    }
}

/// Whether two byte vectors hold the same bytes.
pub fn bytes_eq(a: &Vec<u8>, b: &Vec<u8>) -> (r: bool)
    ensures
        r == (a@ == b@),
{
    if a.len() != b.len() {
        proof {
            assert(a@.len() != b@.len());
        }
        return false;
    }
    let mut j: usize = 0;
    while j < a.len()
        invariant
            j <= a@.len() == b@.len(),
            forall|k: int| 0 <= k < j ==> a@[k] == b@[k],
        decreases a@.len() - j,
    {
        if a[j] != b[j] {
            return false;
        }
        j = j + 1;
    }
    proof {
        assert(a@ =~= b@);
    }
    true
}

/// Copy a byte vector.
pub fn clone_bytes(v: &Vec<u8>) -> (r: Vec<u8>)
    ensures
        r@ == v@,
{
    let mut out: Vec<u8> = Vec::new();
    append_bytes(&mut out, v);
    proof {
        assert(Seq::<u8>::empty() + v@ =~= v@);
    }
    out
}

/// Law: challenge binding.  However the cryptographic check would come out
/// — even for a signature that P-256 verification itself accepts — an
/// assertion whose extracted challenge does not byte-equal the expected
/// payload hash is rejected with `ChallengeMismatch`.
pub proof fn lemma_challenge_binding(
    pk: Seq<u8>,
    expected_payload_hash: Seq<u8>,
    authenticator_data: Seq<u8>,
    client_data_json: Seq<u8>,
    signature: Seq<u8>,
    challenge: Seq<u8>,
)
    requires
        signature.len() == 64,
        client_data::extract_challenge_spec(client_data_json) == Ok::<Seq<u8>, AuthError>(
            challenge,
        ),
        challenge != expected_payload_hash,
    ensures
        authorize_spec(
            Some(pk),
            expected_payload_hash,
            authenticator_data,
            client_data_json,
            signature,
        ) == Err::<(), AuthError>(AuthError::ChallengeMismatch),
{
}

} // verus!
