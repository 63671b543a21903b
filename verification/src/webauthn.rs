//! A WebAuthn-style custom account: one stored 65-byte SEC1 public key,
//! authenticated by passkey assertions.
//!
//! The account record is held as a plain value; the host owns persistent
//! storage, passes the record in, and writes it back, so `check_auth` is a
//! pure function of (stored state, request).

use vstd::prelude::*;

use crate::auth::payload_hash_spec;
use crate::auth;
use crate::client_data;
use crate::crypto::p256_verifies;
use crate::errors::AuthError;
use crate::signature_verifier;

verus! {

/// Rejection reasons of the WebAuthn account.
#[derive(Clone, Copy, Debug, PartialEq, Eq, Structural)]
pub enum Error {
    /// No public key has been stored.
    NotInited,
    /// A public key is already stored.
    AlreadyInited,
    /// The client-data challenge is missing, not valid base64url, or does
    /// not match the signature payload.
    ClientDataJsonChallengeIncorrect,
    /// The stored public key is not a 65-byte SEC1 point encoding.
    Secp256r1PublicKeyParse,
    /// The raw signature is not exactly 64 bytes.
    Secp256r1SignatureParse,
    /// P-256/ECDSA verification of a well-sized signature failed.
    Secp256r1VerifyFailed,
    /// The client-data text is not valid UTF-8 or not parseable JSON.
    JsonParseError,
}

/// A WebAuthn authentication assertion: what the authenticator hands back
/// for one authorization request.
pub struct Signature {
    /// Raw authenticator data.
    pub authenticator_data: Vec<u8>,
    /// UTF-8 JSON client-data text embedding the base64url challenge.
    pub client_data_json: Vec<u8>,
    /// The raw 64-byte `r ‖ s` ECDSA signature.
    pub signature: Vec<u8>,
}

/// The account: at most one active public key.
pub struct WebAuthnAccount {
    public_key: Option<Vec<u8>>,
}

/// What `check_auth` returns, step by step: stored key present, signature
/// exactly 64 bytes, challenge extracted, challenge equal to the signature
/// payload, and P-256 verification of the assertion's payload hash.
pub open spec fn check_auth_spec(
    stored_key: Option<Seq<u8>>,
    signature_payload: Seq<u8>,
    authenticator_data: Seq<u8>,
    client_data_json: Seq<u8>,
    signature: Seq<u8>,
) -> Result<(), Error> {
    match stored_key {
        None => Err(Error::NotInited),
        Some(pk) => if signature.len() != 64 {
            Err(Error::Secp256r1SignatureParse)
        } else {
            match client_data::extract_challenge_spec(client_data_json) {
                Err(AuthError::JsonParseError) => Err(Error::JsonParseError),
                Err(_) => Err(Error::ClientDataJsonChallengeIncorrect),
                Ok(challenge) => if challenge != signature_payload {
                    Err(Error::ClientDataJsonChallengeIncorrect)
                } else if !p256_verifies(
                    pk,
                    payload_hash_spec(authenticator_data, client_data_json),
                    signature,
                ) {
                    Err(Error::Secp256r1VerifyFailed)
                } else {
                    Ok(())
                },
            }
        },
    }
}

impl WebAuthnAccount {
    /// The stored public key, as a mathematical value.
    pub closed spec fn spec_public_key(self) -> Option<Seq<u8>> {
        match self.public_key {
            Some(k) => Some(k@),
            None => None,
        }
    }

    /// A fresh, uninitialized account.
    pub fn new() -> (r: Self)
        ensures
            r.spec_public_key() is None,
    {
        WebAuthnAccount { public_key: None }
    }

    /// Store the account's public key, once.
    ///
    /// Fails `AlreadyInited` if a key is stored, and
    /// `Secp256r1PublicKeyParse` unless the key is 65 bytes (the SEC1
    /// uncompressed point size); on failure the account is untouched.
    pub fn init(&mut self, pk: Vec<u8>) -> (r: Result<(), Error>)
        ensures
            ({
                if old(self).spec_public_key() is Some {
                    r == Err::<(), Error>(Error::AlreadyInited) && *final(self) == *old(self)
                } else if pk@.len() != 65 {
                    r == Err::<(), Error>(Error::Secp256r1PublicKeyParse) && *final(self) == *old(
                        self,
                    )
                } else {
                    r == Ok::<(), Error>(()) && final(self).spec_public_key() == Some(pk@)
                }
            }),
    {
        if self.public_key.is_some() {
            return Err(Error::AlreadyInited);
        }
        if pk.len() != 65 {
            return Err(Error::Secp256r1PublicKeyParse);
        }
        self.public_key = Some(pk);
        Ok(())
    }

    /// Return the stored public key, or `NotInited` if none is stored.
    pub fn get_public_key(&self) -> (r: Result<Vec<u8>, Error>)
        ensures
            match r {
                Ok(k) => self.spec_public_key() == Some(k@),
                Err(e) => self.spec_public_key() is None && e == Error::NotInited,
            },
    {
        match &self.public_key {
            Some(k) => Ok(auth::clone_bytes(k)),
            None => Err(Error::NotInited),
        }
    }

    /// Decide one authorization request against the stored key.
    ///
    /// `signature_payload` is the 32-byte payload hash the host demands the
    /// assertion be bound to.  The steps run in order and the first failure
    /// is terminal; no partial acceptance exists.
    pub fn check_auth(&self, signature_payload: &Vec<u8>, signature: &Signature) -> (r: Result<
        (),
        Error,
    >)
        requires
            signature_payload@.len() == 32,
        ensures
            r == check_auth_spec(
                self.spec_public_key(),
                signature_payload@,
                signature.authenticator_data@,
                signature.client_data_json@,
                signature.signature@,
            ),
    {
        let pk = match &self.public_key {
            Some(pk) => pk,
            None => {
                return Err(Error::NotInited);
            },
        };
        if signature.signature.len() != 64 {
            return Err(Error::Secp256r1SignatureParse);
        }
        let challenge = match client_data::extract_challenge(&signature.client_data_json) {
            Ok(c) => c,
            Err(AuthError::JsonParseError) => {
                return Err(Error::JsonParseError);
            },
            Err(_) => {
                return Err(Error::ClientDataJsonChallengeIncorrect);
            },
        };
        if !auth::bytes_eq(&challenge, signature_payload) {
            return Err(Error::ClientDataJsonChallengeIncorrect);
        }
        let digest = auth::payload_hash(&signature.authenticator_data, &signature.client_data_json);
        match signature_verifier::verify(pk, &digest, &signature.signature) {
            Ok(()) => Ok(()),
            Err(_) => Err(Error::Secp256r1VerifyFailed),
        }
    }
}

/// Law: the host entry point and the account's own check accept the same
/// requests — `authorize` returns `Ok` exactly when `check_auth` does, on
/// one stored key and one assertion.
pub proof fn lemma_check_auth_agrees_authorize(
    pk: Seq<u8>,
    payload: Seq<u8>,
    authenticator_data: Seq<u8>,
    client_data_json: Seq<u8>,
    signature: Seq<u8>,
)
    ensures
        (auth::authorize_spec(Some(pk), payload, authenticator_data, client_data_json, signature)
            is Ok) == (check_auth_spec(
            Some(pk),
            payload,
            authenticator_data,
            client_data_json,
            signature,
        ) is Ok),
{
}

} // verus!
