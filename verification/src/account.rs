//! The passkey account registry: one stored 64-byte P-256 public key
//! (raw `X ‖ Y` coordinates) and an optional opaque credential identifier.
//!
//! Exactly one record exists per account, or none (uninitialized).  The
//! record is mutated only by one-shot initialization and authorized
//! rotation, and never deleted.  The host owns persistent storage; it
//! passes the record in and writes it back, and serializes calls against
//! one account, so no locking lives here.

use vstd::prelude::*;

use crate::auth;
use crate::crypto::p256_verifies;
use crate::signature_verifier::{sec1_of_raw, to_sec1, verify};

verus! {

/// The two logical storage slots of an account record.
#[derive(Clone, Copy, Debug)]
pub enum DataKey {
    /// The owner's public key: 64 bytes, 32-byte X then 32-byte Y.
    Owner,
    /// The optional opaque WebAuthn credential identifier.
    CredentialId,
}

/// Rejection reasons of the passkey account.
#[derive(Clone, Copy, Debug, PartialEq, Eq, Structural)]
pub enum Error {
    /// A public key is already stored.
    AlreadyInitialized,
    /// No public key has been stored.
    NotInitialized,
    /// The public key is not exactly 64 bytes.
    InvalidPublicKey,
    /// The signature has the wrong length or fails P-256 verification.
    InvalidSignature,
}

/// The account record: at most one active public key, plus an optional
/// credential identifier.
pub struct PasskeyAccount {
    owner: Option<Vec<u8>>,
    credential_id: Option<Vec<u8>>,
}

/// What `check_auth` returns: the stored key must exist, the signature
/// must be exactly 64 bytes, and P-256 verification of the payload hash
/// against the SEC1 form of the stored key must accept.
pub open spec fn passkey_auth_spec(
    owner: Option<Seq<u8>>,
    signature_payload: Seq<u8>,
    signature: Seq<u8>,
) -> Result<(), Error> {
    match owner {
        None => Err(Error::NotInitialized),
        Some(k) => if signature.len() != 64 {
            Err(Error::InvalidSignature)
        } else if !p256_verifies(sec1_of_raw(k), signature_payload, signature) {
            Err(Error::InvalidSignature)
        } else {
            Ok(())
        },
    }
}

/// What `init` does to the abstract record state
/// (stored key, stored credential identifier).
pub open spec fn init_transition(
    s: (Option<Seq<u8>>, Option<Seq<u8>>),
    public_key: Seq<u8>,
    credential_id: Option<Seq<u8>>,
) -> ((Option<Seq<u8>>, Option<Seq<u8>>), Result<(), Error>) {
    if s.0 is Some {
        (s, Err(Error::AlreadyInitialized))
    } else if public_key.len() != 64 {
        (s, Err(Error::InvalidPublicKey))
    } else {
        (
            (
                Some(public_key),
                match credential_id {
                    Some(c) => Some(c),
                    None => s.1,
                },
            ),
            Ok(()),
        )
    }
}

impl PasskeyAccount {
    /// The stored public key, as a mathematical value.
    pub closed spec fn spec_owner(self) -> Option<Seq<u8>> {
        match self.owner {
            Some(k) => Some(k@),
            None => None,
        }
    }

    /// The stored credential identifier, as a mathematical value.
    pub closed spec fn spec_credential_id(self) -> Option<Seq<u8>> {
        match self.credential_id {
            Some(c) => Some(c@),
            None => None,
        }
    }

    /// A fresh, uninitialized account.
    pub fn new() -> (r: Self)
        ensures
            r.spec_owner() is None,
            r.spec_credential_id() is None,
    {
        PasskeyAccount { owner: None, credential_id: None }
    }

    /// Whether a storage slot is occupied.
    pub fn has(&self, key: &DataKey) -> (r: bool)
        ensures
            r == match key {
                DataKey::Owner => self.spec_owner() is Some,
                DataKey::CredentialId => self.spec_credential_id() is Some,
            },
    {
        match key {
            DataKey::Owner => self.owner.is_some(),
            DataKey::CredentialId => self.credential_id.is_some(),
        }
    }

    /// Store the public key and optional credential identifier, once.
    ///
    /// Fails `AlreadyInitialized` if a record exists and `InvalidPublicKey`
    /// unless the key is exactly 64 bytes; on failure the account is
    /// untouched.  A `None` credential identifier leaves that slot as it
    /// was; there is no implicit overwrite.
    pub fn init(&mut self, public_key: Vec<u8>, credential_id: Option<Vec<u8>>) -> (r: Result<
        (),
        Error,
    >)
        ensures
            ({
                let (s1, r1) = init_transition(
                    (old(self).spec_owner(), old(self).spec_credential_id()),
                    public_key@,
                    auth::opt_bytes_view(credential_id),
                );
                &&& r == r1
                &&& final(self).spec_owner() == s1.0
                &&& final(self).spec_credential_id() == s1.1
                &&& (r is Err ==> *final(self) == *old(self))
            }),
    {
        if self.has(&DataKey::Owner) {
            return Err(Error::AlreadyInitialized);
        }
        if public_key.len() != 64 {
            return Err(Error::InvalidPublicKey);
        }
        self.owner = Some(public_key);
        if let Some(c) = credential_id {
            self.credential_id = Some(c);
        }
        Ok(())
    }

    /// Return the stored public key, or `NotInitialized` if none is stored.
    pub fn get_owner(&self) -> (r: Result<Vec<u8>, Error>)
        ensures
            match r {
                Ok(k) => self.spec_owner() == Some(k@),
                Err(e) => self.spec_owner() is None && e == Error::NotInitialized,
            },
    {
        match &self.owner {
            Some(k) => Ok(auth::clone_bytes(k)),
            None => Err(Error::NotInitialized),
        }
    }

    /// Return the stored credential identifier, if any.
    pub fn get_credential_id(&self) -> (r: Option<Vec<u8>>)
        ensures
            match r {
                Some(c) => self.spec_credential_id() == Some(c@),
                None => self.spec_credential_id() is None,
            },
    {
        match &self.credential_id {
            Some(c) => Some(auth::clone_bytes(c)),
            None => None,
        }
    }

    /// Decide one authorization request against the stored key.
    ///
    /// `signature_payload` is the 32-byte payload hash the host demands
    /// the signature cover; `signature` is the raw 64-byte `r ‖ s` form.
    pub fn check_auth(&self, signature_payload: &Vec<u8>, signature: &Vec<u8>) -> (r: Result<
        (),
        Error,
    >)
        requires
            signature_payload@.len() == 32,
        ensures
            r == passkey_auth_spec(self.spec_owner(), signature_payload@, signature@),
    {
        let owner = match &self.owner {
            Some(k) => k,
            None => {
                return Err(Error::NotInitialized);
            },
        };
        let sec1 = to_sec1(owner);
        match verify(&sec1, signature_payload, signature) {
            Ok(()) => Ok(()),
            Err(_) => Err(Error::InvalidSignature),
        }
    }

    /// Replace the record under a currently-valid authorization.
    ///
    /// The rotation gate runs first: `signature` must be a valid
    /// authorization under the *existing* key for `signature_payload`,
    /// checked exactly as `check_auth` checks it, before any mutation.
    /// Then the new key is validated as in `init` and installed in place
    /// of the old one; no history of keys is kept.  A `None` credential
    /// identifier leaves that slot as it was, as in `init`.  On any
    /// failure the account is untouched.
    pub fn update_owner(
        &mut self,
        new_public_key: Vec<u8>,
        new_credential_id: Option<Vec<u8>>,
        signature_payload: &Vec<u8>,
        signature: &Vec<u8>,
    ) -> (r: Result<(), Error>)
        requires
            signature_payload@.len() == 32,
        ensures
            ({
                let gate = passkey_auth_spec(
                    old(self).spec_owner(),
                    signature_payload@,
                    signature@,
                );
                if gate is Err {
                    r == Err::<(), Error>(gate->Err_0) && *final(self) == *old(self)
                } else if new_public_key@.len() != 64 {
                    r == Err::<(), Error>(Error::InvalidPublicKey) && *final(self) == *old(self)
                } else {
                    &&& r == Ok::<(), Error>(())
                    &&& final(self).spec_owner() == Some(new_public_key@)
                    &&& final(self).spec_credential_id() == (match new_credential_id {
                        Some(c) => Some(c@),
                        None => old(self).spec_credential_id(),
                    })
                }
            }),
    {
        match self.check_auth(signature_payload, signature) {
            Ok(()) => (),
            Err(e) => {
                return Err(e);
            },
        }
        if new_public_key.len() != 64 {
            return Err(Error::InvalidPublicKey);
        }
        self.owner = Some(new_public_key);
        if let Some(c) = new_credential_id {
            self.credential_id = Some(c);
        }
        Ok(())
    }
}

/// Law: initialization is one-shot.  On an uninitialized record a valid
/// `init` succeeds, and a second `init` — whatever its arguments — fails
/// with `AlreadyInitialized` and leaves the record exactly as the first
/// call left it.
pub proof fn lemma_init_one_shot(
    owner0: Option<Seq<u8>>,
    cred0: Option<Seq<u8>>,
    first_key: Seq<u8>,
    first_cred: Option<Seq<u8>>,
    second_key: Seq<u8>,
    second_cred: Option<Seq<u8>>,
)
    requires
        owner0 is None,
        first_key.len() == 64,
    ensures
        ({
            let (s1, r1) = init_transition((owner0, cred0), first_key, first_cred);
            let (s2, r2) = init_transition(s1, second_key, second_cred);
            &&& r1 == Ok::<(), Error>(())
            &&& r2 == Err::<(), Error>(Error::AlreadyInitialized)
            &&& s2 == s1
        }),
{
}

/// Law: an uninitialized registry fails `NotInitialized`, never a tamper
/// signal: `check_auth` rejects every request on it with `NotInitialized`,
/// whatever the payload and signature hold.  (`get_owner` states the same
/// of reads in its own contract.)
pub proof fn lemma_uninitialized_rejects(
    account: PasskeyAccount,
    signature_payload: Seq<u8>,
    signature: Seq<u8>,
)
    requires
        account.spec_owner() is None,
    ensures
        passkey_auth_spec(account.spec_owner(), signature_payload, signature) == Err::<
            (),
            Error,
        >(Error::NotInitialized),
{
}

} // verus!
