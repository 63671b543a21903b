//! Passkey account authentication core.
//!
//! The crate decides whether a WebAuthn-style authentication assertion proves
//! possession of the private key matching an account's stored public key, for
//! a specific host-issued challenge.  It combines an unpadded base64url
//! decoder, an exact extractor for the `"challenge"` field of client-data
//! JSON, a P-256/ECDSA signature check, a single-key account registry, and
//! the linear accept/reject decision built from those parts.  A small
//! credit-scored loan ledger shares the crate.
//!
//! All state is held in plain values: the host owns persistent storage and
//! passes the stored record in, so every authorization decision is a pure
//! function of (stored state, request).

pub mod account;
pub mod auth;
pub mod base64_url;
pub mod client_data;
pub mod crypto;
pub mod errors;
pub mod loan_contract;
pub mod loan_types;
pub mod signature_verifier;
pub mod webauthn;
