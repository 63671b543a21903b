//! Failure reasons of the authentication core.

use vstd::prelude::*;

verus! {

/// Why an authentication step rejected its input.
///
/// Every failure surfaces as a distinct, inspectable reason; configuration
/// errors (`NotInitialized`) are never conflated with tamper signals
/// (`InvalidSignature`, `ChallengeMismatch`).  All are terminal: no step is
/// retried.
#[derive(Clone, Copy, Debug, PartialEq, Eq, Structural)]
pub enum AuthError {
    /// No public key has been stored for the account.
    NotInitialized,
    /// The raw signature is not exactly 64 bytes (32-byte `r` then 32-byte `s`).
    InvalidSignatureLength,
    /// P-256/ECDSA verification of a well-sized signature failed.
    InvalidSignature,
    /// The decoded challenge does not byte-equal the expected payload hash.
    ChallengeMismatch,
    /// The challenge could not be extracted from the client-data text.
    ChallengeExtractionFailed,
    /// The client-data text is not valid UTF-8 or not well-formed enough to parse.
    JsonParseError,
    /// The client-data object has no `"challenge"` member.
    ChallengeFieldMissing,
    /// A byte outside the base64url alphabet (and not trailing `=`) was found.
    InvalidBase64Character,
}

} // verus!
