//! End-to-end tests of the WebAuthn account and the host authorization
//! entry point, with real P-256 signatures.

use p256::ecdsa::signature::hazmat::PrehashSigner;
use p256::ecdsa::SigningKey;
use passkey_account::auth::{authorize, payload_hash};
use passkey_account::base64_url::urlsafe_base64_encode;
use passkey_account::errors::AuthError;
use passkey_account::webauthn::{Error, Signature, WebAuthnAccount};
use sha2::{Digest, Sha256};

/// A real P-256 key pair: (65-byte SEC1 public key, signing key).
fn key_pair(seed: u8) -> (Vec<u8>, SigningKey) {
    let sk = SigningKey::from_slice(&[seed; 32]).unwrap();
    let sec1 = sk.verifying_key().to_encoded_point(false).as_bytes().to_vec();
    assert_eq!(sec1.len(), 65);
    (sec1, sk)
}

/// Client-data JSON embedding the base64url form of `challenge`.
fn client_data_for(challenge: &[u8]) -> Vec<u8> {
    let encoded = String::from_utf8(urlsafe_base64_encode(&challenge.to_vec())).unwrap();
    format!(
        "{{\"type\":\"webauthn.get\",\"challenge\":\"{}\",\"origin\":\"https://example.com\",\"crossOrigin\":false}}",
        encoded
    )
    .into_bytes()
}

/// A fully valid assertion for `signature_payload` under `sk`.
fn valid_assertion(sk: &SigningKey, signature_payload: &[u8]) -> Signature {
    let authenticator_data = vec![0xA5u8; 37];
    let client_data_json = client_data_for(signature_payload);
    let digest = payload_hash(&authenticator_data, &client_data_json);
    let sig_obj: p256::ecdsa::Signature = sk.sign_prehash(digest.as_slice()).unwrap();
    let signature = sig_obj.to_bytes().to_vec();
    Signature { authenticator_data, client_data_json, signature }
}

#[test]
fn init_and_get_public_key() {
    let (pk, _) = key_pair(3);
    let mut account = WebAuthnAccount::new();
    assert_eq!(account.get_public_key(), Err(Error::NotInited));
    account.init(pk.clone()).unwrap();
    assert_eq!(account.get_public_key(), Ok(pk.clone()));
    assert_eq!(account.init(pk), Err(Error::AlreadyInited));
}

#[test]
fn init_rejects_wrong_length() {
    let mut account = WebAuthnAccount::new();
    assert_eq!(account.init(vec![4u8; 64]), Err(Error::Secp256r1PublicKeyParse));
    assert_eq!(account.get_public_key(), Err(Error::NotInited));
}

#[test]
fn check_auth_accepts_valid_assertion() {
    let (pk, sk) = key_pair(5);
    let mut account = WebAuthnAccount::new();
    account.init(pk).unwrap();

    let payload = vec![0x42u8; 32];
    let assertion = valid_assertion(&sk, &payload);
    assert_eq!(account.check_auth(&payload, &assertion), Ok(()));
}

#[test]
fn check_auth_rejects_flipped_signature_bits() {
    let (pk, sk) = key_pair(6);
    let mut account = WebAuthnAccount::new();
    account.init(pk).unwrap();

    let payload = vec![0x42u8; 32];
    let assertion = valid_assertion(&sk, &payload);
    for &byte in &[0usize, 20, 31, 32, 50, 63] {
        for bit in 0..8 {
            let mut bad = Signature {
                authenticator_data: assertion.authenticator_data.clone(),
                client_data_json: assertion.client_data_json.clone(),
                signature: assertion.signature.clone(),
            };
            bad.signature[byte] ^= 1 << bit;
            assert_eq!(account.check_auth(&payload, &bad), Err(Error::Secp256r1VerifyFailed));
        }
    }
}

#[test]
fn check_auth_binds_challenge_to_payload() {
    // a structurally valid signature over its own payload is rejected when
    // the embedded challenge does not match the expected payload hash,
    // even though the raw signature check alone would pass
    let (pk, sk) = key_pair(8);
    let mut account = WebAuthnAccount::new();
    account.init(pk.clone()).unwrap();

    let real_payload = vec![0x42u8; 32];
    let assertion = valid_assertion(&sk, &real_payload);

    let mut other_payload = real_payload.clone();
    other_payload[0] ^= 0xFF;
    assert_eq!(
        account.check_auth(&other_payload, &assertion),
        Err(Error::ClientDataJsonChallengeIncorrect)
    );

    // the host entry point reports the same rejection as a mismatch
    let stored = Some(pk);
    assert_eq!(
        authorize(&stored, &other_payload, &assertion),
        Err(AuthError::ChallengeMismatch)
    );
    assert_eq!(authorize(&stored, &real_payload, &assertion), Ok(()));
}

#[test]
fn check_auth_rejects_signature_length() {
    let (pk, sk) = key_pair(10);
    let mut account = WebAuthnAccount::new();
    account.init(pk.clone()).unwrap();

    let payload = vec![0x42u8; 32];
    let mut assertion = valid_assertion(&sk, &payload);
    assertion.signature.pop();
    assert_eq!(account.check_auth(&payload, &assertion), Err(Error::Secp256r1SignatureParse));
    assert_eq!(
        authorize(&Some(pk), &payload, &assertion),
        Err(AuthError::InvalidSignatureLength)
    );
}

#[test]
fn check_auth_uninitialized() {
    let (_, sk) = key_pair(12);
    let account = WebAuthnAccount::new();
    let payload = vec![0x42u8; 32];
    let assertion = valid_assertion(&sk, &payload);
    assert_eq!(account.check_auth(&payload, &assertion), Err(Error::NotInited));
    assert_eq!(authorize(&None, &payload, &assertion), Err(AuthError::NotInitialized));
}

#[test]
fn check_auth_rejects_bad_client_data() {
    let (pk, sk) = key_pair(14);
    let mut account = WebAuthnAccount::new();
    account.init(pk.clone()).unwrap();
    let payload = vec![0x42u8; 32];
    let good = valid_assertion(&sk, &payload);

    // not UTF-8
    let mut bad = Signature {
        authenticator_data: good.authenticator_data.clone(),
        client_data_json: vec![0xFF, 0xFE, 0x00],
        signature: good.signature.clone(),
    };
    assert_eq!(account.check_auth(&payload, &bad), Err(Error::JsonParseError));

    // well-formed JSON without a challenge member
    bad.client_data_json = b"{\"type\":\"webauthn.get\"}".to_vec();
    assert_eq!(
        account.check_auth(&payload, &bad),
        Err(Error::ClientDataJsonChallengeIncorrect)
    );
    assert_eq!(
        authorize(&Some(pk.clone()), &payload, &bad),
        Err(AuthError::ChallengeExtractionFailed)
    );

    // a challenge value outside the base64url alphabet
    bad.client_data_json = b"{\"challenge\":\"a+b\"}".to_vec();
    assert_eq!(
        account.check_auth(&payload, &bad),
        Err(Error::ClientDataJsonChallengeIncorrect)
    );

    // not JSON at all
    bad.client_data_json = b"challenge".to_vec();
    assert_eq!(account.check_auth(&payload, &bad), Err(Error::JsonParseError));
}

#[test]
fn payload_hash_matches_direct_computation() {
    // the trusted SHA-256 binding must agree with an independent
    // computation of SHA-256(authenticatorData || SHA-256(clientDataText))
    let authenticator_data = b"authenticator-data".to_vec();
    let client_data_json = b"{\"challenge\":\"AAAA\"}".to_vec();

    let inner = Sha256::digest(&client_data_json);
    let mut outer_input = authenticator_data.clone();
    outer_input.extend_from_slice(&inner);
    let expected = Sha256::digest(&outer_input).to_vec();

    assert_eq!(payload_hash(&authenticator_data, &client_data_json), expected);
    assert_ne!(expected, outer_input);
}
