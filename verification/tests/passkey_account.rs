//! Tests of the passkey account registry and its authorization gate.

use p256::ecdsa::signature::hazmat::PrehashSigner;
use p256::ecdsa::SigningKey;
use passkey_account::account::{DataKey, Error, PasskeyAccount};

fn fixed_key(seed: u8) -> Vec<u8> {
    vec![seed; 64]
}

/// A real P-256 key pair: (raw 64-byte public key, signing key).
fn real_key_pair(seed: u8) -> (Vec<u8>, SigningKey) {
    let sk = SigningKey::from_slice(&[seed; 32]).unwrap();
    let sec1 = sk.verifying_key().to_encoded_point(false);
    let raw = sec1.as_bytes()[1..].to_vec();
    assert_eq!(raw.len(), 64);
    (raw, sk)
}

#[test]
fn test_init_success() {
    let mut account = PasskeyAccount::new();
    let public_key = fixed_key(0xAB);
    let credential_id = b"test-credential-id".to_vec();

    account.init(public_key.clone(), Some(credential_id.clone())).unwrap();

    let owner = account.get_owner().unwrap();
    assert_eq!(owner, public_key);

    let stored_cred_id = account.get_credential_id();
    assert_eq!(stored_cred_id, Some(credential_id));
}

#[test]
fn test_init_already_initialized() {
    let mut account = PasskeyAccount::new();
    let public_key = fixed_key(0x11);

    account.init(public_key.clone(), None).unwrap();

    // a second initialization must fail and leave the record alone
    assert_eq!(account.init(fixed_key(0x22), None), Err(Error::AlreadyInitialized));
    assert_eq!(account.get_owner().unwrap(), public_key);
}

#[test]
fn test_get_owner_not_initialized() {
    let account = PasskeyAccount::new();
    assert_eq!(account.get_owner(), Err(Error::NotInitialized));
}

#[test]
fn test_get_credential_id_none() {
    let mut account = PasskeyAccount::new();
    account.init(fixed_key(0x33), None).unwrap();
    assert_eq!(account.get_credential_id(), None);
}

#[test]
fn test_multiple_keys() {
    let mut account = PasskeyAccount::new();
    let public_key1 = fixed_key(0x44);
    let public_key2 = fixed_key(0x55);

    account.init(public_key1.clone(), None).unwrap();

    assert_eq!(account.get_owner().unwrap(), public_key1);
    assert_ne!(public_key1, public_key2);
}

#[test]
fn init_rejects_wrong_key_length() {
    let mut account = PasskeyAccount::new();
    assert_eq!(account.init(vec![1u8; 63], None), Err(Error::InvalidPublicKey));
    assert_eq!(account.init(vec![1u8; 65], None), Err(Error::InvalidPublicKey));
    assert_eq!(account.get_owner(), Err(Error::NotInitialized));
}

#[test]
fn has_reports_slot_occupancy() {
    let mut account = PasskeyAccount::new();
    assert!(!account.has(&DataKey::Owner));
    assert!(!account.has(&DataKey::CredentialId));
    account.init(fixed_key(0x66), Some(b"cred".to_vec())).unwrap();
    assert!(account.has(&DataKey::Owner));
    assert!(account.has(&DataKey::CredentialId));
}

#[test]
fn check_auth_accepts_real_signature_and_rejects_flips() {
    let (raw_pk, sk) = real_key_pair(7);
    let mut account = PasskeyAccount::new();
    account.init(raw_pk, None).unwrap();

    let payload = vec![0x42u8; 32];
    let sig: p256::ecdsa::Signature = sk.sign_prehash(payload.as_slice()).unwrap();
    let sig_bytes = sig.to_bytes().to_vec();
    assert_eq!(sig_bytes.len(), 64);

    assert_eq!(account.check_auth(&payload, &sig_bytes), Ok(()));

    // flipping any single bit of the signature makes verification reject;
    // try every bit of a few bytes across both halves
    for &byte in &[0usize, 15, 31, 32, 47, 63] {
        for bit in 0..8 {
            let mut bad = sig_bytes.clone();
            bad[byte] ^= 1 << bit;
            assert_eq!(account.check_auth(&payload, &bad), Err(Error::InvalidSignature));
        }
    }
}

#[test]
fn check_auth_rejects_out_of_range_scalars() {
    let (raw_pk, sk) = real_key_pair(9);
    let mut account = PasskeyAccount::new();
    account.init(raw_pk, None).unwrap();

    let payload = vec![0x10u8; 32];
    let good_sig: p256::ecdsa::Signature = sk.sign_prehash(payload.as_slice()).unwrap();
    let good = good_sig.to_bytes().to_vec();

    // r = 0
    let mut zero_r = good.clone();
    for b in zero_r.iter_mut().take(32) {
        *b = 0;
    }
    assert_eq!(account.check_auth(&payload, &zero_r), Err(Error::InvalidSignature));

    // s = 0
    let mut zero_s = good.clone();
    for b in zero_s.iter_mut().skip(32) {
        *b = 0;
    }
    assert_eq!(account.check_auth(&payload, &zero_s), Err(Error::InvalidSignature));

    // s = n (the curve order) is outside [1, n-1]
    let order: [u8; 32] = [
        0xff, 0xff, 0xff, 0xff, 0x00, 0x00, 0x00, 0x00, 0xff, 0xff, 0xff, 0xff, 0xff, 0xff, 0xff,
        0xff, 0xbc, 0xe6, 0xfa, 0xad, 0xa7, 0x17, 0x9e, 0x84, 0xf3, 0xb9, 0xca, 0xc2, 0xfc, 0x63,
        0x25, 0x51,
    ];
    let mut s_is_order = good.clone();
    s_is_order[32..].copy_from_slice(&order);
    assert_eq!(account.check_auth(&payload, &s_is_order), Err(Error::InvalidSignature));
}

#[test]
fn check_auth_rejects_wrong_length_and_uninitialized() {
    let account = PasskeyAccount::new();
    let payload = vec![0u8; 32];
    assert_eq!(account.check_auth(&payload, &vec![0u8; 64]), Err(Error::NotInitialized));

    let (raw_pk, _) = real_key_pair(11);
    let mut account = PasskeyAccount::new();
    account.init(raw_pk, None).unwrap();
    assert_eq!(account.check_auth(&payload, &vec![0u8; 63]), Err(Error::InvalidSignature));
    assert_eq!(account.check_auth(&payload, &vec![0u8; 65]), Err(Error::InvalidSignature));
}

#[test]
fn update_owner_requires_valid_authorization() {
    let (raw_pk1, sk1) = real_key_pair(13);
    let mut account = PasskeyAccount::new();
    account.init(raw_pk1.clone(), Some(b"cred-1".to_vec())).unwrap();

    let payload = vec![0x77u8; 32];
    let new_key = fixed_key(0x99);

    // without a valid authorization under the current key the registry is
    // untouched
    let garbage = vec![0xEEu8; 64];
    assert_eq!(
        account.update_owner(new_key.clone(), Some(b"cred-2".to_vec()), &payload, &garbage),
        Err(Error::InvalidSignature)
    );
    assert_eq!(account.get_owner().unwrap(), raw_pk1);
    assert_eq!(account.get_credential_id(), Some(b"cred-1".to_vec()));

    // a signature under the current key authorizes the rotation
    let sig_obj: p256::ecdsa::Signature = sk1.sign_prehash(payload.as_slice()).unwrap();
    let sig = sig_obj.to_bytes().to_vec();
    assert_eq!(
        account.update_owner(new_key.clone(), Some(b"cred-2".to_vec()), &payload, &sig),
        Ok(())
    );
    assert_eq!(account.get_owner().unwrap(), new_key);
    assert_eq!(account.get_credential_id(), Some(b"cred-2".to_vec()));
}

#[test]
fn update_owner_uninitialized_fails() {
    let mut account = PasskeyAccount::new();
    let payload = vec![0u8; 32];
    assert_eq!(
        account.update_owner(fixed_key(1), None, &payload, &vec![0u8; 64]),
        Err(Error::NotInitialized)
    );
}

#[test]
fn initialize_then_read_back_scenario() {
    // init(K1 [64 bytes], "cred-1"), then get() == K1 and
    // get_credential_id() == "cred-1"
    let mut account = PasskeyAccount::new();
    let k1 = fixed_key(0xC1);
    account.init(k1.clone(), Some(b"cred-1".to_vec())).unwrap();
    assert_eq!(account.get_owner(), Ok(k1));
    assert_eq!(account.get_credential_id(), Some(b"cred-1".to_vec()));
}
