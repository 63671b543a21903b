//! Tests of the signature verifier component.

use p256::ecdsa::signature::hazmat::PrehashSigner;
use p256::ecdsa::SigningKey;
use passkey_account::errors::AuthError;
use passkey_account::signature_verifier::verify;

#[test]
fn wrong_length_is_rejected_before_any_content_check() {
    let digest = vec![0x42u8; 32];
    for len in [0usize, 1, 63, 65, 128] {
        // whatever the bytes hold, a non-64-byte signature is a length error
        for fill in [0x00u8, 0xFF] {
            let sig = vec![fill; len];
            let key = vec![0x04u8; 65];
            assert_eq!(
                verify(&key, &digest, &sig),
                Err(AuthError::InvalidSignatureLength)
            );
        }
    }
}

#[test]
fn valid_signature_verifies_and_garbage_does_not() {
    let sk = SigningKey::from_slice(&[21u8; 32]).unwrap();
    let sec1 = sk.verifying_key().to_encoded_point(false).as_bytes().to_vec();
    let digest = vec![0x37u8; 32];
    let sig_obj: p256::ecdsa::Signature = sk.sign_prehash(digest.as_slice()).unwrap();
    let sig = sig_obj.to_bytes().to_vec();

    assert_eq!(verify(&sec1, &digest, &sig), Ok(()));

    let mut other_digest = digest.clone();
    other_digest[31] ^= 1;
    assert_eq!(
        verify(&sec1, &other_digest, &sig),
        Err(AuthError::InvalidSignature)
    );

    // a malformed key never accepts
    let bad_key = vec![0x05u8; 65];
    assert_eq!(verify(&bad_key, &digest, &sig), Err(AuthError::InvalidSignature));
}

#[test]
fn malleability_policy_accepts_both_s_and_n_minus_s() {
    // the documented policy: no low-s canonicalization, so the complement
    // signature (r, n - s) verifies as well
    let sk = SigningKey::from_slice(&[23u8; 32]).unwrap();
    let sec1 = sk.verifying_key().to_encoded_point(false).as_bytes().to_vec();
    let digest = vec![0x55u8; 32];
    let sig_obj: p256::ecdsa::Signature = sk.sign_prehash(digest.as_slice()).unwrap();
    let sig = sig_obj.to_bytes().to_vec();
    assert_eq!(verify(&sec1, &digest, &sig), Ok(()));

    // n, the P-256 group order, big-endian
    let order: [u8; 32] = [
        0xff, 0xff, 0xff, 0xff, 0x00, 0x00, 0x00, 0x00, 0xff, 0xff, 0xff, 0xff, 0xff, 0xff, 0xff,
        0xff, 0xbc, 0xe6, 0xfa, 0xad, 0xa7, 0x17, 0x9e, 0x84, 0xf3, 0xb9, 0xca, 0xc2, 0xfc, 0x63,
        0x25, 0x51,
    ];
    // n - s by byte-wise big-endian subtraction
    let mut flipped = sig.clone();
    let mut borrow: i32 = 0;
    for idx in (0..32).rev() {
        let mut diff = order[idx] as i32 - sig[32 + idx] as i32 - borrow;
        if diff < 0 {
            diff += 256;
            borrow = 1;
        } else {
            borrow = 0;
        }
        flipped[32 + idx] = diff as u8;
    }
    assert_eq!(borrow, 0);
    assert_ne!(flipped, sig);
    assert_eq!(verify(&sec1, &digest, &flipped), Ok(()));
}
