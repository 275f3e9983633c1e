use k256::ecdsa::SigningKey;
use k256::ecdsa::signature::hazmat::PrehashSigner;
use kosh_bridge::errors::RecoveryError;
use kosh_bridge::sig::y_parity;

fn test_key() -> SigningKey {
    let mut key_bytes = [0u8; 32];
    key_bytes[31] = 7;
    SigningKey::from_slice(&key_bytes).unwrap()
}

fn uncompressed_pubkey(key: &SigningKey) -> Vec<u8> {
    key.verifying_key().to_sec1_point(false).as_bytes().to_vec()
}

#[test]
fn recovers_indicator_for_own_signature() {
    let key = test_key();
    let pubkey = uncompressed_pubkey(&key);
    let digest = ethers_core::utils::keccak256(b"a message to sign").to_vec();
    let sig: k256::ecdsa::Signature = key.sign_prehash(&digest).unwrap();
    let sig_bytes = sig.to_bytes().to_vec();
    let parity = y_parity(&digest, &sig_bytes, &pubkey).unwrap();
    assert!(parity == 0 || parity == 1);

    // The recovered key under that indicator must be the signing key.
    let recid = k256::ecdsa::RecoveryId::try_from(parity as u8).unwrap();
    let recovered =
        k256::ecdsa::VerifyingKey::recover_from_prehash(&digest, &sig, recid).unwrap();
    assert_eq!(recovered, *key.verifying_key());
}

#[test]
fn recovery_is_deterministic() {
    let key = test_key();
    let pubkey = uncompressed_pubkey(&key);
    let digest = ethers_core::utils::keccak256(b"same input").to_vec();
    let sig: k256::ecdsa::Signature = key.sign_prehash(&digest).unwrap();
    let sig_bytes = sig.to_bytes().to_vec();
    let a = y_parity(&digest, &sig_bytes, &pubkey).unwrap();
    let b = y_parity(&digest, &sig_bytes, &pubkey).unwrap();
    assert_eq!(a, b);
}

#[test]
fn signature_over_other_digest_fails_recovery() {
    let key = test_key();
    let pubkey = uncompressed_pubkey(&key);
    let digest = ethers_core::utils::keccak256(b"the signed digest").to_vec();
    let other = ethers_core::utils::keccak256(b"a different digest").to_vec();
    let sig: k256::ecdsa::Signature = key.sign_prehash(&digest).unwrap();
    let sig_bytes = sig.to_bytes().to_vec();
    assert_eq!(
        y_parity(&other, &sig_bytes, &pubkey),
        Err(RecoveryError::SignatureRecoveryFailed)
    );
}

#[test]
fn malformed_signature_bytes_rejected_before_recovery() {
    let key = test_key();
    let pubkey = uncompressed_pubkey(&key);
    let digest = ethers_core::utils::keccak256(b"whatever").to_vec();
    // All-zero scalars are rejected as malformed encoding.
    let zeros = vec![0u8; 64];
    assert_eq!(
        y_parity(&digest, &zeros, &pubkey),
        Err(RecoveryError::InvalidSignatureEncoding)
    );
    // Wrong length is malformed too.
    let short = vec![1u8; 63];
    assert_eq!(
        y_parity(&digest, &short, &pubkey),
        Err(RecoveryError::InvalidSignatureEncoding)
    );
}
