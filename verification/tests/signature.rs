use ed25519_dalek::{SigningKey, VerifyingKey};
use rdfs::block_signature::{sign_bytes, sign_message, verify_bytes, verify_signature};

/// The public key of an Ed25519 keypair, derived through the signature crate.
fn public_key_of(secret: &[u8; 32]) -> [u8; 32] {
    VerifyingKey::from(&SigningKey::from_bytes(secret)).to_bytes()
}

#[test]
fn test_sign_and_verify_valid_signature() {
    let bytes = [0u8; 32];
    let signing_key = SigningKey::from_bytes(&bytes);
    let verifying_key = VerifyingKey::from(&signing_key);

    let message = b"this is a test message";

    let private_bytes: [u8; 32] = signing_key.to_bytes();
    let public_bytes: [u8; 32] = verifying_key.to_bytes();

    let signature = sign_message(&private_bytes, message);
    let valid = verify_signature(&public_bytes, &signature, message);

    assert!(valid, "Signature should be valid");
}

#[test]
fn test_invalid_signature_fails_verification() {
    let bytes = [0u8; 32];
    let signing_key = SigningKey::from_bytes(&bytes);
    let verifying_key = VerifyingKey::from(&signing_key);

    let message = b"original message";
    let wrong_message = b"tampered message";

    let private_bytes = signing_key.to_bytes();
    let public_bytes = verifying_key.to_bytes();

    let signature = sign_message(&private_bytes, message);

    // Should fail because message was changed
    let valid = verify_signature(&public_bytes, &signature, wrong_message);
    assert!(!valid, "Tampered message should not verify");
}

#[test]
fn test_invalid_key_fails_verification() {
    let bytes1 = [0u8; 32];
    let bytes2 = [255u8; 32];
    let key1 = SigningKey::from_bytes(&bytes1);
    let key2 = SigningKey::from_bytes(&bytes2); // Different key

    let message = b"message signed with key1";

    let signature = sign_message(&key1.to_bytes(), message);

    let valid = verify_signature(&VerifyingKey::from(&key2).to_bytes(), &signature, message);
    assert!(!valid, "Verification with wrong key should fail");
}

#[test]
fn envelope_sign_then_verify() {
    let secret = [7u8; 32];
    let public = public_key_of(&secret);

    let mut block: Vec<u8> = (0..200u8).collect();
    let original = block.clone();
    sign_bytes(&secret, &mut block);
    assert_eq!(block.len(), original.len());
    // The prefix is untouched; only the trailing 64 bytes changed.
    assert_eq!(&block[..block.len() - 64], &original[..original.len() - 64]);
    assert!(verify_bytes(&public, &block));
}

#[test]
fn envelope_rejects_any_flipped_bit() {
    let secret = [1u8; 32];
    let public = public_key_of(&secret);
    let mut block: Vec<u8> = vec![0xAB; 150];
    sign_bytes(&secret, &mut block);
    assert!(verify_bytes(&public, &block));
    // Flipping any single bit of the signed prefix breaks the envelope.
    for pos in [0usize, 1, 40, 85] {
        for bit in 0..8 {
            let mut tampered = block.clone();
            tampered[pos] ^= 1 << bit;
            assert!(!verify_bytes(&public, &tampered), "bit {bit} of byte {pos}");
        }
    }
    // A wrong key fails too.
    let other = public_key_of(&[2u8; 32]);
    assert!(!verify_bytes(&other, &block));
}

#[test]
fn envelope_too_short_to_hold_a_signature() {
    let secret = [1u8; 32];
    let public = public_key_of(&secret);
    let mut short: Vec<u8> = vec![1, 2, 3];
    sign_bytes(&secret, &mut short);
    assert_eq!(short, vec![1, 2, 3]);
    assert!(!verify_bytes(&public, &short));
}
