//! The signature envelope every block carries.
//!
//! A block buffer of length `L >= 64` reserves its trailing 64 bytes for a
//! signature over the preceding `L - 64` bytes. The signature scheme is
//! Ed25519: 32-byte public keys, 32-byte secret keys, 64-byte signatures.
//! The cryptography itself lives in an outside crate; this module states
//! what the scheme returns and proves the envelope discipline around it.

use vstd::prelude::*;

verus! {

use crate::codec::read_bytes64_at;
use ed25519_dalek::{Signer, Verifier};
use vstd::slice::slice_subrange;

/// Whether `sig` is a valid Ed25519 signature by `pk` over `msg`.
/// Verification is a function of the three byte runs alone.
pub uninterp spec fn ed25519_verifies(pk: Seq<u8>, sig: Seq<u8>, msg: Seq<u8>) -> bool;

/// The Ed25519 signature of `msg` by the secret key `sk`. Ed25519 signing is
/// deterministic, so the signature is a function of the two byte runs alone.
pub uninterp spec fn ed25519_signature_of(sk: Seq<u8>, msg: Seq<u8>) -> Seq<u8>;

/// The public key of the Ed25519 keypair with secret key `sk`.
pub uninterp spec fn ed25519_public_key_of(sk: Seq<u8>) -> Seq<u8>;

/// Relies on `ed25519_dalek::VerifyingKey::{from_bytes, verify}` and
/// `Signature::from_bytes`: whether `signature_bytes` is a valid signature
/// by `public_key` over `message`. A public key that does not decode to a
/// curve point verifies nothing, and verification is deterministic in its
/// three inputs.
#[verifier::external_body]
pub fn verify_signature(public_key: &[u8; 32], signature_bytes: &[u8; 64], message: &[u8]) -> (r:
    bool)
    ensures
        r == ed25519_verifies(public_key@, signature_bytes@, message@),
{
    let verifying_key = match ed25519_dalek::VerifyingKey::from_bytes(public_key) {
        Ok(key) => key,
        Err(_) => {
            return false;
        },
    };
    let signature = ed25519_dalek::Signature::from_bytes(signature_bytes);
    verifying_key.verify(message, &signature).is_ok()
}

/// Relies on `ed25519_dalek::SigningKey::from_bytes` and `Signer::sign`:
/// the Ed25519 signature of `message` by `private_key`, deterministic per
/// RFC 8032, and valid under the signer's own public key.
#[verifier::external_body]
pub fn sign_message(private_key: &[u8; 32], message: &[u8]) -> (r: [u8; 64])
    ensures
        r@ == ed25519_signature_of(private_key@, message@),
        ed25519_verifies(ed25519_public_key_of(private_key@), r@, message@),
{
    let signing_key = ed25519_dalek::SigningKey::from_bytes(private_key);
    let signature: ed25519_dalek::Signature = signing_key.sign(message);
    signature.to_bytes()
}

/// A block buffer with its trailing 64 bytes replaced by the signature over
/// its prefix.
pub open spec fn spec_signed_envelope(sk: Seq<u8>, b: Seq<u8>) -> Seq<u8> {
    b.subrange(0, b.len() - 64) + ed25519_signature_of(sk, b.subrange(0, b.len() - 64))
}

/// Whether a block buffer's trailing 64 bytes hold a valid signature by
/// `pk` over its prefix. A buffer shorter than a signature verifies nothing.
pub open spec fn spec_envelope_verifies(pk: Seq<u8>, b: Seq<u8>) -> bool {
    &&& b.len() >= 64
    &&& ed25519_verifies(pk, b.subrange(b.len() - 64, b.len() as int), b.subrange(0, b.len() - 64))
}

/// Checks the signature envelope of a block buffer: true exactly when the
/// buffer is at least 64 bytes and its trailing 64 bytes validate over the
/// prefix under `public_key`.
pub fn verify_bytes(public_key: &[u8; 32], bytes: &[u8]) -> (r: bool)
    ensures
        r == spec_envelope_verifies(public_key@, bytes@),
{
    if bytes.len() < 64 {
        return false;
    }
    let length = bytes.len() - 64;
    let sig = read_bytes64_at(bytes, length);
    let msg = slice_subrange(bytes, 0, length);
    verify_signature(public_key, &sig, msg)
}

/// Fills the signature envelope of a block buffer: overwrites its trailing
/// 64 bytes with the signature over the prefix. The result verifies under
/// the signer's public key. A buffer shorter than a signature is left
/// untouched.
pub fn sign_bytes(private_key: &[u8; 32], bytes: &mut Vec<u8>)
    ensures
        final(bytes)@.len() == old(bytes)@.len(),
        old(bytes)@.len() < 64 ==> final(bytes)@ == old(bytes)@,
        old(bytes)@.len() >= 64 ==> final(bytes)@ == spec_signed_envelope(
            private_key@,
            old(bytes)@,
        ),
        old(bytes)@.len() >= 64 ==> spec_envelope_verifies(
            ed25519_public_key_of(private_key@),
            final(bytes)@,
        ),
{
    if bytes.len() < 64 {
        return ;
    }
    let length = bytes.len() - 64;
    let signature = sign_message(private_key, slice_subrange(bytes.as_slice(), 0, length));
    bytes.truncate(length);
    crate::codec::push_bytes(bytes, signature.as_slice());
    proof {
        assert(old(bytes)@.subrange(0, length as int) =~= bytes@.subrange(0, length as int));
        assert(bytes@ =~= spec_signed_envelope(private_key@, old(bytes)@));
        assert(bytes@.subrange(length as int, bytes@.len() as int) =~= signature@);
    }
}

} // verus!
