//! The library's calls into the clock, the operating system's randomness
//! and the cryptography crates. Nothing here is proved: each contract below
//! is what the called crate documents.
use vstd::prelude::*;
use ed25519_dalek::{Signer, Verifier};
use rand::RngCore;

verus! {

/// `chrono::Utc::now().timestamp()`: the current Unix time in whole seconds.
/// The value depends on the machine's clock, so nothing is promised of it.
#[verifier::external_body]
pub fn now_unix_seconds() -> i64 {
    chrono::Utc::now().timestamp()
}

/// `chrono::Utc::now().timestamp_millis()`: the current Unix time in
/// milliseconds. The value depends on the machine's clock, so nothing is
/// promised of it.
#[verifier::external_body]
pub fn now_unix_millis() -> i64 {
    chrono::Utc::now().timestamp_millis()
}

/// `chrono::Utc::now().timestamp_nanos_opt()`: the current Unix time in
/// nanoseconds, absent when it does not fit an `i64`. The value depends on
/// the machine's clock, so nothing is promised of it.
#[verifier::external_body]
pub fn now_unix_nanos() -> Option<i64> {
    chrono::Utc::now().timestamp_nanos_opt()
}

/// `OsRng.fill_bytes` on 32 bytes: fresh random bytes from the operating
/// system. Nothing is promised of their value.
#[verifier::external_body]
pub fn random_bytes_32() -> [u8; 32] {
    let mut bytes = [0u8; 32];
    rand::rngs::OsRng.fill_bytes(&mut bytes);
    bytes
}

/// `uuid::Uuid::new_v4()`: a random identifier, as its 128-bit value. Of
/// the value only the bits that `new_v4` fixes are promised: version 4 in
/// bits 76 to 79 and the RFC 4122 variant (binary 10) in bits 62 and 63;
/// the other 122 bits are random.
#[verifier::external_body]
pub fn new_uuid() -> (r: u128)
    ensures
        r & 0xF000_C000_0000_0000_0000u128 == 0x4000_8000_0000_0000_0000u128,
{
    uuid::Uuid::new_v4().as_u128()
}

/// The Ed25519 public key that belongs to a 32-byte secret key.
pub uninterp spec fn ed25519_public_key_of(secret: Seq<u8>) -> Seq<u8>;

/// The Ed25519 signature of a message under a 32-byte secret key (Ed25519
/// signing is deterministic).
pub uninterp spec fn ed25519_signature_of(secret: Seq<u8>, message: Seq<u8>) -> Seq<u8>;

/// Whether a 64-byte Ed25519 signature of a message checks out under a
/// 32-byte public key; false when the key is not a valid curve point.
pub uninterp spec fn ed25519_verifies(public_key: Seq<u8>, message: Seq<u8>, signature: Seq<u8>) -> bool;

/// The BLAKE3 digest of a byte string.
pub uninterp spec fn blake3_digest(data: Seq<u8>) -> Seq<u8>;

/// `SigningKey::from_bytes(secret).verifying_key().to_bytes()` in
/// `ed25519_dalek`: the public key of a secret key, a function of the
/// secret alone.
#[verifier::external_body]
pub fn ed25519_public_key(secret: &[u8; 32]) -> (r: [u8; 32])
    ensures
        r@ == ed25519_public_key_of(secret@),
{
    ed25519_dalek::SigningKey::from_bytes(secret).verifying_key().to_bytes()
}

/// `SigningKey::from_bytes(secret).sign(message).to_bytes()` in
/// `ed25519_dalek`: the signature of a message, a function of the secret
/// and the message alone, which checks out under the secret's own public
/// key (what `SigningKey::verify` and `VerifyingKey::verify` accept of a
/// signature that `sign` made).
#[verifier::external_body]
pub fn ed25519_sign(secret: &[u8; 32], message: &[u8]) -> (r: [u8; 64])
    ensures
        r@ == ed25519_signature_of(secret@, message@),
        ed25519_verifies(ed25519_public_key_of(secret@), message@, r@),
{
    ed25519_dalek::SigningKey::from_bytes(secret).sign(message).to_bytes()
}

/// `VerifyingKey::from_bytes(public_key)` followed by `verify(message,
/// Signature::from_bytes(signature)).is_ok()` in `ed25519_dalek`; false
/// when the public key does not decode. A function of its three arguments.
#[verifier::external_body]
pub fn ed25519_verify(public_key: &[u8; 32], message: &[u8], signature: &[u8; 64]) -> (r: bool)
    ensures
        r == ed25519_verifies(public_key@, message@, signature@),
{
    match ed25519_dalek::VerifyingKey::from_bytes(public_key) {
        Ok(key) => key.verify(message, &ed25519_dalek::Signature::from_bytes(signature)).is_ok(),
        Err(_) => false,
    }
}

/// `blake3::hash(data)`: the 32-byte BLAKE3 digest, a function of the data
/// alone. (Feeding the same bytes to a `blake3::Hasher` in pieces gives the
/// same digest.)
#[verifier::external_body]
pub fn blake3_hash(data: &[u8]) -> (r: [u8; 32])
    ensures
        r@ == blake3_digest(data@),
{
    *blake3::hash(data).as_bytes()
}

} // verus!
