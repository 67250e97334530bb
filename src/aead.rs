//! AES-256-GCM through the `aes-gcm` crate: 32-byte keys, 12-byte nonces and
//! a 16-byte tag after the ciphertext, with no associated data.
use aes_gcm::aead::{Aead, AeadCore, KeyInit};
use rand::rngs::OsRng;
use vstd::prelude::*;

verus! {

/// Bytes in a key.
pub const KEY_SIZE: usize = 32;

/// Bytes in a nonce.
pub const NONCE_SIZE: usize = 12;

/// Bytes in an authentication tag.
pub const TAG_SIZE: usize = 16;

/// The longest plaintext that AES-GCM encrypts, in bytes (2^36).
pub const MAX_PLAINTEXT: u64 = 0x10_0000_0000;

/// The ciphertext, tag included, of `plaintext` under `key` and `nonce`.
pub uninterp spec fn aead_sealed(key: Seq<u8>, nonce: Seq<u8>, plaintext: Seq<u8>) -> Seq<u8>;

/// Relies on `AeadCore::generate_nonce` of `Aes256Gcm` over the operating
/// system's random source.
#[verifier::external_body]
pub(crate) fn random_nonce() -> (r: Vec<u8>)
    ensures
        r@.len() == NONCE_SIZE,
{
    aes_gcm::Aes256Gcm::generate_nonce(&mut OsRng).to_vec()
}

/// Relies on `Aead::encrypt` of `Aes256Gcm` (keyed by `KeyInit::new_from_slice`):
/// the ciphertext is as long as the plaintext plus the tag, it fails only
/// beyond `MAX_PLAINTEXT` bytes, and under one key and nonce no two
/// plaintexts give one ciphertext.
#[verifier::external_body]
pub(crate) fn seal(key: &[u8], nonce: &[u8], plaintext: &[u8]) -> (r: Option<Vec<u8>>)
    requires
        key@.len() == KEY_SIZE,
        nonce@.len() == NONCE_SIZE,
        plaintext@.len() <= MAX_PLAINTEXT,
    ensures
        r is Some,
        r matches Some(c) ==> c@ == aead_sealed(key@, nonce@, plaintext@),
        r matches Some(c) ==> c@.len() == plaintext@.len() + TAG_SIZE,
        r matches Some(c) ==> forall|p: Seq<u8>| p.len() <= MAX_PLAINTEXT && aead_sealed(key@, nonce@, p) == c@ ==> p == plaintext@,
{
    match aes_gcm::Aes256Gcm::new_from_slice(key) {
        Ok(cipher) => cipher.encrypt(aes_gcm::aead::Nonce::<aes_gcm::Aes256Gcm>::from_slice(nonce), plaintext).ok(),
        Err(_) => None,
    }
}

/// Relies on `Aead::decrypt` of `Aes256Gcm` (keyed by `KeyInit::new_from_slice`):
/// it succeeds exactly on the ciphertexts that encryption under that key and
/// nonce produces, and gives back their plaintext.
#[verifier::external_body]
pub(crate) fn open(key: &[u8], nonce: &[u8], ciphertext: &[u8]) -> (r: Option<Vec<u8>>)
    requires
        key@.len() == KEY_SIZE,
        nonce@.len() == NONCE_SIZE,
        ciphertext@.len() <= MAX_PLAINTEXT + TAG_SIZE,
    ensures
        r matches Some(p) ==> p@.len() <= MAX_PLAINTEXT && aead_sealed(key@, nonce@, p@) == ciphertext@,
        forall|p: Seq<u8>| p.len() <= MAX_PLAINTEXT && aead_sealed(key@, nonce@, p) == ciphertext@ ==> r is Some && r->0@ == p,
{
    match aes_gcm::Aes256Gcm::new_from_slice(key) {
        Ok(cipher) => cipher.decrypt(aes_gcm::aead::Nonce::<aes_gcm::Aes256Gcm>::from_slice(nonce), ciphertext).ok(),
        Err(_) => None,
    }
}

} // verus!
