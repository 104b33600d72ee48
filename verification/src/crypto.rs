//! AES-256-GCM from the `aes-gcm` crate, with the operating system's random
//! number generator for keys and nonces.

use aes_gcm::aead::{Aead, AeadCore, KeyInit, OsRng};
use aes_gcm::{Aes256Gcm, Key, Nonce};
use vstd::prelude::*;

verus! {

/// The length of an AES-256-GCM key in bytes.
pub const KEY_LEN: usize = 32;

/// The length of an AES-GCM nonce in bytes.
pub const NONCE_LEN: usize = 12;

/// The length of the authentication tag that follows the encrypted bytes.
pub const TAG_LEN: usize = 16;

/// The longest plaintext that `aes-gcm` encrypts (`P_MAX`, 2^36 bytes).
pub open spec fn max_plaintext_len() -> int {
    0x10_0000_0000
}

/// What `Aes256Gcm::encrypt` produces for a key, a nonce and a plaintext
/// (encrypted bytes, then the tag), where it succeeds.
pub uninterp spec fn aes_gcm_sealed(key: Seq<u8>, nonce: Seq<u8>, plain: Seq<u8>) -> Seq<u8>;

/// What `Aes256Gcm::decrypt` gives back for a key, a nonce and a ciphertext:
/// `None` where it reports an error, such as a tag that does not match.
pub uninterp spec fn aes_gcm_opened(key: Seq<u8>, nonce: Seq<u8>, sealed: Seq<u8>) -> Option<Seq<u8>>;

/// Calls `Aes256Gcm::encrypt` with the given key and nonce and no associated
/// data, turning its error into `None`.
///
/// The crate refuses plaintexts longer than `P_MAX` and otherwise returns
/// the encrypted bytes followed by a 16-byte tag (named `aes_gcm_sealed`).
/// Decrypting them with the same key and nonce gives the plaintext back:
/// AES-GCM is an authenticated encryption, and that is what `decrypt` is for.
#[verifier::external_body]
pub(crate) fn aes_gcm_encrypt(key: &[u8; 32], nonce: &[u8; 12], plain: &[u8]) -> (r: Option<Vec<u8>>)
    ensures
        r is Some <==> plain@.len() <= max_plaintext_len(),
        r matches Some(c) ==> {
            &&& c@ == aes_gcm_sealed(key@, nonce@, plain@)
            &&& c@.len() == plain@.len() + TAG_LEN
            &&& aes_gcm_opened(key@, nonce@, c@) == Some(plain@)
        },
{
    let cipher = Aes256Gcm::new(Key::<Aes256Gcm>::from_slice(key));
    cipher.encrypt(Nonce::from_slice(nonce), plain).ok()
}

/// Calls `Aes256Gcm::decrypt` with the given key and nonce and no associated
/// data, turning its error into `None`. The result is named
/// `aes_gcm_opened`. `aead` refuses input shorter than the tag and otherwise
/// cuts the tag off the decrypted bytes, so a plaintext is 16 bytes shorter
/// than its ciphertext.
#[verifier::external_body]
pub(crate) fn aes_gcm_decrypt(key: &[u8; 32], nonce: &[u8], sealed: &[u8]) -> (r: Option<Vec<u8>>)
    requires
        nonce@.len() == NONCE_LEN,
    ensures
        match r {
            Some(p) => aes_gcm_opened(key@, nonce@, sealed@) == Some(p@),
            None => aes_gcm_opened(key@, nonce@, sealed@) is None,
        },
        sealed@.len() < TAG_LEN ==> r is None,
        r matches Some(p) ==> p@.len() + TAG_LEN == sealed@.len(),
{
    let cipher = Aes256Gcm::new(Key::<Aes256Gcm>::from_slice(key));
    cipher.decrypt(Nonce::from_slice(nonce), sealed).ok()
}

/// Calls `Aes256Gcm::generate_key` with `OsRng`: 32 random bytes. Nothing is
/// claimed of their value; `OsRng` panics if the operating system cannot
/// provide randomness.
#[verifier::external_body]
pub(crate) fn fresh_key() -> (k: [u8; 32]) {
    Aes256Gcm::generate_key(OsRng).into()
}

/// Calls `Aes256Gcm::generate_nonce` with `OsRng`: 12 random bytes. Nothing
/// is claimed of their value; `OsRng` panics if the operating system cannot
/// provide randomness.
#[verifier::external_body]
pub(crate) fn fresh_nonce() -> (n: [u8; 12]) {
    Aes256Gcm::generate_nonce(&mut OsRng).into()
}

} // verus!
