//! The cryptographic primitives the vault is built on: a memory-hard key
//! derivation, an authenticated cipher, and the operating system's random source.
use vstd::prelude::*;
use aes_gcm::aead::Aead;
use aes_gcm::{Aes256Gcm, Key, KeyInit, Nonce};
use argon2::Argon2;
use rand::rngs::OsRng;
use rand::TryRngCore;

verus! {

/// Length of the salt fed to the key derivation.
pub const SALT_LEN: usize = 16;

/// Length of the cipher's nonce.
pub const NONCE_LEN: usize = 12;

/// Length of a derived key.
pub const KEY_LEN: usize = 32;

/// Length of the cipher's authentication tag.
pub const TAG_LEN: usize = 16;

/// Longest password the key derivation accepts.
pub const MAX_PASSWORD_LEN: usize = 0xFFFF_FFFF;

/// Shortest salt the key derivation accepts.
pub const MIN_SALT_LEN: usize = 8;

/// Longest salt the key derivation accepts.
pub const MAX_SALT_LEN: usize = 0xFFFF_FFFF;

/// Longest plaintext the cipher accepts.
pub const MAX_PLAINTEXT_LEN: u64 = 0x10_0000_0000;

/// The Argon2id key (default parameters, 32 bytes) derived from a password and a salt.
pub uninterp spec fn argon2_key(password: Seq<u8>, salt: Seq<u8>) -> Seq<u8>;

/// The AES-256-GCM ciphertext with its trailing tag, for a key, a nonce and a
/// plaintext, with no associated data.
pub uninterp spec fn aes_gcm_seal(key: Seq<u8>, nonce: Seq<u8>, plaintext: Seq<u8>) -> Seq<u8>;

/// `ciphertext` is what encrypting `plaintext`, of at most 2^36 bytes, under
/// `key` and `nonce` yields: the encrypted bytes followed by the tag.
pub open spec fn seals_to(key: Seq<u8>, nonce: Seq<u8>, plaintext: Seq<u8>, ciphertext: Seq<u8>) -> bool {
    &&& plaintext.len() <= MAX_PLAINTEXT_LEN
    &&& ciphertext.len() == plaintext.len() + TAG_LEN
    &&& ciphertext == aes_gcm_seal(key, nonce, plaintext)
}

/// Relies on `argon2::Argon2::hash_password_into` with the default parameters:
/// it is deterministic in its inputs, and succeeds for a 32-byte output when the
/// salt holds at least 8 bytes and the password at most `0xFFFF_FFFF` bytes.
#[verifier::external_body]
pub(crate) fn derive_key(password: &[u8], salt: &[u8]) -> (r: Vec<u8>)
    requires
        password@.len() <= MAX_PASSWORD_LEN,
        MIN_SALT_LEN <= salt@.len() <= MAX_SALT_LEN,
    ensures
        r@ == argon2_key(password@, salt@),
        r@.len() == KEY_LEN,
{
    let mut out = [0u8; KEY_LEN];
    Argon2::default().hash_password_into(password, salt, &mut out).expect("argon2 inputs in range");
    out.to_vec()
}

/// Relies on `aes_gcm::Aes256Gcm` through `aead::Aead::encrypt` with no associated
/// data: it fails only for a plaintext longer than 2^36 bytes, and appends a
/// 16-byte tag to a ciphertext as long as the plaintext.
#[verifier::external_body]
pub(crate) fn aes_gcm_encrypt(key: &[u8], nonce: &[u8], plaintext: &[u8]) -> (r: Vec<u8>)
    requires
        key@.len() == KEY_LEN,
        nonce@.len() == NONCE_LEN,
        plaintext@.len() <= MAX_PLAINTEXT_LEN,
    ensures
        r@ == aes_gcm_seal(key@, nonce@, plaintext@),
        r@.len() == plaintext@.len() + TAG_LEN,
{
    let cipher = Aes256Gcm::new(Key::<Aes256Gcm>::from_slice(key));
    cipher.encrypt(Nonce::from_slice(nonce), plaintext).expect("plaintext length in range")
}

/// Relies on `aes_gcm::Aes256Gcm` through `aead::Aead::decrypt` with no associated
/// data: for a ciphertext of at most 2^36 + 16 bytes, it succeeds exactly on what
/// encrypting some plaintext under the same key and nonce yields, and then returns
/// that plaintext, 16 bytes shorter; a ciphertext shorter than the tag is refused.
#[verifier::external_body]
pub(crate) fn aes_gcm_decrypt(key: &[u8], nonce: &[u8], ciphertext: &[u8]) -> (r: Option<Vec<u8>>)
    requires
        key@.len() == KEY_LEN,
        nonce@.len() == NONCE_LEN,
        ciphertext@.len() <= MAX_PLAINTEXT_LEN + TAG_LEN,
    ensures
        forall|p: Seq<u8>| #[trigger] seals_to(key@, nonce@, p, ciphertext@) ==> r is Some && r->Some_0@ == p,
        r matches Some(p) ==> seals_to(key@, nonce@, p@, ciphertext@),
        r matches Some(p) ==> ciphertext@.len() == p@.len() + TAG_LEN,
        ciphertext@.len() < TAG_LEN ==> r is None,
{
    let cipher = Aes256Gcm::new(Key::<Aes256Gcm>::from_slice(key));
    cipher.decrypt(Nonce::from_slice(nonce), ciphertext).ok()
}

/// Relies on `rand::rngs::OsRng` through `TryRngCore::try_fill_bytes`: on success
/// every byte of the buffer comes from the operating system's random source.
#[verifier::external_body]
pub(crate) fn random_bytes(n: usize) -> (r: Option<Vec<u8>>)
    ensures
        r matches Some(v) ==> v@.len() == n,
{
    let mut buf = vec![0u8; n];
    match OsRng.try_fill_bytes(&mut buf) {
        Ok(()) => Some(buf),
        Err(_) => None,
    }
}

} // verus!
