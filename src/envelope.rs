//! The envelope cipher: `salt ‖ nonce ‖ ciphertext`, with a fresh salt and nonce
//! for every envelope and a key derived from the password and the salt.
use vstd::prelude::*;
use crate::crypto::{
    aes_gcm_decrypt, aes_gcm_encrypt, aes_gcm_seal, argon2_key, derive_key, random_bytes, seals_to,
    MAX_PASSWORD_LEN, MAX_PLAINTEXT_LEN, NONCE_LEN, SALT_LEN, TAG_LEN,
};
use crate::error::VaultError;

verus! {

/// Length of the envelope's header: the salt followed by the nonce.
pub const HEADER_LEN: usize = 28;

/// Length of the longest envelope: a header, the longest plaintext the cipher
/// accepts, and a tag.
pub const MAX_ENVELOPE_LEN: u64 = 0x10_0000_002C;

/// The salt stored at the front of an envelope.
pub open spec fn envelope_salt(envelope: Seq<u8>) -> Seq<u8> {
    envelope.subrange(0, SALT_LEN as int)
}

/// The nonce stored after the salt.
pub open spec fn envelope_nonce(envelope: Seq<u8>) -> Seq<u8> {
    envelope.subrange(SALT_LEN as int, HEADER_LEN as int)
}

/// The ciphertext, with its tag, after the header.
pub open spec fn envelope_ciphertext(envelope: Seq<u8>) -> Seq<u8> {
    envelope.subrange(HEADER_LEN as int, envelope.len() as int)
}

/// `envelope` holds a header and a ciphertext that seals `plaintext` under the
/// key derived from `password` and the envelope's salt, with the envelope's nonce.
pub open spec fn opens_to(envelope: Seq<u8>, password: Seq<u8>, plaintext: Seq<u8>) -> bool {
    &&& envelope.len() >= HEADER_LEN
    &&& seals_to(
        argon2_key(password, envelope_salt(envelope)),
        envelope_nonce(envelope),
        plaintext,
        envelope_ciphertext(envelope),
    )
}

/// `envelope` is a well-formed sealing of `plaintext` under `password`.
pub open spec fn is_sealing(envelope: Seq<u8>, plaintext: Seq<u8>, password: Seq<u8>) -> bool {
    &&& envelope.len() == HEADER_LEN + plaintext.len() + TAG_LEN
    &&& opens_to(envelope, password, plaintext)
}

/// What opening `envelope` with `password` gives.
pub open spec fn open_spec(envelope: Seq<u8>, password: Seq<u8>) -> Result<Seq<u8>, VaultError> {
    if envelope.len() < HEADER_LEN {
        Err(VaultError::MalformedEnvelope)
    } else if envelope.len() < HEADER_LEN + TAG_LEN || envelope.len() > MAX_ENVELOPE_LEN {
        Err(VaultError::AuthenticationFailure)
    } else if exists|p: Seq<u8>| opens_to(envelope, password, p) {
        Ok(choose|p: Seq<u8>| opens_to(envelope, password, p))
    } else {
        Err(VaultError::AuthenticationFailure)
    }
}

/// A byte result seen through its view.
pub open spec fn bytes_result(r: Result<Vec<u8>, VaultError>) -> Result<Seq<u8>, VaultError> {
    match r {
        Ok(v) => Ok(v@),
        Err(e) => Err(e),
    }
}

/// Seals `plaintext_pass` under `masterpass` with the given salt and nonce:
/// `salt ‖ nonce ‖ ciphertext`, the ciphertext under the key derived from
/// `masterpass` and `salt`.
pub fn seal_with(salt: &[u8], nonce: &[u8], plaintext_pass: &[u8], masterpass: &[u8]) -> (r: Vec<
    u8,
>)
    requires
        salt@.len() == SALT_LEN,
        nonce@.len() == NONCE_LEN,
        plaintext_pass@.len() <= MAX_PLAINTEXT_LEN,
        masterpass@.len() <= MAX_PASSWORD_LEN,
    ensures
        r@ == salt@ + nonce@ + aes_gcm_seal(argon2_key(masterpass@, salt@), nonce@, plaintext_pass@),
        is_sealing(r@, plaintext_pass@, masterpass@),
{
    let key = derive_key(masterpass, salt);
    let cipher_text = aes_gcm_encrypt(key.as_slice(), nonce, plaintext_pass);
    let mut output: Vec<u8> = Vec::new();
    output.extend_from_slice(salt);
    output.extend_from_slice(nonce);
    output.extend_from_slice(cipher_text.as_slice());
    proof {
        assert(output@ =~= salt@ + nonce@ + cipher_text@);
        assert(envelope_salt(output@) =~= salt@);
        assert(envelope_nonce(output@) =~= nonce@);
        assert(envelope_ciphertext(output@) =~= cipher_text@);
    }
    output
}

/// Seals `plaintext_pass` under `masterpass`, with a fresh random salt and nonce.
/// Fails only when the random source does.
pub fn encrypt(plaintext_pass: &[u8], masterpass: &[u8]) -> (r: Result<Vec<u8>, VaultError>)
    requires
        plaintext_pass@.len() <= MAX_PLAINTEXT_LEN,
        masterpass@.len() <= MAX_PASSWORD_LEN,
    ensures
        r matches Ok(e) ==> is_sealing(e@, plaintext_pass@, masterpass@),
        r matches Ok(e) ==> e@ == envelope_salt(e@) + envelope_nonce(e@) + aes_gcm_seal(
            argon2_key(masterpass@, envelope_salt(e@)),
            envelope_nonce(e@),
            plaintext_pass@,
        ),
        r is Err ==> r == Err::<Vec<u8>, VaultError>(VaultError::RandomnessUnavailable),
{
    let salt = match random_bytes(SALT_LEN) {
        Some(s) => s,
        None => return Err(VaultError::RandomnessUnavailable),
    };
    let nonce = match random_bytes(NONCE_LEN) {
        Some(n) => n,
        None => return Err(VaultError::RandomnessUnavailable),
    };
    let output = seal_with(salt.as_slice(), nonce.as_slice(), plaintext_pass, masterpass);
    proof {
        assert(envelope_salt(output@) =~= salt@);
        assert(envelope_nonce(output@) =~= nonce@);
    }
    Ok(output)
}

/// Opens `encrypted_text` with `masterpass`.
pub fn decrypt(encrypted_text: &[u8], masterpass: &[u8]) -> (r: Result<Vec<u8>, VaultError>)
    requires
        masterpass@.len() <= MAX_PASSWORD_LEN,
    ensures
        bytes_result(r) == open_spec(encrypted_text@, masterpass@),
        encrypted_text@.len() < HEADER_LEN ==> r == Err::<Vec<u8>, VaultError>(
            VaultError::MalformedEnvelope,
        ),
        HEADER_LEN <= encrypted_text@.len() < HEADER_LEN + TAG_LEN ==> r == Err::<
            Vec<u8>,
            VaultError,
        >(VaultError::AuthenticationFailure),
        forall|p: Seq<u8>| #[trigger]
            opens_to(encrypted_text@, masterpass@, p) ==> r is Ok && r->Ok_0@ == p,
        r matches Ok(p) ==> opens_to(encrypted_text@, masterpass@, p@),
{
    if encrypted_text.len() < HEADER_LEN {
        return Err(VaultError::MalformedEnvelope);
    }
    if encrypted_text.len() < HEADER_LEN + TAG_LEN || encrypted_text.len() as u64
        > MAX_ENVELOPE_LEN {
        return Err(VaultError::AuthenticationFailure);
    }
    let (salt_bytes, rest) = encrypted_text.split_at(SALT_LEN);
    let (nonce_bytes, ciphertext) = rest.split_at(NONCE_LEN);
    proof {
        assert(salt_bytes@ =~= envelope_salt(encrypted_text@));
        assert(nonce_bytes@ =~= envelope_nonce(encrypted_text@));
        assert(ciphertext@ =~= envelope_ciphertext(encrypted_text@));
    }
    let key = derive_key(masterpass, salt_bytes);
    match aes_gcm_decrypt(key.as_slice(), nonce_bytes, ciphertext) {
        Some(plaintext) => {
            proof {
                let c = choose|p: Seq<u8>| opens_to(encrypted_text@, masterpass@, p);
                assert(opens_to(encrypted_text@, masterpass@, plaintext@));
                assert(seals_to(key@, nonce_bytes@, c, ciphertext@));
            }
            Ok(plaintext)
        },
        None => {
            proof {
                assert forall|p: Seq<u8>| !opens_to(encrypted_text@, masterpass@, p) by {
                    if opens_to(encrypted_text@, masterpass@, p) {
                        assert(seals_to(key@, nonce_bytes@, p, ciphertext@));
                    }
                }
            }
            Err(VaultError::AuthenticationFailure)
        },
    }
}

/// Whatever `encrypt` returns for a plaintext and a password opens, with that
/// password, to that plaintext; `decrypt` returns every plaintext that an
/// envelope opens to, so decrypting it gives the plaintext back.
pub proof fn lemma_round_trip(envelope: Seq<u8>, plaintext: Seq<u8>, password: Seq<u8>)
    requires
        is_sealing(envelope, plaintext, password),
    ensures
        opens_to(envelope, password, plaintext),
        open_spec(envelope, password) is Ok,
{
}

} // verus!
