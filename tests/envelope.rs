use rustpass::envelope::{decrypt, encrypt, seal_with, HEADER_LEN};
use rustpass::error::VaultError;

#[test]
fn test_encrypt_decrypt() {
    let plaintext = b"hello";
    let masterpass = b"Shakalaka";
    if let Ok(encrypted) = encrypt(plaintext, masterpass) {
        println!("Encrypted Bytes: {:?}", &encrypted);
        if let Ok(decrypted) = decrypt(encrypted.as_slice(), masterpass) {
            let decrypted_str = std::str::from_utf8(&decrypted).expect("Unable to convert to utf8");
            println!("Decrypted message: {}", decrypted_str);
            assert_eq!(decrypted_str, std::str::from_utf8(plaintext).unwrap());
        } else {
            println!("Decryption failed");
        }
    } else {
        println!("Encryption failed");
    }
}

#[test]
fn envelope_layout_and_length() {
    let e = encrypt(b"hello", b"Shakalaka").unwrap();
    assert_eq!(e.len(), 16 + 12 + 5 + 16);
    assert!(e.len() >= HEADER_LEN);
    assert_ne!(&e[HEADER_LEN..HEADER_LEN + 5], b"hello");
    assert_eq!(decrypt(&e, b"Shakalaka").unwrap(), b"hello".to_vec());
}

#[test]
fn empty_plaintext_round_trip() {
    let e = encrypt(b"", b"pw").unwrap();
    assert_eq!(e.len(), 44);
    assert_eq!(decrypt(&e, b"pw").unwrap(), Vec::<u8>::new());
}

#[test]
fn wrong_key_is_authentication_failure() {
    let e = encrypt(b"secret", b"right").unwrap();
    assert_eq!(decrypt(&e, b"wrong"), Err(VaultError::AuthenticationFailure));
}

#[test]
fn two_sealings_differ() {
    let a = encrypt(b"same", b"key").unwrap();
    let b = encrypt(b"same", b"key").unwrap();
    assert_ne!(a, b);
    assert_ne!(&a[..16], &b[..16]);
    assert_ne!(&a[16..28], &b[16..28]);
}

#[test]
fn short_input_is_malformed() {
    assert_eq!(decrypt(b"", b"k"), Err(VaultError::MalformedEnvelope));
    assert_eq!(decrypt(&[0u8; 27], b"k"), Err(VaultError::MalformedEnvelope));
}

#[test]
fn header_only_input_fails_authentication() {
    assert_eq!(decrypt(&[0u8; 28], b"k"), Err(VaultError::AuthenticationFailure));
}

#[test]
fn tampered_envelope_fails_authentication() {
    let mut e = encrypt(b"payload", b"k").unwrap();
    let last = e.len() - 1;
    e[last] ^= 1;
    assert_eq!(decrypt(&e, b"k"), Err(VaultError::AuthenticationFailure));
    let mut f = encrypt(b"payload", b"k").unwrap();
    f[0] ^= 1;
    assert_eq!(decrypt(&f, b"k"), Err(VaultError::AuthenticationFailure));
}

#[test]
fn seal_with_lays_out_salt_nonce_ciphertext() {
    let salt = [3u8; 16];
    let nonce = [9u8; 12];
    let e = seal_with(&salt, &nonce, b"hello", b"Shakalaka");
    assert_eq!(e.len(), 49);
    assert_eq!(&e[..16], &salt);
    assert_eq!(&e[16..28], &nonce);
    assert_ne!(&e[28..33], b"hello");
    assert_eq!(seal_with(&salt, &nonce, b"hello", b"Shakalaka"), e);
    assert_eq!(decrypt(&e, b"Shakalaka").unwrap(), b"hello".to_vec());
}

#[test]
fn body_shorter_than_tag_fails_authentication() {
    assert_eq!(decrypt(&[0u8; 43], b"k"), Err(VaultError::AuthenticationFailure));
}
