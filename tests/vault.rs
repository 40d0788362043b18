use rustpass::auth::{
    check_master_password, is_master_password_configured, store_credential,
    store_master_password, verify_master_password,
};
use rustpass::envelope::encrypt;
use rustpass::error::VaultError;
use rustpass::store::{add_entry, decrypt_entries, get, insert, iter_get_passwords, remove};

fn fresh_db() -> sled::Db {
    sled::Config::new().temporary(true).open().expect("temporary database")
}

#[test]
fn test_password_verificaiton() {
    let mut db = fresh_db();
    let password = b"Floroma";
    store_master_password(&mut db, password).expect("unable to store password");
    let verified = verify_master_password(&db, password).expect("unable to verify password");
    assert_eq!(verified, true);

    let verified = verify_master_password(&db, b"Bloromo").expect("unable to verify password");
    assert_eq!(verified, false);
}

#[test]
fn insert_get() {
    let mut db = fresh_db();
    let key = "Gmail";
    let value = b"Blueblue";
    let value = encrypt(value, b"shakalaka").expect("unable to encrypt");
    let _ = insert(&mut db, key, &value);
    if let Some(sled_value) = get(&db, key) {
        println!("Seld_value: {:?}", &sled_value);
        assert_eq!(&sled_value, &value);
    }
}

#[test]
fn verify_before_setup_is_missing_credential() {
    let db = fresh_db();
    assert_eq!(verify_master_password(&db, b"anything"), Err(VaultError::MissingCredential));
    assert_eq!(is_master_password_configured(&db), Ok(false));
}

#[test]
fn half_credential_is_not_configured() {
    let mut db = fresh_db();
    insert(&mut db, "salt", &vec![7u8; 16]).unwrap();
    assert_eq!(is_master_password_configured(&db), Ok(false));
    assert_eq!(verify_master_password(&db, b"x"), Err(VaultError::MissingCredential));
}

#[test]
fn setup_configures_and_stores_credential() {
    let mut db = fresh_db();
    store_master_password(&mut db, b"Floroma").unwrap();
    assert_eq!(is_master_password_configured(&db), Ok(true));
    let salt = get(&db, "salt").unwrap();
    let hash = get(&db, "hash").unwrap();
    assert_eq!(salt.len(), 16);
    assert_eq!(hash.len(), 32);
    assert!(check_master_password(&salt, &hash, b"Floroma"));
    assert!(!check_master_password(&salt, &hash, b"Bloromo"));
}

#[test]
fn check_rejects_short_salt() {
    assert!(!check_master_password(b"short", &[0u8; 32], b"pw"));
}

#[test]
fn listing_excludes_reserved_names() {
    let mut db = fresh_db();
    store_master_password(&mut db, b"K").unwrap();
    add_entry(&mut db, "K", "Gmail", "Blueblue").unwrap();
    let listed = iter_get_passwords(&db, b"K").unwrap();
    assert_eq!(listed, vec![("Gmail".to_string(), b"Blueblue".to_vec())]);
}

#[test]
fn listing_is_in_key_order() {
    let mut db = fresh_db();
    add_entry(&mut db, "K", "b", "two").unwrap();
    add_entry(&mut db, "K", "a", "one").unwrap();
    let listed = iter_get_passwords(&db, b"K").unwrap();
    assert_eq!(
        listed,
        vec![("a".to_string(), b"one".to_vec()), ("b".to_string(), b"two".to_vec())]
    );
}

#[test]
fn add_entry_overwrites() {
    let mut db = fresh_db();
    add_entry(&mut db, "K", "Gmail", "old").unwrap();
    add_entry(&mut db, "K", "Gmail", "new").unwrap();
    let listed = iter_get_passwords(&db, b"K").unwrap();
    assert_eq!(listed, vec![("Gmail".to_string(), b"new".to_vec())]);
}

#[test]
fn delete_then_get_is_none() {
    let mut db = fresh_db();
    add_entry(&mut db, "K", "Gmail", "Blueblue").unwrap();
    assert!(get(&db, "Gmail").is_some());
    remove(&mut db, "Gmail").unwrap();
    assert_eq!(get(&db, "Gmail"), None);
    remove(&mut db, "Gmail").unwrap();
}

#[test]
fn corrupted_entry_fails_whole_listing() {
    let mut db = fresh_db();
    add_entry(&mut db, "K", "a", "fine").unwrap();
    insert(&mut db, "b", &vec![1u8; 40]).unwrap();
    add_entry(&mut db, "K", "c", "also fine").unwrap();
    assert_eq!(iter_get_passwords(&db, b"K"), Err(VaultError::AuthenticationFailure));
}

#[test]
fn short_entry_fails_listing_as_malformed() {
    let mut db = fresh_db();
    insert(&mut db, "x", &vec![1u8; 3]).unwrap();
    assert_eq!(iter_get_passwords(&db, b"K"), Err(VaultError::MalformedEnvelope));
}

#[test]
fn wrong_password_fails_listing() {
    let mut db = fresh_db();
    add_entry(&mut db, "K", "a", "fine").unwrap();
    assert_eq!(iter_get_passwords(&db, b"L"), Err(VaultError::AuthenticationFailure));
}

#[test]
fn empty_store_lists_nothing() {
    let db = fresh_db();
    assert_eq!(iter_get_passwords(&db, b"K"), Ok(vec![]));
}

#[test]
fn raw_listing_with_bad_name_is_encoding_failure() {
    let env = encrypt(b"v", b"K").unwrap();
    let entries = vec![(vec![0xffu8, 0xfe], env)];
    assert_eq!(decrypt_entries(&entries, b"K"), Err(VaultError::EncodingFailure));
}

#[test]
fn raw_listing_skips_reserved_and_opens_rest() {
    let env = encrypt(b"v", b"K").unwrap();
    let entries = vec![
        (b"hash".to_vec(), vec![0u8; 32]),
        (b"n".to_vec(), env),
        (b"salt".to_vec(), vec![0u8; 16]),
    ];
    assert_eq!(decrypt_entries(&entries, b"K"), Ok(vec![("n".to_string(), b"v".to_vec())]));
}

#[test]
fn store_credential_writes_salt_and_derived_key() {
    let mut db = fresh_db();
    let salt = [5u8; 16];
    store_credential(&mut db, &salt, b"Floroma").unwrap();
    assert_eq!(get(&db, "salt"), Some(salt.to_vec()));
    let hash = get(&db, "hash").unwrap();
    assert_eq!(hash.len(), 32);
    assert_ne!(hash, salt.to_vec());
    assert_eq!(verify_master_password(&db, b"Floroma"), Ok(true));
    assert_eq!(verify_master_password(&db, b"Bloromo"), Ok(false));
}

#[test]
fn store_credential_keeps_other_entries() {
    let mut db = fresh_db();
    add_entry(&mut db, "K", "Gmail", "Blueblue").unwrap();
    store_credential(&mut db, &[1u8; 16], b"K").unwrap();
    let listed = iter_get_passwords(&db, b"K").unwrap();
    assert_eq!(listed, vec![("Gmail".to_string(), b"Blueblue".to_vec())]);
}
