//! The vault authenticator: the master credential is a random salt and the key
//! derived from the master password and that salt, kept under reserved names.
use vstd::prelude::*;
use crate::crypto::{
    argon2_key, derive_key, random_bytes, MAX_PASSWORD_LEN, MAX_SALT_LEN, MIN_SALT_LEN, SALT_LEN,
};
use crate::error::VaultError;
use crate::store::{db_contents, hash_key, hash_name, insert_bytes, read_bytes, salt_key, salt_name};

verus! {

/// `password` matches the stored credential `(salt, hash)`.
pub open spec fn credential_matches(salt: Seq<u8>, hash: Seq<u8>, password: Seq<u8>) -> bool {
    &&& MIN_SALT_LEN <= salt.len() <= MAX_SALT_LEN
    &&& argon2_key(password, salt) == hash
}

/// `m` holds a master credential: both reserved names are present.
pub open spec fn is_configured(m: Map<Seq<u8>, Seq<u8>>) -> bool {
    m.contains_key(salt_name()) && m.contains_key(hash_name())
}

/// `m` with the master credential for `password` and `salt` written into it.
pub open spec fn with_credential(m: Map<Seq<u8>, Seq<u8>>, salt: Seq<u8>, password: Seq<u8>) -> Map<
    Seq<u8>,
    Seq<u8>,
> {
    m.insert(salt_name(), salt).insert(hash_name(), argon2_key(password, salt))
}

/// Whether `a` and `b` hold the same bytes.
fn bytes_eq(a: &[u8], b: &[u8]) -> (r: bool)
    ensures
        r == (a@ == b@),
{
    if a.len() != b.len() {
        return false;
    }
    let mut i: usize = 0;
    while i < a.len()
        invariant
            a@.len() == b@.len(),
            0 <= i <= a@.len(),
            forall|j: int| 0 <= j < i ==> a@[j] == b@[j],
        decreases a.len() - i,
    {
        if a[i] != b[i] {
            return false;
        }
        i = i + 1;
    }
    assert(a@ =~= b@);
    true
}

/// Whether `password` matches the stored credential `(salt, hash)`: derives a key
/// from the password and the stored salt and compares it with the stored hash.
/// A salt that the key derivation refuses matches no password.
pub fn check_master_password(salt: &[u8], hash: &[u8], password: &[u8]) -> (r: bool)
    requires
        password@.len() <= MAX_PASSWORD_LEN,
    ensures
        r == credential_matches(salt@, hash@, password@),
{
    if salt.len() < MIN_SALT_LEN || salt.len() > MAX_SALT_LEN {
        return false;
    }
    let derived_hash = derive_key(password, salt);
    bytes_eq(hash, derived_hash.as_slice())
}

/// Writes the master credential for `password` and `salt`: the salt, then the
/// key derived from both, under the reserved names. An existing credential is
/// overwritten.
pub fn store_credential(db: &mut sled::Db, salt: &[u8], password: &[u8]) -> (r: Result<
    (),
    VaultError,
>)
    requires
        salt@.len() == SALT_LEN,
        password@.len() <= MAX_PASSWORD_LEN,
    ensures
        r is Ok ==> db_contents(*final(db)) == with_credential(
            db_contents(*old(db)),
            salt@,
            password@,
        ),
        r is Err ==> r == Err::<(), VaultError>(VaultError::StorageIOFailure),
{
    let key = derive_key(password, salt);
    let salt_name_bytes = salt_key();
    let hash_name_bytes = hash_key();
    match insert_bytes(db, &salt_name_bytes, salt) {
        Ok(()) => {},
        Err(e) => return Err(e),
    }
    insert_bytes(db, &hash_name_bytes, key.as_slice())
}

/// Sets up the master credential for `password`: a fresh random salt and the
/// key derived from both, written under the reserved names. An existing
/// credential is overwritten; when the random source fails nothing is written.
pub fn store_master_password(db: &mut sled::Db, password: &[u8]) -> (r: Result<(), VaultError>)
    requires
        password@.len() <= MAX_PASSWORD_LEN,
    ensures
        r is Ok ==> exists|salt: Seq<u8>|
            salt.len() == SALT_LEN && db_contents(*final(db)) == with_credential(
                db_contents(*old(db)),
                salt,
                password@,
            ),
        r == Err::<(), VaultError>(VaultError::RandomnessUnavailable) ==> *final(db) == *old(db),
        r is Err ==> r == Err::<(), VaultError>(VaultError::RandomnessUnavailable) || r == Err::<
            (),
            VaultError,
        >(VaultError::StorageIOFailure),
{
    let salt_bytes = match random_bytes(SALT_LEN) {
        Some(s) => s,
        None => return Err(VaultError::RandomnessUnavailable),
    };
    store_credential(db, salt_bytes.as_slice(), password)
}

/// Whether `password` is the master password. Fails with `MissingCredential`
/// when the credential is not there, and with `StorageIOFailure` when it cannot
/// be read; a wrong password is `Ok(false)`, never an error.
pub fn verify_master_password(db: &sled::Db, password: &[u8]) -> (r: Result<bool, VaultError>)
    requires
        password@.len() <= MAX_PASSWORD_LEN,
    ensures
        !is_configured(db_contents(*db)) ==> r is Err,
        r == Err::<bool, VaultError>(VaultError::MissingCredential) ==> !is_configured(
            db_contents(*db),
        ),
        r matches Ok(b) ==> is_configured(db_contents(*db)) && b == credential_matches(
            db_contents(*db)[salt_name()],
            db_contents(*db)[hash_name()],
            password@,
        ),
        r is Err ==> r == Err::<bool, VaultError>(VaultError::MissingCredential) || r == Err::<
            bool,
            VaultError,
        >(VaultError::StorageIOFailure),
{
    let salt_name_bytes = salt_key();
    let hash_name_bytes = hash_key();
    let salt = match read_bytes(db, &salt_name_bytes) {
        Ok(Some(n)) => n,
        Ok(None) => return Err(VaultError::MissingCredential),
        Err(e) => return Err(e),
    };
    let hash = match read_bytes(db, &hash_name_bytes) {
        Ok(Some(n)) => n,
        Ok(None) => return Err(VaultError::MissingCredential),
        Err(e) => return Err(e),
    };
    Ok(check_master_password(salt.as_slice(), hash.as_slice(), password))
}

/// Whether the master credential is there: both reserved names hold a value.
/// Fails with `StorageIOFailure` when the store cannot be read.
pub fn is_master_password_configured(db: &sled::Db) -> (r: Result<bool, VaultError>)
    ensures
        r matches Ok(b) ==> b == is_configured(db_contents(*db)),
        r is Err ==> r == Err::<bool, VaultError>(VaultError::StorageIOFailure),
{
    let salt_name_bytes = salt_key();
    let hash_name_bytes = hash_key();
    let has_salt = match read_bytes(db, &salt_name_bytes) {
        Ok(found) => found.is_some(),
        Err(e) => return Err(e),
    };
    let has_hash = match read_bytes(db, &hash_name_bytes) {
        Ok(found) => found.is_some(),
        Err(e) => return Err(e),
    };
    Ok(has_salt && has_hash)
}

/// After setting up the master credential for a password, that password
/// verifies: the credential is there, and the password matches it.
pub proof fn lemma_bootstrap(m: Map<Seq<u8>, Seq<u8>>, salt: Seq<u8>, password: Seq<u8>)
    requires
        salt.len() == SALT_LEN,
    ensures
        is_configured(with_credential(m, salt, password)),
        credential_matches(
            with_credential(m, salt, password)[salt_name()],
            with_credential(m, salt, password)[hash_name()],
            password,
        ),
{
    assert(salt_name() != hash_name()) by {
        assert(salt_name()[0] != hash_name()[0]);
    }
}

} // verus!
