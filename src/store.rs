//! The entry store: a durable, ordered key-value map from entry names to
//! encrypted envelopes, kept in a sled database.
use vstd::prelude::*;
use vstd::utf8::{decode_utf8, encode_utf8, valid_utf8};
use crate::crypto::{MAX_PASSWORD_LEN, MAX_PLAINTEXT_LEN};
use crate::envelope::{decrypt, encrypt, is_sealing, open_spec};
use crate::error::VaultError;

verus! {

#[verifier::external_type_specification]
#[verifier::external_body]
pub struct ExDb(sled::Db);

#[verifier::external_type_specification]
#[verifier::external_body]
pub struct ExSledError(sled::Error);

/// What a sled database holds: each key's bytes mapped to its value's bytes.
/// The contracts below speak of one handle through which all writes go.
pub uninterp spec fn db_contents(db: sled::Db) -> Map<Seq<u8>, Seq<u8>>;

/// Strict lexicographic order on byte strings, the order sled keeps its keys in.
pub open spec fn bytes_lt(a: Seq<u8>, b: Seq<u8>) -> bool
    decreases a.len(),
{
    if b.len() == 0 {
        false
    } else if a.len() == 0 {
        true
    } else if a[0] != b[0] {
        a[0] < b[0]
    } else {
        bytes_lt(a.drop_first(), b.drop_first())
    }
}

/// `entries` lists every key of `m` once, with its value, in increasing key order.
pub open spec fn is_listing(entries: Seq<(Seq<u8>, Seq<u8>)>, m: Map<Seq<u8>, Seq<u8>>) -> bool {
    &&& forall|i: int, j: int|
        0 <= i < j < entries.len() ==> #[trigger] bytes_lt(entries[i].0, entries[j].0)
    &&& forall|i: int|
        0 <= i < entries.len() ==> m.contains_key(#[trigger] entries[i].0) && m[entries[i].0]
            == entries[i].1
    &&& forall|k: Seq<u8>|
        #[trigger] m.contains_key(k) ==> exists|i: int| 0 <= i < entries.len() && entries[i].0 == k
}

/// A list of raw entries seen through its view.
pub open spec fn raw_view(entries: Seq<(Vec<u8>, Vec<u8>)>) -> Seq<(Seq<u8>, Seq<u8>)> {
    entries.map_values(|e: (Vec<u8>, Vec<u8>)| (e.0@, e.1@))
}

/// Relies on `sled::Tree::insert`: on success the key maps to the value. The
/// handle is taken mutably because the database changes through it.
#[verifier::external_body]
fn db_insert(db: &mut sled::Db, key: &[u8], value: &[u8]) -> (r: Result<(), sled::Error>)
    ensures
        r is Ok ==> db_contents(*final(db)) == db_contents(*old(db)).insert(key@, value@),
{
    match db.insert(key, value) {
        Ok(_) => Ok(()),
        Err(e) => Err(e),
    }
}

/// Relies on `sled::Tree::remove`: on success the key is absent.
#[verifier::external_body]
fn db_remove(db: &mut sled::Db, key: &[u8]) -> (r: Result<(), sled::Error>)
    ensures
        r is Ok ==> db_contents(*final(db)) == db_contents(*old(db)).remove(key@),
{
    match db.remove(key) {
        Ok(_) => Ok(()),
        Err(e) => Err(e),
    }
}

/// Relies on `sled::Tree::flush`: it writes dirty buffers to disk and leaves
/// the contents as they are.
#[verifier::external_body]
fn db_flush(db: &sled::Db) -> (r: Result<(), sled::Error>) {
    match db.flush() {
        Ok(_) => Ok(()),
        Err(e) => Err(e),
    }
}

/// Relies on `sled::Tree::get`: on success it returns the value stored under
/// the key, or nothing when the key is absent.
#[verifier::external_body]
fn db_get(db: &sled::Db, key: &[u8]) -> (r: Result<Option<Vec<u8>>, sled::Error>)
    ensures
        r matches Ok(Some(v)) ==> db_contents(*db).contains_key(key@) && db_contents(*db)[key@]
            == v@,
        r matches Ok(None) ==> !db_contents(*db).contains_key(key@),
{
    match db.get(key) {
        Ok(Some(v)) => Ok(Some(v.to_vec())),
        Ok(None) => Ok(None),
        Err(e) => Err(e),
    }
}

/// Relies on `sled::Tree::iter`: it yields every entry once, in increasing
/// lexicographic order of the keys.
#[verifier::external_body]
fn db_entries(db: &sled::Db) -> (r: Result<Vec<(Vec<u8>, Vec<u8>)>, sled::Error>)
    ensures
        r matches Ok(v) ==> is_listing(raw_view(v@), db_contents(*db)),
{
    let mut out = Vec::new();
    for item in db.iter() {
        let (k, v) = item?;
        out.push((k.to_vec(), v.to_vec()));
    }
    Ok(out)
}

/// Relies on `String::from_utf8`: it succeeds exactly on valid UTF-8, and the
/// string holds the characters those bytes encode.
#[verifier::external_body]
fn utf8_string(bytes: &[u8]) -> (r: Option<String>)
    ensures
        r is Some <==> valid_utf8(bytes@),
        r matches Some(s) ==> s@ == decode_utf8(bytes@),
{
    String::from_utf8(bytes.to_vec()).ok()
}

/// The reserved name under which the master credential's salt is kept: "salt".
pub open spec fn salt_name() -> Seq<u8> {
    seq![115u8, 97u8, 108u8, 116u8]
}

/// The reserved name under which the master credential's hash is kept: "hash".
pub open spec fn hash_name() -> Seq<u8> {
    seq![104u8, 97u8, 115u8, 104u8]
}

/// A name that belongs to the master credential, never to an entry.
pub open spec fn is_reserved(name: Seq<u8>) -> bool {
    name == salt_name() || name == hash_name()
}

/// What listing a single stored entry gives: its name as text and its plaintext.
pub open spec fn entry_spec(name: Seq<u8>, envelope: Seq<u8>, password: Seq<u8>) -> Result<
    (Seq<char>, Seq<u8>),
    VaultError,
> {
    if !valid_utf8(name) {
        Err(VaultError::EncodingFailure)
    } else {
        match open_spec(envelope, password) {
            Ok(p) => Ok((decode_utf8(name), p)),
            Err(e) => Err(e),
        }
    }
}

/// What listing `entries` in order gives: every entry that is not reserved,
/// opened with `password`, or the first failure met.
pub open spec fn list_spec(entries: Seq<(Seq<u8>, Seq<u8>)>, password: Seq<u8>) -> Result<
    Seq<(Seq<char>, Seq<u8>)>,
    VaultError,
>
    decreases entries.len(),
{
    if entries.len() == 0 {
        Ok(seq![])
    } else {
        match list_spec(entries.drop_last(), password) {
            Err(e) => Err(e),
            Ok(acc) => if is_reserved(entries.last().0) {
                Ok(acc)
            } else {
                match entry_spec(entries.last().0, entries.last().1, password) {
                    Ok(x) => Ok(acc.push(x)),
                    Err(e) => Err(e),
                }
            },
        }
    }
}

/// A list of decrypted entries seen through its view.
pub open spec fn listed_result(r: Result<Vec<(String, Vec<u8>)>, VaultError>) -> Result<
    Seq<(Seq<char>, Seq<u8>)>,
    VaultError,
> {
    match r {
        Ok(v) => Ok(v@.map_values(|e: (String, Vec<u8>)| (e.0@, e.1@))),
        Err(e) => Err(e),
    }
}

/// A listing that failed part way stays failed, with the same error.
proof fn lemma_list_err_extends(
    entries: Seq<(Seq<u8>, Seq<u8>)>,
    password: Seq<u8>,
    i: int,
)
    requires
        0 <= i <= entries.len(),
        list_spec(entries.take(i), password) is Err,
    ensures
        list_spec(entries, password) == list_spec(entries.take(i), password),
    decreases entries.len() - i,
{
    if i < entries.len() {
        assert(entries.take(i + 1).drop_last() =~= entries.take(i));
        lemma_list_err_extends(entries, password, i + 1);
    } else {
        assert(entries.take(i) =~= entries);
    }
}

/// Listing fails as a whole as soon as one entry that is not reserved cannot
/// be listed (a corrupted envelope, a wrong password, a name that is not text):
/// no entry at all is returned then, not even the valid ones.
pub proof fn lemma_fail_fast(entries: Seq<(Seq<u8>, Seq<u8>)>, password: Seq<u8>, i: int)
    requires
        0 <= i < entries.len(),
        !is_reserved(entries[i].0),
        entry_spec(entries[i].0, entries[i].1, password) is Err,
    ensures
        list_spec(entries, password) is Err,
    decreases entries.len(),
{
    if i < entries.len() - 1 {
        lemma_fail_fast(entries.drop_last(), password, i);
    }
}

/// The reserved name of the salt, as bytes.
pub(crate) fn salt_key() -> (r: [u8; 4])
    ensures
        r@ == salt_name(),
{
    let r: [u8; 4] = [115u8, 97u8, 108u8, 116u8];
    assert(r@ =~= salt_name());
    r
}

/// The reserved name of the hash, as bytes.
pub(crate) fn hash_key() -> (r: [u8; 4])
    ensures
        r@ == hash_name(),
{
    let r: [u8; 4] = [104u8, 97u8, 115u8, 104u8];
    assert(r@ =~= hash_name());
    r
}

/// A listing never surfaces the master credential: no listed name is reserved.
pub proof fn lemma_listing_excludes_reserved(
    entries: Seq<(Seq<u8>, Seq<u8>)>,
    password: Seq<u8>,
)
    ensures
        list_spec(entries, password) matches Ok(v) ==> forall|i: int|
            0 <= i < v.len() ==> !is_reserved(encode_utf8(#[trigger] v[i].0)),
    decreases entries.len(),
{
    if entries.len() > 0 {
        lemma_listing_excludes_reserved(entries.drop_last(), password);
        if valid_utf8(entries.last().0) {
            vstd::utf8::decode_utf8_encode_utf8(entries.last().0);
        }
    }
}

/// Whether `name` is one of the reserved names.
fn is_reserved_name(name: &[u8]) -> (r: bool)
    ensures
        r == is_reserved(name@),
{
    if name.len() != 4 {
        return false;
    }
    let r = (name[0] == 115 && name[1] == 97 && name[2] == 108 && name[3] == 116) || (name[0]
        == 104 && name[1] == 97 && name[2] == 115 && name[3] == 104);
    proof {
        if r {
            assert(name@ =~= salt_name() || name@ =~= hash_name());
        }
    }
    r
}

/// Opens every entry of a raw listing that is not reserved, in order, failing
/// as a whole at the first entry whose name is not text or whose envelope does
/// not open with `masterpassword`.
pub fn decrypt_entries(entries: &Vec<(Vec<u8>, Vec<u8>)>, masterpassword: &[u8]) -> (r: Result<
    Vec<(String, Vec<u8>)>,
    VaultError,
>)
    requires
        masterpassword@.len() <= MAX_PASSWORD_LEN,
    ensures
        listed_result(r) == list_spec(raw_view(entries@), masterpassword@),
{
    let ghost all = raw_view(entries@);
    let mut result_vec: Vec<(String, Vec<u8>)> = Vec::new();
    let mut i: usize = 0;
    proof {
        assert(all.take(0) =~= Seq::<(Seq<u8>, Seq<u8>)>::empty());
        assert(result_vec@.map_values(|e: (String, Vec<u8>)| (e.0@, e.1@)) =~= Seq::<
            (Seq<char>, Seq<u8>),
        >::empty());
    }
    while i < entries.len()
        invariant
            0 <= i <= entries.len(),
            all == raw_view(entries@),
            masterpassword@.len() <= MAX_PASSWORD_LEN,
            listed_result(Ok(result_vec)) == list_spec(all.take(i as int), masterpassword@),
        decreases entries.len() - i,
    {
        let ghost before = result_vec;
        let key = entries[i].0.as_slice();
        let value = entries[i].1.as_slice();
        assert(all.take(i as int + 1).drop_last() =~= all.take(i as int));
        if !is_reserved_name(key) {
            let key_str = match utf8_string(key) {
                Some(s) => s,
                None => {
                    proof {
                        lemma_list_err_extends(all, masterpassword@, i as int + 1);
                    }
                    return Err(VaultError::EncodingFailure);
                },
            };
            let decrypted_value = match decrypt(value, masterpassword) {
                Ok(p) => p,
                Err(e) => {
                    proof {
                        lemma_list_err_extends(all, masterpassword@, i as int + 1);
                    }
                    return Err(e);
                },
            };
            result_vec.push((key_str, decrypted_value));
            proof {
                let f = |e: (String, Vec<u8>)| (e.0@, e.1@);
                assert(result_vec@.map_values(f) =~= before@.map_values(f).push(
                    (key_str@, decrypted_value@),
                ));
            }
        }
        i = i + 1;
    }
    assert(all.take(i as int) =~= all);
    Ok(result_vec)
}

/// Stores `value` under `key`, replacing what was there, and flushes it to disk.
pub fn insert(db: &mut sled::Db, key: &str, value: &Vec<u8>) -> (r: Result<(), VaultError>)
    ensures
        r is Ok ==> db_contents(*final(db)) == db_contents(*old(db)).insert(
            encode_utf8(key@),
            value@,
        ),
        r is Err ==> r == Err::<(), VaultError>(VaultError::StorageIOFailure),
{
    insert_bytes(db, key.as_bytes(), value.as_slice())
}

/// Stores `value` under the raw name `key` and flushes it to disk.
pub(crate) fn insert_bytes(db: &mut sled::Db, key: &[u8], value: &[u8]) -> (r: Result<
    (),
    VaultError,
>)
    ensures
        r is Ok ==> db_contents(*final(db)) == db_contents(*old(db)).insert(key@, value@),
        r is Err ==> r == Err::<(), VaultError>(VaultError::StorageIOFailure),
{
    if db_insert(db, key, value).is_err() {
        return Err(VaultError::StorageIOFailure);
    }
    if db_flush(db).is_err() {
        return Err(VaultError::StorageIOFailure);
    }
    Ok(())
}

/// Deletes the entry under `key`, if there is one, and flushes the change to disk.
pub fn remove(db: &mut sled::Db, key: &str) -> (r: Result<(), VaultError>)
    ensures
        r is Ok ==> db_contents(*final(db)) == db_contents(*old(db)).remove(encode_utf8(key@)),
        r is Err ==> r == Err::<(), VaultError>(VaultError::StorageIOFailure),
{
    if db_remove(db, key.as_bytes()).is_err() {
        return Err(VaultError::StorageIOFailure);
    }
    if db_flush(db).is_err() {
        return Err(VaultError::StorageIOFailure);
    }
    Ok(())
}

/// Once an entry is deleted, its name is absent: reading it gives nothing.
pub proof fn lemma_delete_then_get(m: Map<Seq<u8>, Seq<u8>>, name: Seq<u8>)
    ensures
        !m.remove(name).contains_key(name),
{
}

/// The raw bytes stored under `key`, never decrypted. A failed read gives
/// nothing, as an absent key does.
pub fn get(db: &sled::Db, key: &str) -> (r: Option<Vec<u8>>)
    ensures
        r matches Some(v) ==> db_contents(*db).contains_key(encode_utf8(key@))
            && db_contents(*db)[encode_utf8(key@)] == v@,
        !db_contents(*db).contains_key(encode_utf8(key@)) ==> r is None,
{
    match read_bytes(db, key.as_bytes()) {
        Ok(found) => found,
        Err(_) => None,
    }
}

/// The raw bytes stored under the raw name `key`, or `StorageIOFailure` when
/// the store cannot be read.
pub(crate) fn read_bytes(db: &sled::Db, key: &[u8]) -> (r: Result<Option<Vec<u8>>, VaultError>)
    ensures
        r matches Ok(Some(v)) ==> db_contents(*db).contains_key(key@) && db_contents(*db)[key@]
            == v@,
        r matches Ok(None) ==> !db_contents(*db).contains_key(key@),
        r is Err ==> r == Err::<Option<Vec<u8>>, VaultError>(VaultError::StorageIOFailure),
{
    match db_get(db, key) {
        Ok(found) => Ok(found),
        Err(_) => Err(VaultError::StorageIOFailure),
    }
}

/// Lists every entry that is not reserved, in key order, with its envelope
/// opened with `masterpassword`; fails as a whole at the first entry that
/// cannot be listed, or when the store cannot be read.
pub fn iter_get_passwords(db: &sled::Db, masterpassword: &[u8]) -> (r: Result<
    Vec<(String, Vec<u8>)>,
    VaultError,
>)
    requires
        masterpassword@.len() <= MAX_PASSWORD_LEN,
    ensures
        listed_result(r) == Err::<Seq<(Seq<char>, Seq<u8>)>, VaultError>(
            VaultError::StorageIOFailure,
        ) || exists|entries: Seq<(Seq<u8>, Seq<u8>)>|
            is_listing(entries, db_contents(*db)) && listed_result(r) == list_spec(
                entries,
                masterpassword@,
            ),
{
    match db_entries(db) {
        Ok(entries) => decrypt_entries(&entries, masterpassword),
        Err(_) => Err(VaultError::StorageIOFailure),
    }
}

/// Adds a secret, or replaces it: seals `value` under `master_password` and
/// stores the envelope under `key`.
pub fn add_entry(db: &mut sled::Db, master_password: &str, key: &str, value: &str) -> (r: Result<
    (),
    VaultError,
>)
    requires
        encode_utf8(master_password@).len() <= MAX_PASSWORD_LEN,
        encode_utf8(value@).len() <= MAX_PLAINTEXT_LEN,
    ensures
        r is Ok ==> exists|envelope: Seq<u8>|
            is_sealing(envelope, encode_utf8(value@), encode_utf8(master_password@))
                && db_contents(*final(db)) == db_contents(*old(db)).insert(
                encode_utf8(key@),
                envelope,
            ),
        r == Err::<(), VaultError>(VaultError::RandomnessUnavailable) ==> *final(db) == *old(db),
        r is Err ==> r == Err::<(), VaultError>(VaultError::RandomnessUnavailable) || r == Err::<
            (),
            VaultError,
        >(VaultError::StorageIOFailure),
{
    let output = match encrypt(value.as_bytes(), master_password.as_bytes()) {
        Ok(e) => e,
        Err(e) => return Err(e),
    };
    insert(db, key, &output)
}

} // verus!
