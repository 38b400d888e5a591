//! The durable key-value cache store, backed by sled.
//!
//! The store maps cache keys (hex digest strings) to encoded records. It is
//! used as an opaque capability: open, get, put, clear. What sled returns
//! depends on what is on disk, so the wrappers promise nothing of the values
//! they hand back; every caller handles each possible outcome, and the exact
//! reading and writing of records is done by the verified codec.

use vstd::prelude::*;
use crate::codec::decode_record;
use crate::codec::encode_record;
use crate::record::DbRecord;
use crate::text::parse_usize;

verus! {

#[verifier::external_type_specification]
#[verifier::external_body]
pub struct ExSledError(sled::Error);

/// Handle to the on-disk store. The underlying sled tree is opaque: all
/// access goes through this module's wrappers.
#[verifier::external_body]
pub struct Db {
    pub connection: sled::Db,
}

/// A store failure, by the step that failed. Open and clear failures are
/// fatal to a run; read failures fall through to a fetch; write failures are
/// logged-and-ignored by the caller.
#[derive(Debug, Clone, PartialEq)]
pub enum StoreError {
    Open(String),
    Clear(String),
    Read(String),
    Write(String),
}

impl StoreError {
    /// The human-readable description the error carries.
    pub open spec fn spec_message(self) -> Seq<char> {
        match self {
            StoreError::Open(s) => s@,
            StoreError::Clear(s) => s@,
            StoreError::Read(s) => s@,
            StoreError::Write(s) => s@,
        }
    }

    /// Hands out the error's description.
    pub fn message(&self) -> (m: &String)
        ensures
            m@ == self.spec_message(),
    {
        match self {
            StoreError::Open(s) => s,
            StoreError::Clear(s) => s,
            StoreError::Read(s) => s,
            StoreError::Write(s) => s,
        }
    }
}

/// The store's reading rule: a read failure is treated exactly as a miss —
/// the caller falls through to a fetch, and the error never becomes the
/// outcome (the distinction may be logged, nothing more).
pub fn miss_on_error<T, E>(r: Result<Option<T>, E>) -> (o: Option<T>)
    ensures
        match r {
            Ok(found) => o == found,
            Err(_) => o is None,
        },
{
    match r {
        Ok(found) => found,
        Err(_) => None,
    }
}

/// Relies on sled's `open`: opens the store rooted at `path`, creating it if
/// it is missing.
#[verifier::external_body]
fn sled_open(path: &str) -> Result<Db, sled::Error> {
    match sled::open(path) {
        Ok(connection) => Ok(Db { connection }),
        Err(e) => Err(e),
    }
}

/// Relies on sled's `Tree::get`: the value most recently written under the
/// key, if any.
#[verifier::external_body]
fn sled_get(db: &Db, key: &str) -> Result<Option<Vec<u8>>, sled::Error> {
    match db.connection.get(key) {
        Ok(Some(v)) => Ok(Some(v.as_ref().to_vec())),
        Ok(None) => Ok(None),
        Err(e) => Err(e),
    }
}

/// Relies on sled's `Tree::insert`: writes the value under the key, replacing
/// any previous value.
#[verifier::external_body]
fn sled_insert(db: &Db, key: &str, value: &[u8]) -> Result<(), sled::Error> {
    match db.connection.insert(key, value) {
        Ok(_) => Ok(()),
        Err(e) => Err(e),
    }
}

/// Relies on sled's `Tree::clear`: removes every key and value.
#[verifier::external_body]
fn sled_clear(db: &Db) -> Result<(), sled::Error> {
    db.connection.clear()
}

/// Relies on sled's `Error` implementing `Display`: its description.
#[verifier::external_body]
fn sled_error_text(e: &sled::Error) -> String {
    e.to_string()
}

impl Db {
    /// Relies on sled's `Db` being cloneable: another handle to the same
    /// underlying store.
    #[verifier::external_body]
    pub fn clone_handle(&self) -> Db {
        Db { connection: self.connection.clone() }
    }

    /// Opens the store rooted at `path`. A failure here is fatal to a run and
    /// carries the `Open` kind.
    pub fn open(path: &str) -> (r: Result<Db, StoreError>)
        ensures
            r matches Err(e) ==> e is Open,
    {
        match sled_open(path) {
            Ok(db) => Ok(db),
            Err(e) => Err(StoreError::Open(sled_error_text(&e))),
        }
    }

    /// Opens the store at its default location, `db_result`.
    pub fn connect() -> (r: Result<Db, StoreError>)
        ensures
            r matches Err(e) ==> e is Open,
    {
        Db::open("db_result")
    }

    /// Reads the raw value under `key` and reads it as a decimal number:
    /// `Some` only when a value is there and is one or more digits whose
    /// value fits in `usize`. A missing key and a read failure give `None`
    /// by `miss_on_error`'s contract; bytes that are not such a number give
    /// `None` by `parse_usize`'s. What the store holds is opaque, so this
    /// function's own contract cannot bind the value to the key.
    pub fn get(&self, key: &str) -> Option<usize> {
        match miss_on_error(sled_get(self, key)) {
            Some(bytes) => parse_usize(bytes.as_slice()),
            None => None,
        }
    }

    /// Discards every record in the store. A failure here is fatal to a run
    /// and carries the `Clear` kind.
    pub fn clear(&self) -> (r: Result<(), StoreError>)
        ensures
            r matches Err(e) ==> e is Clear,
    {
        match sled_clear(self) {
            Ok(u) => Ok(u),
            Err(e) => Err(StoreError::Clear(sled_error_text(&e))),
        }
    }
}

/// Writes a record to the store under `url_hash`, in the codec's stored form,
/// replacing any previous record. A failure carries the `Write` kind; the
/// caller reports the fetched result either way.
pub fn save_to_db(db: &Db, url_hash: &str, db_record: &DbRecord) -> (r: Result<(), StoreError>)
    ensures
        r matches Err(e) ==> e is Write,
{
    let bytes = encode_record(db_record);
    match sled_insert(db, url_hash, bytes.as_slice()) {
        Ok(u) => Ok(u),
        Err(e) => Err(StoreError::Write(sled_error_text(&e))),
    }
}

/// Reads the record under `url_hash`. `Ok(None)` is a miss; a store read
/// failure, and stored bytes that do not spell a record, give a `Read` error
/// (callers treat both as a miss and fetch).
pub fn get_from_db(db: &Db, url_hash: &str) -> (r: Result<Option<DbRecord>, StoreError>)
    ensures
        r matches Err(e) ==> e is Read,
{
    match sled_get(db, url_hash) {
        Ok(Some(bytes)) => match decode_record(bytes.as_slice()) {
            Some(rec) => Ok(Some(rec)),
            None => Err(StoreError::Read(stored_bytes_complaint())),
        },
        Ok(None) => Ok(None),
        Err(e) => Err(StoreError::Read(sled_error_text(&e))),
    }
}

/// The description used when stored bytes do not spell a record.
fn stored_bytes_complaint() -> String {
    "stored value does not spell a record".to_owned()
}

/// Makes the store ready for a run: opens it at `db_name` when no handle is
/// held yet, and, when `clear` is set, discards every prior record before any
/// lookup or fetch starts. Open and clear failures are fatal: on `Err` no URL
/// is processed. When a handle is already held and no clear is asked, no
/// outside call decides, and success is owed.
pub fn prepare_run(db: &mut Option<Db>, db_name: &str, clear: bool) -> (r: Result<(), StoreError>)
    ensures
        r is Ok ==> (*final(db)) is Some,
        r matches Err(e) ==> (e is Open || e is Clear),
        (*old(db)) is Some && !clear ==> r is Ok,
        r matches Err(e) ==> ((*old(db)) is Some ==> e is Clear),
{
    if db.is_none() {
        match Db::open(db_name) {
            Ok(d) => {
                *db = Some(d);
            },
            Err(e) => {
                return Err(e);
            },
        }
    }
    match db {
        Some(d) => {
            if clear {
                match d.clear() {
                    Ok(_) => (),
                    Err(e) => {
                        return Err(e);
                    },
                }
            }
        },
        None => {
            assert(false);
        },
    }
    Ok(())
}

} // verus!
