//! The persisted entry store: credential records with transparent
//! field-level encryption of the secret column.
//!
//! Records live in one table of an embedded relational store. The secret is
//! encrypted on every write and decrypted on every read; it is persisted
//! only as base64 text of `nonce || ciphertext || tag`. All other columns
//! are plain text. Timestamps are kept in a fixed-width RFC 3339 UTC form,
//! so their lexicographic order agrees with chronological order.

use vstd::prelude::*;

use crate::encryption::blob_decrypts_to;
use crate::encryption::pbkdf2_key;
use crate::encryption::Encryption;
use crate::encryption::KDF_ITERATIONS;
use crate::errors::VaultError;
use crate::text::contains_substring;
use crate::text::is_substring;
use crate::text::lex_leq;
use crate::text::str_lex_max;
use vstd::utf8::encode_utf8;

verus! {

/// A credential record. `secret` semantics: the `password` field is held in
/// memory as plaintext and persisted only as ciphertext; every other field
/// is stored unencrypted. `created_at` is immutable after creation;
/// `updated_at` is refreshed on every successful update and never goes
/// below `created_at`.
#[derive(Debug)]
pub struct PasswordEntry {
    /// Store-assigned id; absent before first persistence.
    pub id: Option<i32>,
    pub service: String,
    pub username: String,
    /// The secret. Plaintext in memory, ciphertext at rest.
    pub password: String,
    pub url: String,
    pub notes: String,
    /// Creation time, fixed-width RFC 3339 UTC text.
    pub created_at: String,
    /// Last-update time, fixed-width RFC 3339 UTC text.
    pub updated_at: String,
}

impl Clone for PasswordEntry {
    fn clone(&self) -> (r: Self)
        ensures
            r == *self,
    {
        PasswordEntry {
            id: self.id,
            service: self.service.clone(),
            username: self.username.clone(),
            password: self.password.clone(),
            url: self.url.clone(),
            notes: self.notes.clone(),
            created_at: self.created_at.clone(),
            updated_at: self.updated_at.clone(),
        }
    }
}

/// The text columns of one persisted row, as character sequences. The
/// `password` column holds the base64 text of the encrypted secret.
pub struct RowModel {
    pub service: Seq<char>,
    pub username: Seq<char>,
    pub password: Seq<char>,
    pub url: Seq<char>,
    pub notes: Seq<char>,
    pub created_at: Seq<char>,
    pub updated_at: Seq<char>,
}

pub(crate) struct StoredRow {
    pub(crate) id: i32,
    pub(crate) service: String,
    pub(crate) username: String,
    pub(crate) password: String,
    pub(crate) url: String,
    pub(crate) notes: String,
    pub(crate) created_at: String,
    pub(crate) updated_at: String,
}

impl View for StoredRow {
    type V = RowModel;

    closed spec fn view(&self) -> RowModel {
        RowModel {
            service: self.service@,
            username: self.username@,
            password: self.password@,
            url: self.url@,
            notes: self.notes@,
            created_at: self.created_at@,
            updated_at: self.updated_at@,
        }
    }
}

/// The standard base64 text (with padding) of a byte sequence. A function
/// of the bytes alone.
pub uninterp spec fn b64_of(bytes: Seq<u8>) -> Seq<char>;

/// Relies on base64::engine::general_purpose::STANDARD.encode (standard
/// alphabet, canonical padding): the result is the base64 text of the
/// bytes, and — decoding being its inverse — no other byte sequence
/// encodes to the same text.
#[verifier::external_body]
fn b64_encode(bytes: &[u8]) -> (r: String)
    ensures
        r@ == b64_of(bytes@),
        forall|b: Seq<u8>| r@ == #[trigger] b64_of(b) ==> b == bytes@,
{
    base64::Engine::encode(&base64::engine::general_purpose::STANDARD, bytes)
}

/// Relies on base64::engine::general_purpose::STANDARD.decode (canonical
/// padding required, trailing bits rejected): it returns exactly the bytes
/// whose base64 text is the input, and fails when the input is no such
/// text.
#[verifier::external_body]
fn b64_decode(text: &str) -> (r: Option<Vec<u8>>)
    ensures
        r matches Some(v) ==> text@ == b64_of(v@) && (forall|b: Seq<u8>|
            text@ == #[trigger] b64_of(b) ==> b == v@),
        r is None ==> forall|b: Seq<u8>| text@ != #[trigger] b64_of(b),
{
    base64::Engine::decode(&base64::engine::general_purpose::STANDARD, text).ok()
}

/// Relies on chrono::Utc::now and DateTime::to_rfc3339_opts with
/// SecondsFormat::Nanos and a trailing `Z`: the current time as fixed-width
/// RFC 3339 UTC text. Nothing is assumed of the value the clock returns.
#[verifier::external_body]
fn now_rfc3339() -> (r: String) {
    chrono::Utc::now().to_rfc3339_opts(chrono::SecondsFormat::Nanos, true)
}

#[verifier::external_type_specification]
#[verifier::external_body]
pub struct ExConnection(rusqlite::Connection);

/// The rows of the `passwords` table held by a connection, keyed by the
/// store-assigned integer id. What a freshly opened connection holds
/// depends on the file it was opened on; the statement wrappers below say
/// how each statement changes or reads the rows.
pub uninterp spec fn db_rows(conn: rusqlite::Connection) -> Map<i64, RowModel>;

/// Relies on rusqlite::Connection::open: opens, creating it if absent, the
/// database file at `path`. The rows it holds are whatever the file held.
#[verifier::external_body]
fn open_connection(path: &str) -> (r: Result<rusqlite::Connection, VaultError>)
    ensures
        r matches Err(e) ==> e is Storage,
{
    rusqlite::Connection::open(path).map_err(|e| VaultError::Storage(e.to_string()))
}

/// Relies on rusqlite::Connection::execute with CREATE TABLE IF NOT EXISTS:
/// makes sure the `passwords` table exists; rows already present are kept.
#[verifier::external_body]
fn init_schema(conn: &mut rusqlite::Connection) -> (r: Result<(), VaultError>)
    ensures
        r matches Err(e) ==> e is Storage,
{
    let sql = "CREATE TABLE IF NOT EXISTS passwords (id INTEGER PRIMARY KEY, \
        service TEXT NOT NULL, username TEXT NOT NULL, password TEXT NOT NULL, \
        url TEXT NOT NULL, notes TEXT NOT NULL, created_at TEXT NOT NULL, updated_at TEXT NOT NULL)";
    conn.execute(sql, ()).map_err(|e| VaultError::Storage(e.to_string()))?;
    Ok(())
}

/// Relies on rusqlite::Connection::execute (INSERT) and
/// Connection::last_insert_rowid: on success exactly one new row with a
/// fresh store-assigned id holds the given column values; on failure the
/// table is unchanged (single statements are atomic).
#[verifier::external_body]
fn sql_insert(
    conn: &mut rusqlite::Connection,
    service: &str,
    username: &str,
    password: &str,
    url: &str,
    notes: &str,
    created_at: &str,
    updated_at: &str,
) -> (r: Result<i64, VaultError>)
    ensures
        r matches Ok(id) ==> !db_rows(*old(conn)).contains_key(id) && db_rows(*final(conn))
            == db_rows(*old(conn)).insert(
            id,
            (RowModel {
                service: service@,
                username: username@,
                password: password@,
                url: url@,
                notes: notes@,
                created_at: created_at@,
                updated_at: updated_at@,
            }),
        ),
        r is Err ==> db_rows(*final(conn)) == db_rows(*old(conn)),
        r matches Err(e) ==> e is Storage,
{
    conn.execute(
        "INSERT INTO passwords (service, username, password, url, notes, created_at, updated_at)
         VALUES (?1, ?2, ?3, ?4, ?5, ?6, ?7)",
        (service, username, password, url, notes, created_at, updated_at),
    ).map_err(|e| VaultError::Storage(e.to_string()))?;
    Ok(conn.last_insert_rowid())
}

/// Relies on rusqlite::Connection::prepare, Statement::query_map and
/// Row::get (SELECT of all columns): on success the returned rows list
/// exactly the table's rows, each id once, in an order the store does not
/// promise; the rows held are not changed.
#[verifier::external_body]
fn sql_select_all(conn: &rusqlite::Connection) -> (r: Result<Vec<StoredRow>, VaultError>)
    ensures
        r matches Ok(v) ==> {
            &&& db_rows(*conn).dom().finite()
            &&& v@.len() == db_rows(*conn).dom().len()
            &&& forall|i: int|
                0 <= i < v@.len() ==> db_rows(*conn).contains_pair(
                    (#[trigger] v@[i]).id as i64,
                    v@[i]@,
                )
            &&& forall|i: int, j: int| 0 <= i < j < v@.len() ==> v@[i].id != v@[j].id
            &&& forall|id: i64|
                db_rows(*conn).contains_key(id) ==> exists|i: int|
                    0 <= i < v@.len() && (#[trigger] v@[i]).id == id
        },
        r matches Err(e) ==> e is Storage,
{
    let sql = "SELECT id, service, username, password, url, notes, created_at, updated_at FROM passwords";
    let mut stmt = conn.prepare(sql).map_err(|e| VaultError::Storage(e.to_string()))?;
    let rows = stmt.query_map((), |r| Ok(StoredRow {
        id: r.get(0)?, service: r.get(1)?, username: r.get(2)?, password: r.get(3)?,
        url: r.get(4)?, notes: r.get(5)?, created_at: r.get(6)?, updated_at: r.get(7)?,
    })).map_err(|e| VaultError::Storage(e.to_string()))?;
    let mut out = Vec::new();
    for row in rows {
        out.push(row.map_err(|e| VaultError::Storage(e.to_string()))?);
    }
    Ok(out)
}

/// Relies on rusqlite::Connection::execute (UPDATE ... WHERE id = ?): on
/// success it returns the number of rows changed; a present id has exactly
/// its own row replaced, keeping the old row's created_at; an absent id
/// changes nothing. On failure the table is unchanged.
#[verifier::external_body]
fn sql_update(
    conn: &mut rusqlite::Connection,
    id: i32,
    service: &str,
    username: &str,
    password: &str,
    url: &str,
    notes: &str,
    updated_at: &str,
) -> (r: Result<usize, VaultError>)
    ensures
        r matches Ok(n) ==> if db_rows(*old(conn)).contains_key(id as i64) {
            n == 1 && db_rows(*final(conn)) == db_rows(*old(conn)).insert(
                id as i64,
                (RowModel {
                    service: service@,
                    username: username@,
                    password: password@,
                    url: url@,
                    notes: notes@,
                    created_at: db_rows(*old(conn))[id as i64].created_at,
                    updated_at: updated_at@,
                }),
            )
        } else {
            n == 0 && db_rows(*final(conn)) == db_rows(*old(conn))
        },
        r is Err ==> db_rows(*final(conn)) == db_rows(*old(conn)),
        r matches Err(e) ==> e is Storage,
{
    let n = conn.execute(
        "UPDATE passwords
            SET service = ?1, username = ?2, password = ?3, url = ?4, notes = ?5, updated_at = ?6
            WHERE id = ?7",
        (service, username, password, url, notes, updated_at, id),
    ).map_err(|e| VaultError::Storage(e.to_string()))?;
    Ok(n)
}

/// Relies on rusqlite::Connection::execute (DELETE ... WHERE id = ?): on
/// success the row with that id — if any — is gone and the count of removed
/// rows is returned. On failure the table is unchanged.
#[verifier::external_body]
fn sql_delete(conn: &mut rusqlite::Connection, id: i32) -> (r: Result<usize, VaultError>)
    ensures
        r matches Ok(n) ==> db_rows(*final(conn)) == db_rows(*old(conn)).remove(id as i64) && n
            == if db_rows(*old(conn)).contains_key(id as i64) {
            1int
        } else {
            0int
        },
        r is Err ==> db_rows(*final(conn)) == db_rows(*old(conn)),
        r matches Err(e) ==> e is Storage,
{
    let n = conn.execute("DELETE FROM passwords WHERE id = ?1", (id,))
        .map_err(|e| VaultError::Storage(e.to_string()))?;
    Ok(n)
}

/// The stored password column text holds `secret`: it is the base64 text of
/// a blob that decrypts to `secret` under `key`.
pub open spec fn row_stores_secret(
    password_text: Seq<char>,
    key: Seq<u8>,
    secret: Seq<char>,
) -> bool {
    exists|blob: Seq<u8>|
        password_text == #[trigger] b64_of(blob) && blob_decrypts_to(blob, key, secret)
}

/// The row can be read back under `key`: its password column stores some
/// secret.
pub open spec fn row_readable(row: RowModel, key: Seq<u8>) -> bool {
    exists|s: Seq<char>| row_stores_secret(row.password, key, s)
}

/// The in-memory entry `e` is the readback of one row of `m` under `key`:
/// the id is set, the plain columns are copied, and the secret is the one
/// string the stored ciphertext decrypts to.
pub open spec fn entry_corresponds(e: PasswordEntry, m: Map<i64, RowModel>, key: Seq<u8>) -> bool {
    e.id matches Some(id) && {
        let k = id as i64;
        &&& m.contains_key(k)
        &&& e.service@ == m[k].service
        &&& e.username@ == m[k].username
        &&& e.url@ == m[k].url
        &&& e.notes@ == m[k].notes
        &&& e.created_at@ == m[k].created_at
        &&& e.updated_at@ == m[k].updated_at
        &&& row_stores_secret(m[k].password, key, e.password@)
        &&& forall|s: Seq<char>| row_stores_secret(m[k].password, key, s) ==> s == e.password@
    }
}

/// The entry store. It owns one open connection to the embedded relational
/// store and the field cipher. One per-vault random salt feeds the key
/// derivation; there is no second, fixed-salt derivation.
#[derive(Debug)]
pub struct Database {
    /// The open connection to the embedded relational store.
    pub connection: rusqlite::Connection,
    /// The path the store was opened on.
    pub path: String,
    /// The field cipher protecting the secret column.
    pub encryption: Encryption,
}

impl Database {
    /// The persisted rows, keyed by store-assigned id.
    pub open spec fn rows(&self) -> Map<i64, RowModel> {
        db_rows(self.connection)
    }

    /// The field-encryption key.
    pub open spec fn key(&self) -> Seq<u8> {
        self.encryption@
    }

    /// Open, creating file and schema if absent, the store at `path`, with
    /// the field cipher derived from the master password and the per-vault
    /// salt.
    pub fn new(path: &str, master_password: &str, salt: &[u8]) -> (r: Result<Database, VaultError>)
        ensures
            r matches Ok(db) ==> db.key() == pbkdf2_key(
                encode_utf8(master_password@),
                salt@,
                KDF_ITERATIONS as int,
            ) && db.path@ == path@,
            r matches Err(e) ==> e is Storage,
    {
        let mut connection = match open_connection(path) {
            Ok(c) => c,
            Err(e) => {
                return Err(e);
            },
        };
        match init_schema(&mut connection) {
            Ok(_) => {},
            Err(e) => {
                return Err(e);
            },
        }
        let encryption = Encryption::new(master_password, salt);
        Ok(Database { connection, path: String::from_str(path), encryption })
    }

    /// Encrypt `secret` and persist a new row under a fresh store-assigned
    /// id, with both timestamps read from the clock now. The id is
    /// retrievable only via a later read or search.
    pub fn create(&mut self, entry: &PasswordEntry) -> (r: Result<(), VaultError>)
        ensures
            final(self).encryption == old(self).encryption,
            final(self).path == old(self).path,
            r is Ok ==> exists|id: i64, row: RowModel|
                {
                    &&& !old(self).rows().contains_key(id)
                    &&& final(self).rows() == #[trigger] old(self).rows().insert(id, row)
                    &&& row.service == entry.service@
                    &&& row.username == entry.username@
                    &&& row.url == entry.url@
                    &&& row.notes == entry.notes@
                    &&& row.created_at == row.updated_at
                    &&& row_stores_secret(row.password, old(self).key(), entry.password@)
                    &&& forall|s: Seq<char>|
                        row_stores_secret(row.password, old(self).key(), s) ==> s
                            == entry.password@
                },
            r is Err ==> final(self).rows() == old(self).rows(),
            r matches Err(e) ==> e == VaultError::Crypto || e is Storage,
    {
        let encoded = match encode_secret(&self.encryption, entry.password.as_str()) {
            Ok(t) => t,
            Err(e) => {
                return Err(e);
            },
        };
        let now = now_rfc3339();
        let r = sql_insert(
            &mut self.connection,
            entry.service.as_str(),
            entry.username.as_str(),
            encoded.as_str(),
            entry.url.as_str(),
            entry.notes.as_str(),
            now.as_str(),
            now.as_str(),
        );
        match r {
            Ok(new_id) => {
                proof {
                    let row = (RowModel {
                        service: entry.service@,
                        username: entry.username@,
                        password: encoded@,
                        url: entry.url@,
                        notes: entry.notes@,
                        created_at: now@,
                        updated_at: now@,
                    });
                    assert(self.rows() == old(self).rows().insert(new_id, row));
                }
                Ok(())
            },
            Err(e) => Err(e),
        }
    }

    /// Read every row, decrypting each secret back to plaintext. A row
    /// whose ciphertext cannot be decoded and decrypted — a key mismatch or
    /// corrupted data — is fatal to the whole call: corrupt rows are never
    /// skipped silently.
    pub fn read(&self) -> (r: Result<Vec<PasswordEntry>, VaultError>)
        ensures
            r matches Ok(v) ==> {
                &&& v@.len() == self.rows().dom().len()
                &&& forall|i: int|
                    0 <= i < v@.len() ==> entry_corresponds(
                        #[trigger] v@[i],
                        self.rows(),
                        self.key(),
                    )
                &&& forall|i: int, j: int| 0 <= i < j < v@.len() ==> v@[i].id != v@[j].id
                &&& forall|id: i64|
                    self.rows().contains_key(id) ==> exists|i: int|
                        0 <= i < v@.len() && ((#[trigger] v@[i]).id matches Some(x) && x == id)
            },
            r matches Err(e) ==> e is Storage || (e == VaultError::Crypto && exists|id: i64|
                self.rows().contains_key(id) && !row_readable(
                    #[trigger] self.rows()[id],
                    self.key(),
                )),
    {
        let rows = match sql_select_all(&self.connection) {
            Ok(v) => v,
            Err(e) => {
                return Err(e);
            },
        };
        let mut out: Vec<PasswordEntry> = Vec::new();
        let mut k: usize = 0;
        while k < rows.len()
            invariant
                0 <= k <= rows@.len(),
                out@.len() == k,
                rows@.len() == self.rows().dom().len(),
                self.rows().dom().finite(),
                forall|i: int|
                    0 <= i < rows@.len() ==> self.rows().contains_pair(
                        (#[trigger] rows@[i]).id as i64,
                        rows@[i]@,
                    ),
                forall|i: int, j: int| 0 <= i < j < rows@.len() ==> rows@[i].id != rows@[j].id,
                forall|i: int|
                    0 <= i < k ==> entry_corresponds(#[trigger] out@[i], self.rows(), self.key()),
                forall|i: int| 0 <= i < k ==> (#[trigger] out@[i]).id == Some(rows@[i].id),
                forall|id2: i64|
                    self.rows().contains_key(id2) ==> exists|i: int|
                        0 <= i < rows@.len() && (#[trigger] rows@[i]).id == id2,
            decreases rows@.len() - k,
        {
            let row = &rows[k];
            let secret = match decode_secret(&self.encryption, row.password.as_str()) {
                Ok(s) => s,
                Err(_) => {
                    proof {
                        assert(self.rows().contains_key(rows@[k as int].id as i64));
                        assert(!row_readable(self.rows()[rows@[k as int].id as i64], self.key()));
                    }
                    return Err(VaultError::Crypto);
                },
            };
            let entry = PasswordEntry {
                id: Some(row.id),
                service: row.service.clone(),
                username: row.username.clone(),
                password: secret,
                url: row.url.clone(),
                notes: row.notes.clone(),
                created_at: row.created_at.clone(),
                updated_at: row.updated_at.clone(),
            };
            out.push(entry);
            k += 1;
        }
        proof {
            assert forall|id: i64| self.rows().contains_key(id) implies exists|i: int|
                0 <= i < out@.len() && ((#[trigger] out@[i]).id matches Some(x) && x == id) by {
                let i0 = choose|i: int| 0 <= i < rows@.len() && (#[trigger] rows@[i]).id == id;
                assert(out@[i0].id == Some(rows@[i0].id));
            }
        }
        Ok(out)
    }

    /// Read the one row with the given id, decrypting its secret. Fails
    /// with the not-found error exactly when no row has the id, and with
    /// the crypto error when the row cannot be read back under this key.
    pub fn read_by_id(&self, id: i32) -> (r: Result<PasswordEntry, VaultError>)
        ensures
            r matches Ok(e) ==> entry_corresponds(e, self.rows(), self.key()) && e.id == Some(id),
            r matches Err(err) ==> err is Storage || (err == VaultError::NotFound
                && !self.rows().contains_key(id as i64)) || (err == VaultError::Crypto
                && self.rows().contains_key(id as i64) && !row_readable(
                self.rows()[id as i64],
                self.key(),
            )),
    {
        let rows = match sql_select_all(&self.connection) {
            Ok(v) => v,
            Err(e) => {
                return Err(e);
            },
        };
        let mut k: usize = 0;
        while k < rows.len()
            invariant
                0 <= k <= rows@.len(),
                forall|i: int|
                    0 <= i < rows@.len() ==> self.rows().contains_pair(
                        (#[trigger] rows@[i]).id as i64,
                        rows@[i]@,
                    ),
                forall|id2: i64|
                    self.rows().contains_key(id2) ==> exists|i: int|
                        0 <= i < rows@.len() && (#[trigger] rows@[i]).id == id2,
                forall|i: int| 0 <= i < k ==> (#[trigger] rows@[i]).id != id,
            decreases rows@.len() - k,
        {
            let row = &rows[k];
            if row.id == id {
                let secret = match decode_secret(&self.encryption, row.password.as_str()) {
                    Ok(s) => s,
                    Err(_) => {
                        return Err(VaultError::Crypto);
                    },
                };
                let entry = PasswordEntry {
                    id: Some(row.id),
                    service: row.service.clone(),
                    username: row.username.clone(),
                    password: secret,
                    url: row.url.clone(),
                    notes: row.notes.clone(),
                    created_at: row.created_at.clone(),
                    updated_at: row.updated_at.clone(),
                };
                return Ok(entry);
            }
            k += 1;
        }
        proof {
            if self.rows().contains_key(id as i64) {
                let i0 = choose|i: int|
                    0 <= i < rows@.len() && (#[trigger] rows@[i]).id == (id as i64);
                assert(rows@[i0].id == id);
            }
        }
        Err(VaultError::NotFound)
    }

    /// Re-encrypt the secret and replace the row with the given id. The
    /// row's `created_at` is left untouched; `updated_at` is refreshed to
    /// the later of the clock reading and the row's previous `updated_at`,
    /// so it never moves backwards. An absent id is reported as not found.
    pub fn update(&mut self, id: i32, entry: &PasswordEntry) -> (r: Result<(), VaultError>)
        ensures
            final(self).encryption == old(self).encryption,
            final(self).path == old(self).path,
            r is Ok ==> old(self).rows().contains_key(id as i64) && exists|row: RowModel|
                {
                    &&& final(self).rows() == #[trigger] old(self).rows().insert(id as i64, row)
                    &&& row.service == entry.service@
                    &&& row.username == entry.username@
                    &&& row.url == entry.url@
                    &&& row.notes == entry.notes@
                    &&& row.created_at == old(self).rows()[id as i64].created_at
                    &&& lex_leq(old(self).rows()[id as i64].updated_at, row.updated_at)
                    &&& row_stores_secret(row.password, old(self).key(), entry.password@)
                    &&& forall|s: Seq<char>|
                        row_stores_secret(row.password, old(self).key(), s) ==> s
                            == entry.password@
                },
            r is Err ==> final(self).rows() == old(self).rows(),
            r matches Err(e) ==> e is Storage || e == VaultError::Crypto || (e
                == VaultError::NotFound && !old(self).rows().contains_key(id as i64)),
    {
        let rows = match sql_select_all(&self.connection) {
            Ok(v) => v,
            Err(e) => {
                return Err(e);
            },
        };
        let mut found: Option<usize> = None;
        let mut k: usize = 0;
        while found.is_none() && k < rows.len()
            invariant
                0 <= k <= rows@.len(),
                forall|i: int|
                    0 <= i < rows@.len() ==> self.rows().contains_pair(
                        (#[trigger] rows@[i]).id as i64,
                        rows@[i]@,
                    ),
                forall|id2: i64|
                    self.rows().contains_key(id2) ==> exists|i: int|
                        0 <= i < rows@.len() && (#[trigger] rows@[i]).id == id2,
                found matches Some(f) ==> 0 <= f < rows@.len() && rows@[f as int].id == id,
                found is None ==> forall|i: int| 0 <= i < k ==> (#[trigger] rows@[i]).id != id,
            decreases rows@.len() - k + (if found is None { 1int } else { 0int }),
        {
            if rows[k].id == id {
                found = Some(k);
            } else {
                k += 1;
            }
        }
        let f = match found {
            Some(f) => f,
            None => {
                proof {
                    if old(self).rows().contains_key(id as i64) {
                        let i0 = choose|i: int|
                            0 <= i < rows@.len() && (#[trigger] rows@[i]).id == (id as i64);
                        assert(rows@[i0].id == id);
                    }
                }
                return Err(VaultError::NotFound);
            },
        };
        let encoded = match encode_secret(&self.encryption, entry.password.as_str()) {
            Ok(t) => t,
            Err(e) => {
                return Err(e);
            },
        };
        let now = now_rfc3339();
        let new_updated = str_lex_max(rows[f].updated_at.as_str(), now.as_str());
        proof {
            crate::text::lemma_lex_max_upper(rows@[f as int].updated_at@, now@);
        }
        let r = sql_update(
            &mut self.connection,
            id,
            entry.service.as_str(),
            entry.username.as_str(),
            encoded.as_str(),
            entry.url.as_str(),
            entry.notes.as_str(),
            new_updated.as_str(),
        );
        match r {
            Ok(_) => Ok(()),
            Err(e) => Err(e),
        }
    }

    /// Remove the row with the given id. An absent id is reported as not
    /// found; the store is unchanged on every failure.
    pub fn delete(&mut self, id: i32) -> (r: Result<(), VaultError>)
        ensures
            final(self).encryption == old(self).encryption,
            final(self).path == old(self).path,
            r is Ok ==> old(self).rows().contains_key(id as i64) && final(self).rows() == old(
                self,
            ).rows().remove(id as i64),
            r is Err ==> final(self).rows() == old(self).rows(),
            r matches Err(e) ==> e is Storage || (e == VaultError::NotFound && !old(
                self,
            ).rows().contains_key(id as i64)),
    {
        let n = match sql_delete(&mut self.connection, id) {
            Ok(n) => n,
            Err(e) => {
                return Err(e);
            },
        };
        if n == 0 {
            proof {
                assert(old(self).rows().remove(id as i64) =~= old(self).rows());
            }
            Err(VaultError::NotFound)
        } else {
            Ok(())
        }
    }

    /// Case-sensitive substring search against `service` and `username`
    /// only — the secret is never matched. Results decrypt the secret
    /// exactly as a full read does.
    pub fn search(&self, query: &str) -> (r: Result<Vec<PasswordEntry>, VaultError>)
        ensures
            r matches Ok(v) ==> {
                &&& forall|i: int|
                    0 <= i < v@.len() ==> entry_corresponds(
                        #[trigger] v@[i],
                        self.rows(),
                        self.key(),
                    ) && (is_substring(query@, v@[i].service@) || is_substring(
                        query@,
                        v@[i].username@,
                    ))
                &&& forall|i: int, j: int| 0 <= i < j < v@.len() ==> v@[i].id != v@[j].id
                &&& forall|id: i64|
                    self.rows().contains_key(id) && (is_substring(
                        query@,
                        #[trigger] self.rows()[id].service,
                    ) || is_substring(query@, self.rows()[id].username)) ==> exists|i: int|
                        0 <= i < v@.len() && ((#[trigger] v@[i]).id matches Some(x) && x == id)
            },
            r matches Err(e) ==> e is Storage || (e == VaultError::Crypto && exists|id: i64|
                self.rows().contains_key(id) && !row_readable(
                    #[trigger] self.rows()[id],
                    self.key(),
                )),
    {
        let all = match self.read() {
            Ok(v) => v,
            Err(e) => {
                return Err(e);
            },
        };
        let mut out: Vec<PasswordEntry> = Vec::new();
        let mut k: usize = 0;
        let ghost mut src_idx: Seq<int> = Seq::empty();
        while k < all.len()
            invariant
                0 <= k <= all@.len(),
                src_idx.len() == out@.len(),
                forall|j: int|
                    0 <= j < src_idx.len() ==> 0 <= #[trigger] src_idx[j] < k <= all@.len()
                        && out@[j] == all@[src_idx[j]],
                forall|j1: int, j2: int| 0 <= j1 < j2 < src_idx.len() ==> src_idx[j1] < src_idx[j2],
                forall|i: int, j: int| 0 <= i < j < all@.len() ==> all@[i].id != all@[j].id,
                forall|i: int|
                    0 <= i < all@.len() ==> entry_corresponds(
                        #[trigger] all@[i],
                        self.rows(),
                        self.key(),
                    ),
                forall|id: i64|
                    self.rows().contains_key(id) ==> exists|i: int|
                        0 <= i < all@.len() && ((#[trigger] all@[i]).id matches Some(x) && x == id),
                forall|j: int|
                    0 <= j < out@.len() ==> entry_corresponds(
                        #[trigger] out@[j],
                        self.rows(),
                        self.key(),
                    ) && (is_substring(query@, out@[j].service@) || is_substring(
                        query@,
                        out@[j].username@,
                    )),
                forall|i: int|
                    0 <= i < k && (is_substring(query@, (#[trigger] all@[i]).service@)
                        || is_substring(query@, all@[i].username@)) ==> exists|j: int|
                        0 <= j < out@.len() && out@[j] == all@[i],
            decreases all@.len() - k,
        {
            let entry = &all[k];
            let hit = contains_substring(entry.service.as_str(), query) || contains_substring(
                entry.username.as_str(),
                query,
            );
            let ghost prev = out@;
            if hit {
                out.push(entry.clone());
                proof {
                    src_idx = src_idx.push(k as int);
                }
            }
            proof {
                assert forall|i: int|
                    0 <= i < k + 1 && (is_substring(query@, (#[trigger] all@[i]).service@)
                        || is_substring(query@, all@[i].username@)) implies exists|j: int|
                    0 <= j < out@.len() && out@[j] == all@[i] by {
                    if i < k {
                        let j0 = choose|j: int| 0 <= j < prev.len() && prev[j] == all@[i];
                        assert(out@[j0] == all@[i]);
                    } else {
                        assert(out@[out@.len() - 1] == all@[i]);
                    }
                }
            }
            k += 1;
        }
        proof {
            assert forall|i: int, j: int| 0 <= i < j < out@.len() implies out@[i].id
                != out@[j].id by {
                assert(out@[i] == all@[src_idx[i]]);
                assert(out@[j] == all@[src_idx[j]]);
            }
            assert forall|id: i64|
                self.rows().contains_key(id) && (is_substring(
                    query@,
                    #[trigger] self.rows()[id].service,
                ) || is_substring(query@, self.rows()[id].username)) implies exists|i: int|
                0 <= i < out@.len() && ((#[trigger] out@[i]).id matches Some(x) && x == id) by {
                let i0 = choose|i: int|
                    0 <= i < all@.len() && ((#[trigger] all@[i]).id matches Some(x) && x == id);
                assert(entry_corresponds(all@[i0], self.rows(), self.key()));
                let j0 = choose|j: int| 0 <= j < out@.len() && out@[j] == all@[i0];
                assert(out@[j0].id matches Some(x) && x == id);
            }
        }
        Ok(out)
    }
}

/// Encrypt a secret and encode the ciphertext as base64 column text. The
/// text stores exactly `secret` under the cipher's key.
fn encode_secret(cipher: &Encryption, secret: &str) -> (r: Result<String, VaultError>)
    ensures
        r matches Ok(t) ==> row_stores_secret(t@, cipher@, secret@) && (forall|s: Seq<char>|
            row_stores_secret(t@, cipher@, s) ==> s == secret@),
        r matches Err(e) ==> e == VaultError::Crypto,
{
    let blob = match cipher.encrypt(secret) {
        Ok(v) => v,
        Err(e) => {
            return Err(e);
        },
    };
    let text = b64_encode(blob.as_slice());
    proof {
        assert(row_stores_secret(text@, cipher@, secret@));
    }
    Ok(text)
}

/// Decode base64 column text and decrypt it back to the stored secret.
/// Fails exactly when the text is not the readable encoding of any secret
/// under the cipher's key.
fn decode_secret(cipher: &Encryption, text: &str) -> (r: Result<String, VaultError>)
    ensures
        r matches Ok(p) ==> row_stores_secret(text@, cipher@, p@) && (forall|s: Seq<char>|
            row_stores_secret(text@, cipher@, s) ==> s == p@),
        r is Err ==> forall|s: Seq<char>| !row_stores_secret(text@, cipher@, s),
        r matches Err(e) ==> e == VaultError::Crypto,
{
    let blob = match b64_decode(text) {
        Some(v) => v,
        None => {
            return Err(VaultError::Crypto);
        },
    };
    match cipher.decrypt(blob.as_slice()) {
        Ok(p) => {
            proof {
                assert(row_stores_secret(text@, cipher@, p@));
            }
            Ok(p)
        },
        Err(_) => Err(VaultError::Crypto),
    }
}

/// CRUD round trip: a record persisted as `row` — whose password column
/// stores `secret` under `key` and nothing else, as `create` guarantees —
/// and then read back as `e` from the store holding that row agrees with
/// what was persisted in every column, with the secret recovered exactly.
pub proof fn lemma_create_then_read(
    m: Map<i64, RowModel>,
    id: i64,
    row: RowModel,
    key: Seq<u8>,
    secret: Seq<char>,
    e: PasswordEntry,
)
    requires
        row_stores_secret(row.password, key, secret),
        forall|s: Seq<char>| row_stores_secret(row.password, key, s) ==> s == secret,
        entry_corresponds(e, m.insert(id, row), key),
        e.id matches Some(x) && x == id,
    ensures
        e.service@ == row.service,
        e.username@ == row.username,
        e.url@ == row.url,
        e.notes@ == row.notes,
        e.created_at@ == row.created_at,
        e.updated_at@ == row.updated_at,
        e.password@ == secret,
{
    assert(m.insert(id, row)[id] == row);
}

/// Delete semantics: removing `id` leaves no row with `id` behind and
/// touches no other row. With the read contracts, a read by `id` after the
/// delete reports not-found, and a full read lists no record with `id`.
pub proof fn lemma_delete_then_read(m: Map<i64, RowModel>, id: i64)
    ensures
        !m.remove(id).contains_key(id),
        forall|j: i64|
            j != id ==> m.remove(id).contains_key(j) == #[trigger] m.contains_key(j),
        forall|j: i64| j != id && #[trigger] m.contains_key(j) ==> m.remove(id)[j] == m[j],
{
}

impl PasswordEntry {
    /// Build an in-memory record with no id and both timestamps read from
    /// the clock now.
    pub fn new(service: String, username: String, password: String, url: String, notes: String)
        -> (r: Result<PasswordEntry, VaultError>)
        ensures
            r matches Ok(e) ==> e.id is None && e.service@ == service@ && e.username@ == username@
                && e.password@ == password@ && e.url@ == url@ && e.notes@ == notes@
                && e.created_at@ == e.updated_at@,
            r is Ok,
    {
        let now = now_rfc3339();
        let now2 = now.clone();
        Ok(
            PasswordEntry {
                id: None,
                service,
                username,
                password,
                url,
                notes,
                created_at: now,
                updated_at: now2,
            },
        )
    }
}

} // verus!
