//! The host's own bookkeeping table.
//!
//! A thin typed layer over one well-known table of the database, holding
//! the transport's persistent device id and the schema version, plus the
//! startup migration that co-versions the transport store with these keys.

use vstd::prelude::*;

use crate::store::{
    kv_tables, raw_get, raw_remove, raw_set, spec_kv_remove, spec_kv_set, table_of, KvError,
};

verus! {

use vstd::utf8::{valid_utf8, decode_utf8, encode_utf8};

/// Name of the admin table.
pub const ADMIN_TABLE: &'static str = "@admin";

/// Key for the `device_id` value in the admin table.
pub const DEVICE_ID_ENTRY: &'static str = "device_id";

/// Key for the `version` value in the admin table.
pub const VERSION_ENTRY: &'static str = "version";

/// The value stored in the admin table under a string key, if any.
pub open spec fn admin_lookup(
    tables: Map<Seq<char>, Map<Seq<u8>, Seq<u8>>>,
    key: Seq<char>,
) -> Option<Seq<u8>> {
    let t = table_of(tables, "@admin"@);
    if t.contains_key(encode_utf8(key)) {
        Some(t[encode_utf8(key)])
    } else {
        None
    }
}

/// The tables after writing `value` under the string key `key` in the
/// admin table.
pub open spec fn spec_admin_write(
    tables: Map<Seq<char>, Map<Seq<u8>, Seq<u8>>>,
    key: Seq<char>,
    value: Seq<u8>,
) -> Map<Seq<char>, Map<Seq<u8>, Seq<u8>>> {
    spec_kv_set(tables, "@admin"@, encode_utf8(key), value)
}

/// The tables after removing the string key `key` from the admin table.
pub open spec fn spec_admin_remove(
    tables: Map<Seq<char>, Map<Seq<u8>, Seq<u8>>>,
    key: Seq<char>,
) -> Map<Seq<char>, Map<Seq<u8>, Seq<u8>>> {
    spec_kv_remove(tables, "@admin"@, encode_utf8(key))
}

/// A `u64` laid out as eight little-endian bytes.
pub open spec fn spec_u64_le(x: u64) -> Seq<u8> {
    seq![
        (x & 0xff) as u8,
        ((x >> 8) & 0xff) as u8,
        ((x >> 16) & 0xff) as u8,
        ((x >> 24) & 0xff) as u8,
        ((x >> 32) & 0xff) as u8,
        ((x >> 40) & 0xff) as u8,
        ((x >> 48) & 0xff) as u8,
        ((x >> 56) & 0xff) as u8,
    ]
}

/// The `u64` read from eight little-endian bytes.
pub open spec fn spec_u64_from_le(s: Seq<u8>) -> u64
    recommends
        s.len() == 8,
{
    (s[0] as u64) | (s[1] as u64) << 8 | (s[2] as u64) << 16 | (s[3] as u64) << 24 | (
    s[4] as u64) << 32 | (s[5] as u64) << 40 | (s[6] as u64) << 48 | (s[7] as u64) << 56
}

/// Law: the little-endian layout is lossless. Reading back the eight
/// bytes of a `u64` yields the original value.
pub proof fn lemma_u64_le_roundtrip(x: u64)
    ensures
        spec_u64_le(x).len() == 8,
        spec_u64_from_le(spec_u64_le(x)) == x,
{
    assert(((x & 0xff) as u8) as u64 | ((((x >> 8) & 0xff) as u8) as u64) << 8 | ((((x >> 16)
        & 0xff) as u8) as u64) << 16 | ((((x >> 24) & 0xff) as u8) as u64) << 24 | ((((x >> 32)
        & 0xff) as u8) as u64) << 32 | ((((x >> 40) & 0xff) as u8) as u64) << 40 | ((((x >> 48)
        & 0xff) as u8) as u64) << 48 | ((((x >> 56) & 0xff) as u8) as u64) << 56 == x)
        by (bit_vector);
}

/// The eight little-endian bytes of a `u64`.
pub fn u64_to_le(x: u64) -> (r: Vec<u8>)
    ensures
        r@ == spec_u64_le(x),
{
    assert(x & 0xff < 256 && (x >> 8) & 0xff < 256 && (x >> 16) & 0xff < 256 && (x >> 24) & 0xff
        < 256 && (x >> 32) & 0xff < 256 && (x >> 40) & 0xff < 256 && (x >> 48) & 0xff < 256 && (x
        >> 56) & 0xff < 256) by (bit_vector);
    let mut v: Vec<u8> = Vec::new();
    v.push((x & 0xff) as u8);
    v.push(((x >> 8) & 0xff) as u8);
    v.push(((x >> 16) & 0xff) as u8);
    v.push(((x >> 24) & 0xff) as u8);
    v.push(((x >> 32) & 0xff) as u8);
    v.push(((x >> 40) & 0xff) as u8);
    v.push(((x >> 48) & 0xff) as u8);
    v.push(((x >> 56) & 0xff) as u8);
    proof {
        assert(v@ =~= spec_u64_le(x));
    }
    v
}

/// The `u64` read from eight little-endian bytes.
pub fn u64_from_le(b: &[u8]) -> (r: u64)
    requires
        b@.len() == 8,
    ensures
        r == spec_u64_from_le(b@),
{
    (b[0] as u64) | (b[1] as u64) << 8 | (b[2] as u64) << 16 | (b[3] as u64) << 24 | (
    b[4] as u64) << 32 | (b[5] as u64) << 40 | (b[6] as u64) << 48 | (b[7] as u64) << 56
}

/// Relies on `String::from_utf8`: succeeds exactly on valid UTF-8 input
/// and decodes it to the characters the bytes encode.
#[verifier::external_body]
fn string_from_utf8(v: Vec<u8>) -> (r: Option<String>)
    ensures
        r is Some <==> valid_utf8(v@),
        r is Some ==> r->0@ == decode_utf8(v@),
{
    String::from_utf8(v).ok()
}

/// Reads a given key in the admin table from the database.
///
/// Returns `Ok(None)` if the value wasn't present, `Ok(Some)` if it did
/// exist; storage faults surface as errors.
pub fn read(db: &redb::Database, key: &str) -> (r: Result<Option<Vec<u8>>, KvError>)
    ensures
        match r {
            Ok(v) => {
                &&& v is Some <==> admin_lookup(kv_tables(*db), key@) is Some
                &&& v is Some ==> Some(v->0@) == admin_lookup(kv_tables(*db), key@)
            },
            Err(_) => true,
        },
{
    proof {
        reveal_strlit("@admin");
        assert(ADMIN_TABLE@.len() == 6);
    }
    raw_get(db, ADMIN_TABLE, key.as_bytes())
}

/// Same as [`read`], but for a string value; a stored value that is not
/// valid UTF-8 is an error, as any storage fault is.
pub fn read_str(db: &redb::Database, key: &str) -> (r: Result<Option<String>, KvError>)
    ensures
        match r {
            Ok(v) => {
                &&& v is Some ==> admin_lookup(kv_tables(*db), key@) is Some && valid_utf8(
                    admin_lookup(kv_tables(*db), key@)->0,
                ) && v->0@ == decode_utf8(admin_lookup(kv_tables(*db), key@)->0)
                &&& v is None ==> admin_lookup(kv_tables(*db), key@) is None
            },
            Err(_) => true,
        },
{
    match read(db, key)? {
        Some(bytes) => match string_from_utf8(bytes) {
            Some(s) => Ok(Some(s)),
            None => Err(KvError::Internal("value is not valid UTF-8".to_owned())),
        },
        None => Ok(None),
    }
}

/// Same as [`read`], but for a `u64` value stored as eight little-endian
/// bytes; a stored value of any other length is an error.
pub fn read_u64(db: &redb::Database, key: &str) -> (r: Result<Option<u64>, KvError>)
    ensures
        match r {
            Ok(v) => {
                &&& v is Some ==> admin_lookup(kv_tables(*db), key@) is Some && admin_lookup(
                    kv_tables(*db),
                    key@,
                )->0.len() == 8 && v->0 == spec_u64_from_le(admin_lookup(kv_tables(*db), key@)->0)
                &&& v is None ==> admin_lookup(kv_tables(*db), key@) is None
            },
            Err(_) => true,
        },
{
    match read(db, key)? {
        Some(bytes) => {
            if bytes.len() == 8 {
                Ok(Some(u64_from_le(bytes.as_slice())))
            } else {
                Err(KvError::Internal("value is not a valid u64".to_owned()))
            }
        },
        None => Ok(None),
    }
}

/// Writes a given key in the admin table of the database; on error the
/// prior contents are preserved.
pub fn write(db: &mut redb::Database, key: &str, value: &[u8]) -> (r: Result<(), KvError>)
    ensures
        r is Ok ==> kv_tables(*final(db)) == spec_admin_write(kv_tables(*old(db)), key@, value@),
        r is Err ==> kv_tables(*final(db)) == kv_tables(*old(db)),
{
    proof {
        reveal_strlit("@admin");
        assert(ADMIN_TABLE@.len() == 6);
    }
    raw_set(db, ADMIN_TABLE, key.as_bytes(), value)
}

/// Same as [`write`], but for a string ref.
pub fn write_str(db: &mut redb::Database, key: &str, value: &str) -> (r: Result<(), KvError>)
    ensures
        r is Ok ==> kv_tables(*final(db)) == spec_admin_write(
            kv_tables(*old(db)),
            key@,
            encode_utf8(value@),
        ),
        r is Err ==> kv_tables(*final(db)) == kv_tables(*old(db)),
{
    write(db, key, value.as_bytes())
}

/// Same as [`write`], but for a `u64`, stored as eight little-endian bytes.
pub fn write_u64(db: &mut redb::Database, key: &str, value: u64) -> (r: Result<(), KvError>)
    ensures
        r is Ok ==> kv_tables(*final(db)) == spec_admin_write(
            kv_tables(*old(db)),
            key@,
            spec_u64_le(value),
        ),
        r is Err ==> kv_tables(*final(db)) == kv_tables(*old(db)),
{
    let bytes = u64_to_le(value);
    write(db, key, bytes.as_slice())
}

/// Removes a given key from the admin table; on error the prior contents
/// are preserved.
pub fn remove(db: &mut redb::Database, key: &str) -> (r: Result<(), KvError>)
    ensures
        r is Ok ==> kv_tables(*final(db)) == spec_admin_remove(kv_tables(*old(db)), key@),
        r is Err ==> kv_tables(*final(db)) == kv_tables(*old(db)),
{
    proof {
        reveal_strlit("@admin");
        assert(ADMIN_TABLE@.len() == 6);
    }
    raw_remove(db, ADMIN_TABLE, key.as_bytes())
}

/// True when the stored schema version asks for the first migration:
/// the version entry is absent (treated as 0) or below 1.
pub open spec fn spec_needs_migration(tables: Map<Seq<char>, Map<Seq<u8>, Seq<u8>>>) -> bool {
    match admin_lookup(tables, "version"@) {
        Some(v) => v.len() == 8 && spec_u64_from_le(v) < 1,
        None => true,
    }
}

/// The tables after the first migration: the device id entry is dropped
/// and the schema version is set to 1.
pub open spec fn spec_migrated(
    tables: Map<Seq<char>, Map<Seq<u8>, Seq<u8>>>,
) -> Map<Seq<char>, Map<Seq<u8>, Seq<u8>>> {
    spec_admin_write(spec_admin_remove(tables, "device_id"@), "version"@, spec_u64_le(1))
}

/// Decides whether the startup migration must run, from the stored
/// schema version. A version entry that is not eight bytes long is a
/// storage error, which is fatal at startup.
pub fn needs_migration(db: &redb::Database) -> (r: Result<bool, KvError>)
    ensures
        match r {
            Ok(b) => b == spec_needs_migration(kv_tables(*db)),
            Err(_) => true,
        },
{
    proof {
        assert(VERSION_ENTRY@ == "version"@);
    }
    let version = match read_u64(db, VERSION_ENTRY)? {
        Some(v) => v,
        None => 0,
    };
    Ok(version < 1)
}

/// Applies the first migration to the database: drops the device id and
/// bumps the schema version to 1. The caller removes the transport store
/// directory alongside. On error, either nothing changed or only the
/// device id was dropped.
pub fn apply_migration(db: &mut redb::Database) -> (r: Result<(), KvError>)
    ensures
        r is Ok ==> kv_tables(*final(db)) == spec_migrated(kv_tables(*old(db))),
        r is Err ==> kv_tables(*final(db)) == kv_tables(*old(db)) || kv_tables(*final(db))
            == spec_admin_remove(kv_tables(*old(db)), "device_id"@),
{
    remove(db, DEVICE_ID_ENTRY)?;
    write_u64(db, VERSION_ENTRY, 1)
}

/// Law: the migration is idempotent. Migrating already-migrated tables
/// changes nothing, and migrated tables no longer ask for migration.
pub proof fn lemma_migration_idempotent(tables: Map<Seq<char>, Map<Seq<u8>, Seq<u8>>>)
    ensures
        spec_migrated(spec_migrated(tables)) == spec_migrated(tables),
        !spec_needs_migration(spec_migrated(tables)),
{
    lemma_u64_le_roundtrip(1);
    reveal_strlit("device_id");
    reveal_strlit("version");
    assert("device_id"@.len() == 9);
    assert("version"@.len() == 7);
    if encode_utf8("device_id"@) == encode_utf8("version"@) {
        vstd::utf8::encode_utf8_decode_utf8("device_id"@);
        vstd::utf8::encode_utf8_decode_utf8("version"@);
        assert(false);
    }
    let once = spec_migrated(tables);
    let twice = spec_migrated(once);
    assert(table_of(twice, "@admin"@) =~= table_of(once, "@admin"@));
    assert(twice =~= once);
}

/// True when the device id fresh from the transport must be written back:
/// exactly when it differs from the stored one, or none was stored.
pub fn should_store_device_id(stored: &Option<String>, fresh: &str) -> (r: bool)
    ensures
        r <==> match stored {
            Some(s) => s@ != fresh@,
            None => true,
        },
{
    match stored {
        Some(s) => !s.eq(&fresh.to_owned()),
        None => true,
    }
}

} // verus!
