//! Persistent key/value storage.
//!
//! One database file holds every table: the host's own `@admin` table and
//! one table per guest module, named after the module. The model of the
//! database is a map from table name to a map from byte key to byte value;
//! a table that was never written is absent from the model and reads as
//! empty.

use redb::ReadableDatabase;
use vstd::prelude::*;

verus! {

#[verifier::external_type_specification]
#[verifier::external_body]
pub struct ExDatabase(redb::Database);

/// Everything the database holds: table name to (key to value).
pub uninterp spec fn kv_tables(db: redb::Database) -> Map<Seq<char>, Map<Seq<u8>, Seq<u8>>>;

/// The contents of one table; a table that is absent reads as empty.
pub open spec fn table_of(
    tables: Map<Seq<char>, Map<Seq<u8>, Seq<u8>>>,
    name: Seq<char>,
) -> Map<Seq<u8>, Seq<u8>> {
    if tables.contains_key(name) {
        tables[name]
    } else {
        Map::empty()
    }
}

/// The database after an upsert of `key -> value` in table `name`.
pub open spec fn spec_kv_set(
    tables: Map<Seq<char>, Map<Seq<u8>, Seq<u8>>>,
    name: Seq<char>,
    key: Seq<u8>,
    value: Seq<u8>,
) -> Map<Seq<char>, Map<Seq<u8>, Seq<u8>>> {
    tables.insert(name, table_of(tables, name).insert(key, value))
}

/// The database after removing `key` from table `name` (a no-op when the
/// key is absent, except that the table itself now exists).
pub open spec fn spec_kv_remove(
    tables: Map<Seq<char>, Map<Seq<u8>, Seq<u8>>>,
    name: Seq<char>,
    key: Seq<u8>,
) -> Map<Seq<char>, Map<Seq<u8>, Seq<u8>>> {
    tables.insert(name, table_of(tables, name).remove(key))
}

/// A storage fault, as the guest-visible error variant.
#[derive(Debug)]
pub enum KvError {
    Internal(String),
}

/// Relies on `redb::Database::create`: opens the file as a database, or
/// initializes a fresh one when the file is missing or empty. Nothing is
/// known of the contents of an existing file.
#[verifier::external_body]
pub fn open_database(path: &str) -> (r: Result<redb::Database, KvError>) {
    redb::Database::create(path).map_err(|e| KvError::Internal(e.to_string()))
}

/// Relies on redb's write transaction (`begin_write`, `open_table`,
/// `insert`, `commit`): on success the table holds the upsert; on any
/// error the transaction aborts and the prior contents are preserved.
/// `TableDefinition::new` refuses an empty table name, so one is
/// excluded here.
#[verifier::external_body]
pub(crate) fn raw_set(db: &mut redb::Database, table: &str, key: &[u8], value: &[u8]) -> (r: Result<
    (),
    KvError,
>)
    requires
        table@.len() > 0,
    ensures
        r is Ok ==> kv_tables(*final(db)) == spec_kv_set(kv_tables(*old(db)), table@, key@, value@),
        r is Err ==> kv_tables(*final(db)) == kv_tables(*old(db)),
{
    let def = redb::TableDefinition::<&[u8], &[u8]>::new(table);
    let txn = db.begin_write().map_err(|e| KvError::Internal(e.to_string()))?;
    {
        let mut t = txn.open_table(def).map_err(|e| KvError::Internal(e.to_string()))?;
        let _ = t.insert(key, value).map_err(|e| KvError::Internal(e.to_string()))?;
    }
    txn.commit().map_err(|e| KvError::Internal(e.to_string()))
}

/// Relies on redb's read transaction (`begin_read`, `open_table`, `get`):
/// returns the value stored under the key, `None` when the key or the
/// whole table is missing. `TableDefinition::new` refuses an empty table
/// name, so one is excluded here.
#[verifier::external_body]
pub(crate) fn raw_get(db: &redb::Database, table: &str, key: &[u8]) -> (r: Result<
    Option<Vec<u8>>,
    KvError,
>)
    requires
        table@.len() > 0,
    ensures
        match r {
            Ok(v) => {
                &&& v is Some <==> table_of(kv_tables(*db), table@).contains_key(key@)
                &&& v is Some ==> v->0@ == table_of(kv_tables(*db), table@)[key@]
            },
            Err(_) => true,
        },
{
    let def = redb::TableDefinition::<&[u8], &[u8]>::new(table);
    let txn = db.begin_read().map_err(|e| KvError::Internal(e.to_string()))?;
    let t = match txn.open_table(def) {
        Ok(t) => t,
        Err(redb::TableError::TableDoesNotExist(_)) => return Ok(None),
        Err(e) => return Err(KvError::Internal(e.to_string())),
    };
    let out = t.get(key).map_err(|e| KvError::Internal(e.to_string()))?.map(|g| g.value().to_vec());
    Ok(out)
}

/// Relies on redb's write transaction (`begin_write`, `open_table`,
/// `remove`, `commit`): on success the key is gone from the table; on any
/// error the transaction aborts and the prior contents are preserved.
/// `TableDefinition::new` refuses an empty table name, so one is
/// excluded here.
#[verifier::external_body]
pub(crate) fn raw_remove(db: &mut redb::Database, table: &str, key: &[u8]) -> (r: Result<
    (),
    KvError,
>)
    requires
        table@.len() > 0,
    ensures
        r is Ok ==> kv_tables(*final(db)) == spec_kv_remove(kv_tables(*old(db)), table@, key@),
        r is Err ==> kv_tables(*final(db)) == kv_tables(*old(db)),
{
    let def = redb::TableDefinition::<&[u8], &[u8]>::new(table);
    let txn = db.begin_write().map_err(|e| KvError::Internal(e.to_string()))?;
    {
        let mut t = txn.open_table(def).map_err(|e| KvError::Internal(e.to_string()))?;
        let _ = t.remove(key).map_err(|e| KvError::Internal(e.to_string()))?;
    }
    txn.commit().map_err(|e| KvError::Internal(e.to_string()))
}

/// The key/value capability handed to one guest module. It scopes every
/// call to the table named after the module, so a guest can neither read
/// nor write another module's namespace. A capability is always bound to
/// a non-empty namespace other than the host's own `@admin` table.
pub struct KeyValueStoreApi {
    module_name: String,
}

impl KeyValueStoreApi {
    /// The namespace is non-empty (the storage engine refuses an empty
    /// table name) and never the host's own bookkeeping table.
    #[verifier::type_invariant]
    pub closed spec fn namespace_ok(&self) -> bool {
        self.module_name@.len() > 0 && self.module_name@ != "@admin"@
    }

    /// The namespace (table name) this capability is bound to.
    pub closed spec fn spec_module_name(&self) -> Seq<char> {
        self.module_name@
    }

    pub fn new(module_name: &str) -> (r: KeyValueStoreApi)
        requires
            module_name@.len() > 0,
            module_name@ != "@admin"@,
        ensures
            r.spec_module_name() == module_name@,
    {
        KeyValueStoreApi { module_name: module_name.to_owned() }
    }

    /// Upsert of `key -> value` in this module's table. On success the
    /// module's table holds the pair and every other table is unchanged;
    /// on error nothing changes.
    pub fn set(&self, db: &mut redb::Database, key: &[u8], value: &[u8]) -> (r: Result<(), KvError>)
        ensures
            r is Ok ==> kv_tables(*final(db)) == spec_kv_set(
                kv_tables(*old(db)),
                self.spec_module_name(),
                key@,
                value@,
            ),
            r is Err ==> kv_tables(*final(db)) == kv_tables(*old(db)),
    {
        proof {
            use_type_invariant(&*self);
        }
        raw_set(db, self.module_name.as_str(), key, value)
    }

    /// Read of `key` from this module's table: `Some` exactly when the key
    /// is present, `None` when the key or the whole table is missing.
    pub fn get(&self, db: &redb::Database, key: &[u8]) -> (r: Result<Option<Vec<u8>>, KvError>)
        ensures
            match r {
                Ok(v) => {
                    &&& v is Some <==> table_of(
                        kv_tables(*db),
                        self.spec_module_name(),
                    ).contains_key(key@)
                    &&& v is Some ==> v->0@ == table_of(kv_tables(*db), self.spec_module_name())[key@]
                },
                Err(_) => true,
            },
    {
        proof {
            use_type_invariant(&*self);
        }
        raw_get(db, self.module_name.as_str(), key)
    }

    /// Removal of `key` from this module's table; removing an absent key
    /// succeeds and changes nothing in the table.
    pub fn remove(&self, db: &mut redb::Database, key: &[u8]) -> (r: Result<(), KvError>)
        ensures
            r is Ok ==> kv_tables(*final(db)) == spec_kv_remove(
                kv_tables(*old(db)),
                self.spec_module_name(),
                key@,
            ),
            r is Err ==> kv_tables(*final(db)) == kv_tables(*old(db)),
    {
        proof {
            use_type_invariant(&*self);
        }
        raw_remove(db, self.module_name.as_str(), key)
    }
}

/// Law: a stored pair is read back. After `set(k, v)` the module's table
/// maps `k` to `v`, and after `remove(k)` it no longer contains `k`,
/// whatever it held before.
pub proof fn lemma_kv_set_then_get(
    tables: Map<Seq<char>, Map<Seq<u8>, Seq<u8>>>,
    name: Seq<char>,
    k: Seq<u8>,
    v: Seq<u8>,
)
    ensures
        table_of(spec_kv_set(tables, name, k, v), name).contains_key(k),
        table_of(spec_kv_set(tables, name, k, v), name)[k] == v,
        !table_of(spec_kv_remove(tables, name, k), name).contains_key(k),
{
}

/// Law: namespaces are disjoint. A write or removal through module `a`'s
/// store leaves module `b`'s table untouched whenever `a != b`.
pub proof fn lemma_kv_namespaces_disjoint(
    tables: Map<Seq<char>, Map<Seq<u8>, Seq<u8>>>,
    a: Seq<char>,
    b: Seq<char>,
    k: Seq<u8>,
    v: Seq<u8>,
)
    requires
        a != b,
    ensures
        table_of(spec_kv_set(tables, a, k, v), b) == table_of(tables, b),
        table_of(spec_kv_remove(tables, a, k), b) == table_of(tables, b),
{
}

} // verus!
