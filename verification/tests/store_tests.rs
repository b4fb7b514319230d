use trinity::admin_table;
use trinity::store::{open_database, KeyValueStoreApi};

fn temp_db() -> (tempfile::TempDir, redb::Database) {
    let dir = tempfile::tempdir().unwrap();
    let path = dir.path().join("kv.redb");
    let db = open_database(path.to_str().unwrap()).unwrap();
    (dir, db)
}

#[test]
fn kv_set_then_get_returns_value() {
    let (_dir, mut db) = temp_db();
    let kv = KeyValueStoreApi::new("modA");
    kv.set(&mut db, b"key", b"value").unwrap();
    assert_eq!(kv.get(&db, b"key").unwrap(), Some(b"value".to_vec()));
}

#[test]
fn kv_remove_then_get_returns_none() {
    let (_dir, mut db) = temp_db();
    let kv = KeyValueStoreApi::new("modA");
    kv.set(&mut db, b"key", b"value").unwrap();
    kv.remove(&mut db, b"key").unwrap();
    assert_eq!(kv.get(&db, b"key").unwrap(), None);
}

#[test]
fn kv_get_missing_table_is_none() {
    let (_dir, mut db) = temp_db();
    let kv = KeyValueStoreApi::new("never-written");
    assert_eq!(kv.get(&mut db, b"key").unwrap(), None);
}

#[test]
fn kv_remove_absent_key_is_ok() {
    let (_dir, mut db) = temp_db();
    let kv = KeyValueStoreApi::new("modA");
    kv.remove(&mut db, b"missing").unwrap();
    assert_eq!(kv.get(&db, b"missing").unwrap(), None);
}

#[test]
fn kv_set_is_upsert() {
    let (_dir, mut db) = temp_db();
    let kv = KeyValueStoreApi::new("modA");
    kv.set(&mut db, b"key", b"one").unwrap();
    kv.set(&mut db, b"key", b"two").unwrap();
    assert_eq!(kv.get(&db, b"key").unwrap(), Some(b"two".to_vec()));
}

#[test]
fn kv_namespaces_are_disjoint() {
    let (_dir, mut db) = temp_db();
    let kv_a = KeyValueStoreApi::new("mastodon");
    let kv_b = KeyValueStoreApi::new("openai");
    kv_a.set(&mut db, b"R", b"{admins:[U]}").unwrap();
    assert_eq!(kv_b.get(&db, b"R").unwrap(), None);
    assert_eq!(kv_a.get(&db, b"R").unwrap(), Some(b"{admins:[U]}".to_vec()));
}

#[test]
fn admin_table_str_round_trip() {
    let (_dir, mut db) = temp_db();
    admin_table::write_str(&mut db, admin_table::DEVICE_ID_ENTRY, "DEVICE").unwrap();
    assert_eq!(
        admin_table::read_str(&db, admin_table::DEVICE_ID_ENTRY).unwrap(),
        Some("DEVICE".to_owned())
    );
}

#[test]
fn admin_table_u64_round_trip() {
    let (_dir, mut db) = temp_db();
    admin_table::write_u64(&mut db, admin_table::VERSION_ENTRY, 7).unwrap();
    assert_eq!(admin_table::read_u64(&db, admin_table::VERSION_ENTRY).unwrap(), Some(7));
}

#[test]
fn admin_table_u64_little_endian_layout() {
    let (_dir, mut db) = temp_db();
    admin_table::write_u64(&mut db, "n", 0x0102030405060708).unwrap();
    let raw = admin_table::read(&db, "n").unwrap().unwrap();
    assert_eq!(raw, vec![8, 7, 6, 5, 4, 3, 2, 1]);
}

#[test]
fn admin_table_short_value_is_not_a_u64() {
    let (_dir, mut db) = temp_db();
    admin_table::write(&mut db, "v", b"abc").unwrap();
    assert!(admin_table::read_u64(&db, "v").is_err());
}

#[test]
fn admin_table_invalid_utf8_is_an_error() {
    let (_dir, mut db) = temp_db();
    admin_table::write(&mut db, "v", &[0xff, 0xfe]).unwrap();
    assert!(admin_table::read_str(&db, "v").is_err());
}

#[test]
fn admin_table_missing_key_reads_none() {
    let (_dir, db) = temp_db();
    assert_eq!(admin_table::read(&db, "absent").unwrap(), None);
}

#[test]
fn migration_runs_once_and_is_idempotent() {
    let (_dir, mut db) = temp_db();
    admin_table::write_str(&mut db, admin_table::DEVICE_ID_ENTRY, "OLD").unwrap();
    assert!(admin_table::needs_migration(&db).unwrap());
    admin_table::apply_migration(&mut db).unwrap();
    assert!(!admin_table::needs_migration(&db).unwrap());
    assert_eq!(admin_table::read(&db, admin_table::DEVICE_ID_ENTRY).unwrap(), None);
    assert_eq!(admin_table::read_u64(&db, admin_table::VERSION_ENTRY).unwrap(), Some(1));
    // Running it again changes nothing.
    admin_table::apply_migration(&mut db).unwrap();
    assert!(!admin_table::needs_migration(&db).unwrap());
    assert_eq!(admin_table::read_u64(&db, admin_table::VERSION_ENTRY).unwrap(), Some(1));
}

#[test]
fn should_store_device_id_only_when_changed() {
    assert!(admin_table::should_store_device_id(&None, "NEW"));
    assert!(admin_table::should_store_device_id(&Some("OLD".to_owned()), "NEW"));
    assert!(!admin_table::should_store_device_id(&Some("SAME".to_owned()), "SAME"));
}
