use okv::backend::any::{AnyDatabase, AnyDatabaseBackend, AnyDatabaseBackendColumn};
use okv::backend::families::{created_column, listed_databases};
use okv::backend::mem::MemDB;
use okv::backend::prefix::{retain_prefix, starts_with};
use okv::backend::text::{str_key, text_key};
use okv::backend::{DBColumn, DBColumnClear, DBColumnIterator, DBColumnIteratorPrefix, DatabaseBackend};
use okv::env::Env;
use okv::error::Error;
use okv::traits::{DBCommon, DBCommonClear, DBCommonDelete, Innerable};

#[test]
fn a_column_handle_works_on_its_engine() {
    let mut db = MemDB::new();
    let mut col = db.create_or_open("c").unwrap();
    col.set(&mut db, b"k", b"v").unwrap();
    assert_eq!(col.get(&db, b"k").unwrap(), Some(b"v".to_vec()));
    assert!(col.contains(&db, b"k").unwrap());
    assert!(!col.set_nx(&mut db, b"k", b"w").unwrap());
    assert!(col.set_nx(&mut db, b"j", b"w").unwrap());
    let keys = vec![b"j".to_vec(), b"none".to_vec(), b"k".to_vec()];
    assert_eq!(col.get_multi(&db, &keys).unwrap(), vec![Some(b"w".to_vec()), None, Some(b"v".to_vec())]);
    col.delete(&mut db, b"k").unwrap();
    assert_eq!(col.get(&db, b"k").unwrap(), None);
    let mut again = db.create_or_open("c").unwrap();
    assert_eq!(again.get(&db, b"j").unwrap(), Some(b"w".to_vec()));
    again.clear(&mut db).unwrap();
    assert_eq!(col.get(&db, b"j").unwrap(), None);
    assert!(col.iter(&db).unwrap().is_empty());
}

#[test]
fn a_column_walks_its_entries() {
    let mut db = MemDB::new();
    let mut col = db.create_or_open("c").unwrap();
    let _other = db.create_or_open("d").unwrap();
    col.set(&mut db, b"ab1", b"1").unwrap();
    col.set(&mut db, b"ab2", b"2").unwrap();
    col.set(&mut db, b"cd1", b"3").unwrap();
    let mut all = col.iter(&db).unwrap();
    all.sort();
    assert_eq!(
        all,
        vec![(b"ab1".to_vec(), b"1".to_vec()), (b"ab2".to_vec(), b"2".to_vec()), (b"cd1".to_vec(), b"3".to_vec())]
    );
    let mut some = col.iter_prefix(&db, b"ab").unwrap();
    some.sort();
    assert_eq!(some, vec![(b"ab1".to_vec(), b"1".to_vec()), (b"ab2".to_vec(), b"2".to_vec())]);
}

#[test]
fn starts_with_compares_byte_for_byte() {
    assert!(starts_with(b"abc", b"ab"));
    assert!(starts_with(b"abc", b"abc"));
    assert!(starts_with(b"abc", b""));
    assert!(starts_with(b"", b""));
    assert!(!starts_with(b"abc", b"abcd"));
    assert!(!starts_with(b"abc", b"b"));
    assert!(!starts_with(b"", b"a"));
}

#[test]
fn retain_prefix_keeps_what_starts_with_the_prefix() {
    let pairs = vec![
        (b"ab1".to_vec(), b"1".to_vec()),
        (b"cd1".to_vec(), b"2".to_vec()),
        (b"ab2".to_vec(), b"3".to_vec()),
        (b"a".to_vec(), b"4".to_vec()),
    ];
    let mut kept = retain_prefix(pairs.clone(), b"ab");
    kept.sort();
    assert_eq!(kept, vec![(b"ab1".to_vec(), b"1".to_vec()), (b"ab2".to_vec(), b"3".to_vec())]);
    assert_eq!(retain_prefix(pairs.clone(), b"").len(), 4);
    assert!(retain_prefix(pairs, b"x").is_empty());
}

#[test]
fn any_database_hands_on_to_its_engine() {
    let mut env = Env::new(AnyDatabase::new(AnyDatabaseBackend::MemDB(MemDB::new())));
    let mut db = env.open::<&str, &str>("test").unwrap();
    assert!(db.set_nx(&mut env, "hello", "world").unwrap());
    assert!(!db.set_nx(&mut env, "hello", "planet").unwrap());
    assert_eq!(db.get(&env, "hello").unwrap(), Some("world".to_string()));
    db.set(&mut env, "a", "1").unwrap();
    assert!(db.contains(&env, "a").unwrap());
    assert_eq!(db.get_multi(&env, &["a", "z", "hello"]).unwrap(), vec![Some("1".to_string()), None, Some("world".to_string())]);
    db.delete(&mut env, "a").unwrap();
    assert_eq!(db.get(&env, "a").unwrap(), None);
    db.clear(&mut env).unwrap();
    assert_eq!(db.get(&env, "hello").unwrap(), None);
    assert!(matches!(db.inner().inner(), AnyDatabaseBackendColumn::MemDB(_)));
    let mut twin = db.clone();
    twin.set(&mut env, "t", "1").unwrap();
    assert_eq!(db.get(&env, "t").unwrap(), Some("1".to_string()));
    match env.inner() {
        AnyDatabaseBackend::MemDB(mem) => assert_eq!(mem.inner().len(), 1),
    }
}

#[test]
fn text_keys_are_the_column_a_hyphen_and_the_key() {
    assert_eq!(str_key("users", b"alice").unwrap(), "users-alice".to_string());
    assert_eq!(str_key("", "é".as_bytes()).unwrap(), "-é".to_string());
    assert_eq!(str_key("users", b"").unwrap(), "users-".to_string());
    match str_key("users", &[0xff]) {
        Err(Error::Unknown(message)) => assert_eq!(message, "key is not valid utf8"),
        other => panic!("{other:?}"),
    }
}

#[test]
fn a_key_as_text_is_the_key_read_as_utf8() {
    assert_eq!(text_key(b"alice").unwrap(), "alice".to_string());
    assert_eq!(text_key(b"").unwrap(), String::new());
    assert!(matches!(text_key(&[0xc3, 0x28]), Err(Error::Unknown(_))));
}

#[test]
fn listed_families_are_what_the_store_is_opened_with() {
    let names = vec!["a".to_string(), "b".to_string()];
    assert_eq!(listed_databases(Ok(names.clone())), Some(names));
    assert_eq!(listed_databases(Ok(Vec::new())), Some(Vec::new()));
    assert_eq!(listed_databases(Err(true)), Some(Vec::new()));
    assert_eq!(listed_databases(Err(false)), None);
}

#[test]
fn a_family_that_is_missing_after_it_was_created_is_not_found() {
    assert!(created_column(true, "cf").is_ok());
    match created_column(false, "cf") {
        Err(Error::DatabaseNotFound { db }) => assert_eq!(db, "cf"),
        other => panic!("{other:?}"),
    }
}

#[test]
fn any_database_can_destroy_a_column() {
    let mut env = Env::new(AnyDatabase::new(AnyDatabaseBackend::MemDB(MemDB::new())));
    let mut db = env.open::<&str, &str>("test").unwrap();
    db.set(&mut env, "k", "v").unwrap();
    db.delete_db(&mut env).unwrap();
    let again = env.open::<&str, &str>("test").unwrap();
    assert_eq!(again.get(&env, "k").unwrap(), None);
}
