use okv::backend::mem::MemDB;
use okv::backend::Flushable;
use okv::db::Database;
use okv::env::Env;
use okv::error::{DecodeError, Error};
use okv::backend::RefBytes;
use okv::traits::{DBCommon, DBCommonClear, DBCommonDelete, DBCommonIter, DBCommonIterPrefix, DBCommonRef};
use okv::traits::{DBCommonRefBatch, Innerable};

fn store() -> Env<MemDB> {
    Env::new(MemDB::new())
}

#[test]
fn set_nx_keeps_the_first_value() {
    let mut env = store();
    let mut db = env.open::<&str, &str>("test").unwrap();
    assert!(db.set_nx(&mut env, "hello", "world").unwrap());
    assert_eq!(db.get(&env, "hello").unwrap(), Some("world".to_string()));
    assert!(!db.set_nx(&mut env, "hello", "planet").unwrap());
    assert_eq!(db.get(&env, "hello").unwrap(), Some("world".to_string()));
}

#[test]
fn get_multi_keeps_the_order_of_the_keys() {
    let mut env = store();
    let mut db = env.open::<&str, u32>("numbers").unwrap();
    db.set(&mut env, "a", &1).unwrap();
    db.set(&mut env, "b", &2).unwrap();
    db.set(&mut env, "c", &3).unwrap();
    let got = db.get_multi(&env, &["a", "z", "c"]).unwrap();
    assert_eq!(got, vec![Some(1), None, Some(3)]);
}

#[test]
fn get_multi_has_one_slot_for_each_key() {
    let mut env = store();
    let mut db = env.open::<&str, &str>("slots").unwrap();
    assert_eq!(db.get_multi(&env, &["k1", "k2", "k3"]).unwrap(), vec![None, None, None]);
    db.set(&mut env, "k2", "two").unwrap();
    assert_eq!(db.get_multi(&env, &["k1", "k2", "k3"]).unwrap(), vec![None, Some("two".to_string()), None]);
    db.set(&mut env, "k1", "one").unwrap();
    db.set(&mut env, "k3", "three").unwrap();
    assert_eq!(
        db.get_multi(&env, &["k3", "k3", "k1"]).unwrap(),
        vec![Some("three".to_string()), Some("three".to_string()), Some("one".to_string())]
    );
    assert_eq!(db.get_multi(&env, &[]).unwrap(), Vec::<Option<String>>::new());
}

#[test]
fn an_absent_key_reads_as_none() {
    let mut env = store();
    let mut db = env.open::<&str, &str>("test").unwrap();
    assert_eq!(db.get(&env, "k").unwrap(), None);
    assert!(!db.contains(&env, "k").unwrap());
    db.set(&mut env, "k", "v").unwrap();
    assert_eq!(db.get(&env, "k").unwrap(), Some("v".to_string()));
    assert!(db.contains(&env, "k").unwrap());
    assert_eq!(db.get(&env, "other").unwrap(), None);
}

#[test]
fn the_last_write_wins() {
    let mut env = store();
    let mut db = env.open::<&str, u64>("test").unwrap();
    db.set(&mut env, "k", &1).unwrap();
    db.set(&mut env, "k", &2).unwrap();
    assert_eq!(db.get(&env, "k").unwrap(), Some(2));
}

#[test]
fn a_deleted_key_is_gone() {
    let mut env = store();
    let mut db = env.open::<&str, &str>("test").unwrap();
    db.set(&mut env, "k", "v").unwrap();
    db.set(&mut env, "j", "w").unwrap();
    db.delete(&mut env, "k").unwrap();
    assert_eq!(db.get(&env, "k").unwrap(), None);
    assert!(!db.contains(&env, "k").unwrap());
    assert_eq!(db.get(&env, "j").unwrap(), Some("w".to_string()));
    db.delete(&mut env, "never").unwrap();
    assert!(db.set_nx(&mut env, "k", "again").unwrap());
}

#[test]
fn raw_operations_take_bytes_as_they_are() {
    let mut env = store();
    let mut db = env.open::<&str, u16>("test").unwrap();
    db.set(&mut env, "k", &0x1234).unwrap();
    assert_eq!(db.get_raw(&env, b"k").unwrap(), Some(vec![0x34, 0x12]));
    db.set_raw(&mut env, b"j", &[0xff, 0x00]).unwrap();
    assert_eq!(db.get(&env, "j").unwrap(), Some(0x00ff));
    assert!(!db.set_nx_raw(&mut env, b"j", &[1, 1]).unwrap());
    assert!(db.set_nx_raw(&mut env, b"i", &[1, 1]).unwrap());
    let keys = vec![b"i".to_vec(), b"x".to_vec(), b"k".to_vec()];
    assert_eq!(db.get_multi_raw(&env, &keys).unwrap(), vec![Some(vec![1, 1]), None, Some(vec![0x34, 0x12])]);
}

#[test]
fn a_value_that_cannot_be_decoded_is_an_error() {
    let mut env = store();
    let mut db = env.open::<&str, u32>("test").unwrap();
    db.set_raw(&mut env, b"k", &[1, 2]).unwrap();
    assert!(matches!(db.get(&env, "k"), Err(Error::Decode(DecodeError::Io(_)))));
    assert!(matches!(db.get_multi(&env, &["a", "k"]), Err(Error::Decode(DecodeError::Io(_)))));
    let text = db.as_type::<&str, &str>();
    assert_eq!(text.get(&env, "k").unwrap(), Some("\u{1}\u{2}".to_string()));
}

#[test]
fn two_databases_do_not_meet() {
    let mut env = store();
    let mut left = env.open::<&str, &str>("left").unwrap();
    let mut right = env.open::<&str, &str>("right").unwrap();
    left.set(&mut env, "k", "l").unwrap();
    assert_eq!(right.get(&env, "k").unwrap(), None);
    right.set(&mut env, "k", "r").unwrap();
    assert_eq!(left.get(&env, "k").unwrap(), Some("l".to_string()));
    right.delete(&mut env, "k").unwrap();
    assert_eq!(left.get(&env, "k").unwrap(), Some("l".to_string()));
}

#[test]
fn opening_a_name_again_gives_the_same_column() {
    let mut env = store();
    let mut first = env.open::<&str, &str>("same").unwrap();
    first.set(&mut env, "k", "v").unwrap();
    let mut second = env.open::<&str, &str>("same").unwrap();
    assert_eq!(second.get(&env, "k").unwrap(), Some("v".to_string()));
    second.set(&mut env, "k", "w").unwrap();
    assert_eq!(first.get(&env, "k").unwrap(), Some("w".to_string()));
    assert_eq!(env.inner().len(), 1);
    assert_eq!(env.db().inner().len(), 1);
    assert_eq!(env.inner()[0].name(), "same");
    assert_eq!(env.inner()[0].map().len(), 1);
}

#[test]
fn a_database_knows_its_name() {
    let mut env = store();
    let db = env.open::<&str, &str>("people").unwrap();
    assert_eq!(db.name(), "people");
    let retyped: Database<u8, u8, MemDB> = db.as_type::<u8, u8>();
    assert_eq!(retyped.name(), "people");
    let _column = retyped.inner();
}

#[test]
fn open_tupel_takes_the_codecs_as_a_pair() {
    let mut env = store();
    let mut db = env.open_tupel::<(&str, u8)>("pair").unwrap();
    db.set(&mut env, "k", &9).unwrap();
    assert_eq!(db.get(&env, "k").unwrap(), Some(9));
}

#[test]
fn a_lazy_database_opens_when_asked() {
    let mut env = store();
    let lazy = env.open_lazy::<&str, u8>("later");
    assert_eq!(env.inner().len(), 0);
    let mut db = lazy.open(&mut env).unwrap();
    assert_eq!(db.name(), "later");
    db.set(&mut env, "k", &1).unwrap();
    let again = lazy.open(&mut env).unwrap();
    assert_eq!(again.get(&env, "k").unwrap(), Some(1));
}

#[test]
fn clear_empties_the_column_and_keeps_it_open() {
    let mut env = store();
    let mut db = env.open::<&str, &str>("test").unwrap();
    let mut other = env.open::<&str, &str>("other").unwrap();
    db.set(&mut env, "a", "1").unwrap();
    db.set(&mut env, "b", "2").unwrap();
    other.set(&mut env, "a", "kept").unwrap();
    db.clear(&mut env).unwrap();
    assert_eq!(db.get(&env, "a").unwrap(), None);
    assert_eq!(db.get(&env, "b").unwrap(), None);
    assert_eq!(other.get(&env, "a").unwrap(), Some("kept".to_string()));
    db.set(&mut env, "a", "3").unwrap();
    assert_eq!(db.get(&env, "a").unwrap(), Some("3".to_string()));
}

#[test]
fn flush_changes_nothing() {
    let mut env = store();
    let mut db = env.open::<&str, &str>("test").unwrap();
    db.set(&mut env, "a", "1").unwrap();
    db.flush(&mut env).unwrap();
    db.inner().flush(&mut MemDB::new()).unwrap();
    assert_eq!(db.get(&env, "a").unwrap(), Some("1".to_string()));
}

#[test]
fn iteration_gives_every_entry_once() {
    let mut env = store();
    let mut db = env.open::<&str, u8>("test").unwrap();
    assert!(db.iter(&env).unwrap().is_empty());
    db.set(&mut env, "a", &1).unwrap();
    db.set(&mut env, "b", &2).unwrap();
    db.set(&mut env, "a", &3).unwrap();
    let mut raw = db.iter_raw(&env).unwrap();
    raw.sort();
    assert_eq!(raw, vec![(b"a".to_vec(), vec![3]), (b"b".to_vec(), vec![2])]);
    let mut items: Vec<(String, u8)> = db.iter(&env).unwrap().into_iter().map(|item| item.unwrap()).collect();
    items.sort();
    assert_eq!(items, vec![("a".to_string(), 3), ("b".to_string(), 2)]);
}

#[test]
fn iteration_reports_what_it_cannot_decode_in_its_place() {
    let mut env = store();
    let mut db = env.open::<&str, u16>("test").unwrap();
    db.set(&mut env, "good", &7).unwrap();
    db.set_raw(&mut env, b"bad", &[1]).unwrap();
    let items = db.iter(&env).unwrap();
    assert_eq!(items.len(), 2);
    let good: Vec<&(String, u16)> = items.iter().filter_map(|item| item.as_ref().ok()).collect();
    assert_eq!(good, vec![&("good".to_string(), 7)]);
    let bad = items.iter().filter(|item| matches!(item, Err(Error::Decode(DecodeError::Io(_))))).count();
    assert_eq!(bad, 1);
}

#[test]
fn prefix_iteration_gives_the_keys_under_the_prefix() {
    let mut env = store();
    let mut db = env.open::<&str, &str>("test").unwrap();
    db.set(&mut env, "ab1", "x").unwrap();
    db.set(&mut env, "ab2", "y").unwrap();
    db.set(&mut env, "cd1", "z").unwrap();
    let mut raw = db.iter_prefix_raw(&env, b"ab").unwrap();
    raw.sort();
    assert_eq!(raw, vec![(b"ab1".to_vec(), b"x".to_vec()), (b"ab2".to_vec(), b"y".to_vec())]);
    let mut keys: Vec<String> =
        db.iter_prefix::<&str>(&env, "ab").unwrap().into_iter().map(|item| item.unwrap().0).collect();
    keys.sort();
    assert_eq!(keys, vec!["ab1".to_string(), "ab2".to_string()]);
    assert_eq!(db.iter_prefix_raw(&env, b"").unwrap().len(), 3);
    assert!(db.iter_prefix_raw(&env, b"ab12").unwrap().is_empty());
    assert!(db.iter_prefix_raw(&env, b"b").unwrap().is_empty());
    assert_eq!(db.iter_prefix_raw(&env, b"cd1").unwrap(), vec![(b"cd1".to_vec(), b"z".to_vec())]);
}

#[test]
fn a_new_engine_has_no_columns() {
    let db = MemDB::default();
    assert!(db.inner().is_empty());
}

#[test]
fn a_cloned_database_is_the_same_column() {
    let mut env = store();
    let mut db = env.open::<&str, &str>("test").unwrap();
    let mut twin = db.clone();
    assert_eq!(twin.name(), "test");
    db.set(&mut env, "k", "v").unwrap();
    assert_eq!(twin.get(&env, "k").unwrap(), Some("v".to_string()));
    twin.delete(&mut env, "k").unwrap();
    assert_eq!(db.get(&env, "k").unwrap(), None);
}

#[test]
fn a_destroyed_database_is_gone_and_can_be_made_again() {
    let mut env = store();
    let mut gone = env.open::<&str, &str>("gone").unwrap();
    let mut kept = env.open::<&str, &str>("kept").unwrap();
    gone.set(&mut env, "k", "v").unwrap();
    kept.set(&mut env, "k", "w").unwrap();
    gone.delete_db(&mut env).unwrap();
    assert_eq!(env.inner().len(), 1);
    assert_eq!(env.inner()[0].name(), "kept");
    assert_eq!(kept.get(&env, "k").unwrap(), Some("w".to_string()));
    let again = env.open::<&str, &str>("gone").unwrap();
    assert_eq!(again.get(&env, "k").unwrap(), None);
    assert_eq!(env.inner().len(), 2);
}

#[test]
fn a_value_is_lent_without_a_copy() {
    let mut env = store();
    let mut db = env.open::<&str, &str>("test").unwrap();
    db.set(&mut env, "k", "value").unwrap();
    db.set_raw(&mut env, b"bad", &[0xff]).unwrap();
    {
        let lent = db.get_ref(&env, "k").unwrap().unwrap();
        assert_eq!(lent.inner().bytes(), b"value");
        assert_eq!(lent.deserialize().unwrap(), "value");
        assert!(db.get_ref(&env, "absent").unwrap().is_none());
        let bad = db.get_ref(&env, "bad").unwrap().unwrap();
        assert!(matches!(bad.deserialize(), Err(Error::Decode(DecodeError::InvalidUtf8))));
    }
    db.set(&mut env, "k", "other").unwrap();
    assert_eq!(db.get_ref(&env, "k").unwrap().unwrap().deserialize().unwrap(), "other");
}

#[test]
fn values_are_lent_in_the_order_of_the_keys() {
    let mut env = store();
    let mut db = env.open::<&str, u16>("test").unwrap();
    db.set(&mut env, "a", &1).unwrap();
    db.set(&mut env, "b", &2).unwrap();
    db.set(&mut env, "c", &3).unwrap();
    let lent = db.get_multi_ref(&env, &["c", "z", "a", "a"]).unwrap();
    let got: Vec<Option<u16>> = lent.iter().map(|val| val.as_ref().map(|val| val.deserialize().unwrap())).collect();
    assert_eq!(got, vec![Some(3), None, Some(1), Some(1)]);
}
