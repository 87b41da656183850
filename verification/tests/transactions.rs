use okv::backend::mem::MemDB;
use okv::env::Env;
use okv::traits::{DBCommon, DBCommonIter, DBCommonIterPrefix};

#[test]
fn a_rollback_leaves_the_value_as_it_was() {
    let mut env = Env::new(MemDB::new());
    let mut db = env.open::<&str, &str>("test").unwrap();
    db.set(&mut env, "k", "before").unwrap();
    let mut tx = db.transaction(&env).unwrap();
    tx.set(&mut env, "k", "x").unwrap();
    tx.set(&mut env, "new", "x").unwrap();
    assert_eq!(tx.get(&env, "k").unwrap(), Some("x".to_string()));
    assert_eq!(db.get(&env, "k").unwrap(), Some("before".to_string()));
    tx.rollback(&mut env).unwrap();
    assert_eq!(db.get(&env, "k").unwrap(), Some("before".to_string()));
    assert_eq!(db.get(&env, "new").unwrap(), None);
}

#[test]
fn a_commit_shows_the_value_outside() {
    let mut env = Env::new(MemDB::new());
    let db = env.open::<&str, &str>("test").unwrap();
    let mut tx = db.transaction(&env).unwrap();
    tx.set(&mut env, "k", "y").unwrap();
    assert_eq!(db.get(&env, "k").unwrap(), None);
    tx.commit(&mut env).unwrap();
    assert_eq!(db.get(&env, "k").unwrap(), Some("y".to_string()));
}

#[test]
fn a_session_reads_its_own_writes() {
    let mut env = Env::new(MemDB::new());
    let mut db = env.open::<&str, u8>("test").unwrap();
    db.set(&mut env, "a", &1).unwrap();
    db.set(&mut env, "b", &2).unwrap();
    let mut tx = db.transaction(&env).unwrap();
    assert_eq!(tx.get(&env, "a").unwrap(), Some(1));
    tx.delete(&mut env, "a").unwrap();
    assert_eq!(tx.get(&env, "a").unwrap(), None);
    assert!(!tx.contains(&env, "a").unwrap());
    assert!(tx.contains(&env, "b").unwrap());
    assert!(tx.set_nx(&mut env, "a", &5).unwrap());
    assert!(!tx.set_nx(&mut env, "b", &6).unwrap());
    tx.set(&mut env, "c", &3).unwrap();
    tx.set(&mut env, "c", &4).unwrap();
    assert_eq!(tx.get_multi(&env, &["a", "b", "c", "d"]).unwrap(), vec![Some(5), Some(2), Some(4), None]);
    assert_eq!(tx.get_raw(&env, b"c").unwrap(), Some(vec![4]));
    assert_eq!(db.get_multi(&env, &["a", "b", "c", "d"]).unwrap(), vec![Some(1), Some(2), None, None]);
    tx.commit(&mut env).unwrap();
    assert_eq!(db.get_multi(&env, &["a", "b", "c", "d"]).unwrap(), vec![Some(5), Some(2), Some(4), None]);
}

#[test]
fn a_committed_delete_removes_the_key() {
    let mut env = Env::new(MemDB::new());
    let mut db = env.open::<&str, u8>("test").unwrap();
    db.set(&mut env, "a", &1).unwrap();
    let mut tx = db.transaction(&env).unwrap();
    tx.set(&mut env, "a", &2).unwrap();
    tx.delete(&mut env, "a").unwrap();
    tx.commit(&mut env).unwrap();
    assert_eq!(db.get(&env, "a").unwrap(), None);
}

#[test]
fn a_commit_touches_its_own_column_only() {
    let mut env = Env::new(MemDB::new());
    let db = env.open::<&str, u8>("mine").unwrap();
    let mut other = env.open::<&str, u8>("other").unwrap();
    other.set(&mut env, "k", &1).unwrap();
    let mut tx = db.transaction(&env).unwrap();
    tx.set(&mut env, "k", &2).unwrap();
    tx.commit(&mut env).unwrap();
    assert_eq!(other.get(&env, "k").unwrap(), Some(1));
    assert_eq!(db.get(&env, "k").unwrap(), Some(2));
}

#[test]
fn a_session_sees_what_is_written_beside_it() {
    let mut env = Env::new(MemDB::new());
    let mut db = env.open::<&str, u8>("test").unwrap();
    let mut tx = db.transaction(&env).unwrap();
    tx.set(&mut env, "mine", &1).unwrap();
    db.set(&mut env, "beside", &2).unwrap();
    assert_eq!(tx.get(&env, "beside").unwrap(), Some(2));
    tx.commit(&mut env).unwrap();
    assert_eq!(db.get_multi(&env, &["mine", "beside"]).unwrap(), vec![Some(1), Some(2)]);
}

#[test]
fn a_session_can_change_its_codecs() {
    let mut env = Env::new(MemDB::new());
    let db = env.open::<&str, u16>("test").unwrap();
    let mut tx = db.transaction(&env).unwrap();
    tx.set(&mut env, "k", &0x0102).unwrap();
    let raw = tx.as_type::<&[u8], &[u8]>();
    assert_eq!(raw.get(&env, b"k").unwrap(), Some(vec![2, 1]));
    raw.commit(&mut env).unwrap();
    assert_eq!(db.get(&env, "k").unwrap(), Some(0x0102));
}

#[test]
fn a_session_walks_the_column_with_its_own_writes_made() {
    let mut env = Env::new(MemDB::new());
    let mut db = env.open::<&str, u8>("test").unwrap();
    db.set(&mut env, "ab1", &1).unwrap();
    db.set(&mut env, "ab2", &2).unwrap();
    db.set(&mut env, "cd1", &3).unwrap();
    let mut tx = db.transaction(&env).unwrap();
    assert_eq!(tx.iter_raw(&env).unwrap().len(), 3);
    tx.set(&mut env, "ab2", &20).unwrap();
    tx.set(&mut env, "ab3", &30).unwrap();
    tx.set(&mut env, "ab3", &31).unwrap();
    tx.delete(&mut env, "cd1").unwrap();
    tx.set(&mut env, "gone", &9).unwrap();
    tx.delete(&mut env, "gone").unwrap();
    let mut seen: Vec<(String, u8)> = tx.iter(&env).unwrap().into_iter().map(|item| item.unwrap()).collect();
    seen.sort();
    assert_eq!(seen, vec![("ab1".to_string(), 1), ("ab2".to_string(), 20), ("ab3".to_string(), 31)]);
    let mut under: Vec<(Vec<u8>, Vec<u8>)> = tx.iter_prefix_raw(&env, b"ab2").unwrap();
    under.sort();
    assert_eq!(under, vec![(b"ab2".to_vec(), vec![20])]);
    assert!(tx.iter_prefix::<&str>(&env, "cd").unwrap().is_empty());
    let mut outside = db.iter_raw(&env).unwrap();
    outside.sort();
    assert_eq!(outside, vec![(b"ab1".to_vec(), vec![1]), (b"ab2".to_vec(), vec![2]), (b"cd1".to_vec(), vec![3])]);
    tx.commit(&mut env).unwrap();
    let mut after: Vec<(String, u8)> = db.iter(&env).unwrap().into_iter().map(|item| item.unwrap()).collect();
    after.sort();
    assert_eq!(after, vec![("ab1".to_string(), 1), ("ab2".to_string(), 20), ("ab3".to_string(), 31)]);
}
