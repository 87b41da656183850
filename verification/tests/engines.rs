use okv::backend::{ColumnHandle, ColumnStore, DBColumn, DatabaseBackend};
use okv::env::Env;
use okv::error::Error;
use okv::traits::{DBCommon, DBCommonDelete, DBCommonRef, DBCommonRefBatch, Innerable};

struct Down;

struct DownColumn;

fn down<T>() -> Result<T, Error> {
    Err(Error::DatabaseBackend("down".to_string()))
}

impl ColumnStore for Down {}

impl Innerable for Down {
    type Inner = ();

    fn inner(&self) -> &() {
        &()
    }
}

impl ColumnHandle for DownColumn {}

impl DBColumn<Down> for DownColumn {
    fn set(&mut self, _backend: &mut Down, _key: &[u8], _val: &[u8]) -> Result<(), Error> {
        down()
    }

    fn get(&self, _backend: &Down, _key: &[u8]) -> Result<Option<Vec<u8>>, Error> {
        down()
    }

    fn get_multi(&self, _backend: &Down, _keys: &Vec<Vec<u8>>) -> Result<Vec<Option<Vec<u8>>>, Error> {
        down()
    }

    fn delete(&mut self, _backend: &mut Down, _key: &[u8]) -> Result<(), Error> {
        down()
    }

    fn contains(&self, _backend: &Down, _key: &[u8]) -> Result<bool, Error> {
        down()
    }
}

impl DatabaseBackend for Down {
    type Column = DownColumn;

    fn create_or_open(&mut self, name: &str) -> Result<DownColumn, Error> {
        if name.is_empty() {
            Err(Error::DatabaseNotFound { db: name.to_string() })
        } else {
            Ok(DownColumn)
        }
    }
}

#[test]
fn a_failure_of_the_engine_comes_through_as_it_is() {
    let mut env = Env::new(Down);
    let mut db = env.open::<&str, &str>("test").unwrap();
    assert!(matches!(db.set(&mut env, "k", "v"), Err(Error::DatabaseBackend(_))));
    assert!(matches!(db.set_nx(&mut env, "k", "v"), Err(Error::DatabaseBackend(_))));
    assert!(matches!(db.get(&env, "k"), Err(Error::DatabaseBackend(_))));
    assert!(matches!(db.get_multi(&env, &["k"]), Err(Error::DatabaseBackend(_))));
    assert!(matches!(db.delete(&mut env, "k"), Err(Error::DatabaseBackend(_))));
    assert!(matches!(db.contains(&env, "k"), Err(Error::DatabaseBackend(_))));
}

#[test]
fn a_column_that_cannot_be_opened_is_not_found() {
    let mut env = Env::new(Down);
    assert!(matches!(env.open::<&str, &str>(""), Err(Error::DatabaseNotFound { .. })));
}

struct Shelf {
    columns: std::collections::BTreeMap<String, std::collections::BTreeMap<Vec<u8>, Vec<u8>>>,
    flushed: usize,
}

struct ShelfColumn {
    name: String,
}

struct Lent<'c>(&'c [u8]);

impl okv::backend::RefBytes for Lent<'_> {
    fn bytes(&self) -> &[u8] {
        self.0
    }
}

impl Shelf {
    fn new() -> Self {
        Shelf { columns: std::collections::BTreeMap::new(), flushed: 0 }
    }
}

impl ColumnStore for Shelf {}

impl Innerable for Shelf {
    type Inner = usize;

    fn inner(&self) -> &usize {
        &self.flushed
    }
}

impl ColumnHandle for ShelfColumn {}

impl DBColumn<Shelf> for ShelfColumn {
    fn set(&mut self, backend: &mut Shelf, key: &[u8], val: &[u8]) -> Result<(), Error> {
        backend.columns.get_mut(&self.name).unwrap().insert(key.to_vec(), val.to_vec());
        Ok(())
    }

    fn get(&self, backend: &Shelf, key: &[u8]) -> Result<Option<Vec<u8>>, Error> {
        Ok(backend.columns[&self.name].get(key).cloned())
    }

    fn get_multi(&self, backend: &Shelf, keys: &Vec<Vec<u8>>) -> Result<Vec<Option<Vec<u8>>>, Error> {
        Ok(keys.iter().map(|key| backend.columns[&self.name].get(key).cloned()).collect())
    }

    fn delete(&mut self, backend: &mut Shelf, key: &[u8]) -> Result<(), Error> {
        backend.columns.get_mut(&self.name).unwrap().remove(key);
        Ok(())
    }

    fn contains(&self, backend: &Shelf, key: &[u8]) -> Result<bool, Error> {
        Ok(backend.columns[&self.name].contains_key(key))
    }
}

impl okv::backend::DBColumnDelete<Shelf> for ShelfColumn {
    fn delete_db(&self, backend: &mut Shelf) -> Result<(), Error> {
        backend.columns.remove(&self.name);
        Ok(())
    }
}

impl<'c> okv::backend::DBColumnRef<'c, Shelf> for ShelfColumn {
    type Ref = Lent<'c>;

    fn get_ref(&'c self, backend: &'c Shelf, key: &[u8]) -> Result<Option<Lent<'c>>, Error> {
        Ok(backend.columns[&self.name].get(key).map(|val| Lent(val.as_slice())))
    }
}

impl<'c> okv::backend::DBColumnRefBatch<'c, Shelf> for ShelfColumn {
    type Ref = Lent<'c>;

    fn get_multi_ref(&'c self, backend: &'c Shelf, keys: &Vec<Vec<u8>>) -> Result<Vec<Option<Lent<'c>>>, Error> {
        Ok(keys.iter().map(|key| backend.columns[&self.name].get(key).map(|val| Lent(val.as_slice()))).collect())
    }
}

impl okv::backend::Flushable<Shelf> for ShelfColumn {
    fn flush(&self, backend: &mut Shelf) -> Result<(), Error> {
        backend.flushed += 1;
        Ok(())
    }
}

impl DatabaseBackend for Shelf {
    type Column = ShelfColumn;

    fn create_or_open(&mut self, name: &str) -> Result<ShelfColumn, Error> {
        self.columns.entry(name.to_string()).or_default();
        Ok(ShelfColumn { name: name.to_string() })
    }
}

#[test]
fn a_lent_value_decodes_when_asked() {
    let mut env = Env::new(Shelf::new());
    let mut db = env.open::<&str, &str>("test").unwrap();
    db.set(&mut env, "k", "value").unwrap();
    let lent = db.get_ref(&env, "k").unwrap().unwrap();
    assert_eq!(lent.inner().0, b"value");
    assert_eq!(lent.deserialize().unwrap(), "value");
    assert!(db.get_ref(&env, "absent").unwrap().is_none());
    db.set_raw(&mut env, b"bad", &[0xff]).unwrap();
    let bad = db.get_ref(&env, "bad").unwrap().unwrap();
    assert!(matches!(bad.deserialize(), Err(Error::Decode(okv::error::DecodeError::InvalidUtf8))));
}

#[test]
fn lent_values_keep_the_order_of_the_keys() {
    let mut env = Env::new(Shelf::new());
    let mut db = env.open::<&str, u16>("test").unwrap();
    db.set(&mut env, "a", &1).unwrap();
    db.set(&mut env, "b", &2).unwrap();
    db.set(&mut env, "c", &3).unwrap();
    let lent = db.get_multi_ref(&env, &["c", "z", "a", "b"]).unwrap();
    let got: Vec<Option<u16>> = lent.iter().map(|val| val.as_ref().map(|val| val.deserialize().unwrap())).collect();
    assert_eq!(got, vec![Some(3), None, Some(1), Some(2)]);
    assert!(db.get_multi_ref(&env, &[]).unwrap().is_empty());
}

#[test]
fn a_destroyed_column_is_gone_from_the_engine() {
    let mut env = Env::new(Shelf::new());
    let mut db = env.open::<&str, &str>("gone").unwrap();
    let mut kept = env.open::<&str, &str>("kept").unwrap();
    db.set(&mut env, "k", "v").unwrap();
    kept.set(&mut env, "k", "v").unwrap();
    db.delete_db(&mut env).unwrap();
    assert!(!env.db().columns.contains_key("gone"));
    assert_eq!(kept.get(&env, "k").unwrap(), Some("v".to_string()));
    let again = env.open::<&str, &str>("gone").unwrap();
    assert_eq!(again.get(&env, "k").unwrap(), None);
}

#[test]
fn a_flush_reaches_the_engine() {
    let mut env = Env::new(Shelf::new());
    let db = env.open::<&str, &str>("test").unwrap();
    db.flush(&mut env).unwrap();
    db.flush(&mut env).unwrap();
    assert_eq!(*env.inner(), 2);
}

impl okv::backend::DBColumnBatch<Shelf> for ShelfColumn {
    fn writes_through(&self) {}

    fn write_batch(&self, backend: &mut Shelf, log: &Vec<(Vec<u8>, Option<Vec<u8>>)>) -> Result<(), Error> {
        let column = backend.columns.get_mut(&self.name).unwrap();
        for (key, write) in log {
            match write {
                Some(val) => column.insert(key.clone(), val.clone()),
                None => column.remove(key),
            };
        }
        Ok(())
    }
}

impl okv::backend::DBColumnTransaction<Shelf> for ShelfColumn {
    type Txn = okv::backend::recorded::RecordedTransaction<ShelfColumn>;

    fn transaction(&self, _backend: &Shelf) -> Result<Self::Txn, Error> {
        Ok(okv::backend::recorded::RecordedTransaction::new(ShelfColumn { name: self.name.clone() }))
    }
}

#[test]
fn an_engine_that_takes_batches_has_sessions() {
    let mut env = Env::new(Shelf::new());
    let mut db = env.open::<&str, u8>("test").unwrap();
    db.set(&mut env, "a", &1).unwrap();
    let mut tx = db.transaction(&env).unwrap();
    tx.set(&mut env, "b", &2).unwrap();
    tx.delete(&mut env, "a").unwrap();
    assert_eq!(tx.get_multi(&env, &["a", "b"]).unwrap(), vec![None, Some(2)]);
    assert_eq!(db.get_multi(&env, &["a", "b"]).unwrap(), vec![Some(1), None]);
    tx.rollback(&mut env).unwrap();
    assert_eq!(db.get_multi(&env, &["a", "b"]).unwrap(), vec![Some(1), None]);
    let mut tx = db.transaction(&env).unwrap();
    tx.set(&mut env, "b", &2).unwrap();
    tx.delete(&mut env, "a").unwrap();
    tx.commit(&mut env).unwrap();
    assert_eq!(db.get_multi(&env, &["a", "b"]).unwrap(), vec![None, Some(2)]);
}
