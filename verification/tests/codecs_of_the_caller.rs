use okv::backend::mem::MemDB;
use okv::env::Env;
use okv::error::{DecodeError, EncodeError, Error};
use okv::traits::{BytesDecodeOwned, BytesEncode, DBCommon};

struct Json<T>(std::marker::PhantomData<T>);

impl<T: serde::Serialize> BytesEncode for Json<T> {
    type EItem = T;

    fn bytes_encode(item: &T) -> Result<Vec<u8>, EncodeError> {
        serde_json::to_vec(item).map_err(|e| EncodeError::SerdeJson(e.to_string()))
    }
}

impl<T: serde::de::DeserializeOwned> BytesDecodeOwned for Json<T> {
    type DItem = T;

    fn bytes_decode_owned(bytes: &[u8]) -> Result<T, DecodeError> {
        serde_json::from_slice(bytes).map_err(|e| DecodeError::SerdeJson(e.to_string()))
    }
}

struct Pack<T>(std::marker::PhantomData<T>);

impl<T: serde::Serialize> BytesEncode for Pack<T> {
    type EItem = T;

    fn bytes_encode(item: &T) -> Result<Vec<u8>, EncodeError> {
        rmp_serde::to_vec(item).map_err(|e| EncodeError::SerdeRmp(e.to_string()))
    }
}

impl<T: serde::de::DeserializeOwned> BytesDecodeOwned for Pack<T> {
    type DItem = T;

    fn bytes_decode_owned(bytes: &[u8]) -> Result<T, DecodeError> {
        rmp_serde::from_slice(bytes).map_err(|e| DecodeError::SerdeRmp(e.to_string()))
    }
}

#[test]
fn json_values_are_stored_as_json() {
    let mut env = Env::new(MemDB::new());
    let mut db = env.open::<&str, Json<(String, u32)>>("people").unwrap();
    let john = ("John Doe".to_string(), 42);
    assert!(db.set_nx(&mut env, "john", &john).unwrap());
    assert_eq!(db.get(&env, "john").unwrap(), Some(john));
    assert_eq!(db.get_raw(&env, b"john").unwrap(), Some(b"[\"John Doe\",42]".to_vec()));
    db.set_raw(&mut env, b"broken", b"[\"x\"").unwrap();
    assert!(matches!(db.get(&env, "broken"), Err(Error::Decode(DecodeError::SerdeJson(_)))));
}

#[test]
fn message_pack_values_come_back() {
    let mut env = Env::new(MemDB::new());
    let mut db = env.open::<u32, Pack<Vec<String>>>("lists").unwrap();
    let words = vec!["a".to_string(), "b".to_string()];
    db.set(&mut env, &7, &words).unwrap();
    assert_eq!(db.get(&env, &7).unwrap(), Some(words));
    assert_eq!(db.get_raw(&env, &[7, 0, 0, 0]).unwrap(), Some(vec![0x92, 0xa1, b'a', 0xa1, b'b']));
    db.set_raw(&mut env, &[8, 0, 0, 0], &[0xc1]).unwrap();
    assert!(matches!(db.get(&env, &8), Err(Error::Decode(DecodeError::SerdeRmp(_)))));
}

struct Odd;

impl BytesEncode for Odd {
    type EItem = u8;

    fn bytes_encode(item: &u8) -> Result<Vec<u8>, EncodeError> {
        if item % 2 == 1 {
            Ok(vec![*item])
        } else {
            Err(EncodeError::SerdeJson("even".to_string()))
        }
    }
}

impl BytesDecodeOwned for Odd {
    type DItem = u8;

    fn bytes_decode_owned(bytes: &[u8]) -> Result<u8, DecodeError> {
        <u8 as BytesDecodeOwned>::bytes_decode_owned(bytes)
    }
}

#[test]
fn what_cannot_be_encoded_is_an_error_and_changes_nothing() {
    let mut env = Env::new(MemDB::new());
    let mut db = env.open::<Odd, Odd>("odd").unwrap();
    db.set(&mut env, &1, &3).unwrap();
    assert!(matches!(db.set(&mut env, &2, &3), Err(Error::Encode(_))));
    assert!(matches!(db.set(&mut env, &1, &4), Err(Error::Encode(_))));
    assert!(matches!(db.set_nx(&mut env, &5, &4), Err(Error::Encode(_))));
    assert!(matches!(db.get(&env, &2), Err(Error::Encode(_))));
    assert!(matches!(db.contains(&env, &2), Err(Error::Encode(_))));
    assert!(matches!(db.delete(&mut env, &2), Err(Error::Encode(_))));
    assert!(matches!(db.get_multi(&env, &[&1, &2]), Err(Error::Encode(_))));
    assert_eq!(db.get(&env, &1).unwrap(), Some(3));
    assert_eq!(db.get(&env, &5).unwrap(), None);
}
