use okv::error::{DecodeError, EncodeError, Error, ResultExt};

#[test]
fn allow_not_found_turns_a_missing_key_into_none() {
    let found: Result<u8, Error> = Ok(3);
    assert!(matches!(found.allow_not_found(), Ok(Some(3))));
    let missing: Result<u8, Error> = Err(Error::KeyNotFound { key: vec![1] });
    assert!(matches!(missing.allow_not_found(), Ok(None)));
    let other: Result<u8, Error> = Err(Error::Unknown("x".to_string()));
    assert!(matches!(other.allow_not_found(), Err(Error::Unknown(_))));
    let gone: Result<u8, Error> = Err(Error::DatabaseNotFound { db: "d".to_string() });
    assert!(matches!(gone.allow_not_found(), Err(Error::DatabaseNotFound { .. })));
}

#[test]
fn codec_errors_become_errors() {
    assert!(matches!(Error::from(DecodeError::SizeMismatch), Error::Decode(DecodeError::SizeMismatch)));
    assert!(matches!(Error::from(DecodeError::InvalidUtf8), Error::Decode(DecodeError::InvalidUtf8)));
    let e = EncodeError::SerdeJson("bad".to_string());
    assert!(matches!(Error::from(e), Error::Encode(EncodeError::SerdeJson(_))));
}

#[test]
fn io_errors_become_codec_errors() {
    let e = std::io::Error::from(std::io::ErrorKind::UnexpectedEof);
    assert!(matches!(DecodeError::from(e), DecodeError::Io(_)));
    let e = std::io::Error::from(std::io::ErrorKind::WriteZero);
    assert!(matches!(EncodeError::from(e), EncodeError::Io(_)));
}
