//! The failures that the layer reports.
use vstd::prelude::*;
use vstd::std_specs::convert::FromSpecImpl;

verus! {

/// `std::io::Error`, carried through without being looked into.
#[verifier::external_type_specification]
#[verifier::external_body]
pub struct ExIoError(std::io::Error);

/// Why bytes could not be turned into a value.
#[derive(Debug)]
pub enum DecodeError {
    /// The bytes are not valid UTF-8.
    InvalidUtf8,
    /// The bytes ended before the value was complete.
    Io(std::io::Error),
    /// The number of bytes is not the one the type has.
    SizeMismatch,
    /// A JSON document could not be read; the text is the parser's message.
    SerdeJson(String),
    /// A MessagePack document could not be read; the text is the parser's message.
    SerdeRmp(String),
    /// The bytes are not a UUID; the text is the parser's message.
    Uuid(String),
}

/// Why a value could not be turned into bytes.
#[derive(Debug)]
pub enum EncodeError {
    /// The buffer refused the bytes.
    Io(std::io::Error),
    /// A value could not be written as JSON; the text is the serializer's message.
    SerdeJson(String),
    /// A value could not be written as MessagePack; the text is the serializer's message.
    SerdeRmp(String),
}

/// Every failure of a typed or raw operation.
#[derive(Debug)]
pub enum Error {
    /// A stored value or key could not be decoded.
    Decode(DecodeError),
    /// A key or value could not be encoded.
    Encode(EncodeError),
    /// A key that had to exist does not.
    KeyNotFound {
        /// The key that was looked for.
        key: Vec<u8>,
    },
    /// The named column could not be opened.
    DatabaseNotFound {
        /// The name that was asked for.
        db: String,
    },
    /// The storage engine failed; the text is its own message, uninterpreted.
    DatabaseBackend(String),
    /// A condition that fits no other kind.
    Unknown(String),
}

impl From<DecodeError> for Error {
    fn from(e: DecodeError) -> (r: Error)
        ensures
            r == Error::Decode(e),
    {
        Error::Decode(e)
    }
}

impl FromSpecImpl<DecodeError> for Error {
    open spec fn obeys_from_spec() -> bool {
        true
    }

    open spec fn from_spec(e: DecodeError) -> Error {
        Error::Decode(e)
    }
}

impl From<EncodeError> for Error {
    fn from(e: EncodeError) -> (r: Error)
        ensures
            r == Error::Encode(e),
    {
        Error::Encode(e)
    }
}

impl FromSpecImpl<EncodeError> for Error {
    open spec fn obeys_from_spec() -> bool {
        true
    }

    open spec fn from_spec(e: EncodeError) -> Error {
        Error::Encode(e)
    }
}

impl From<std::io::Error> for DecodeError {
    fn from(e: std::io::Error) -> (r: DecodeError)
        ensures
            r == DecodeError::Io(e),
    {
        DecodeError::Io(e)
    }
}

impl FromSpecImpl<std::io::Error> for DecodeError {
    open spec fn obeys_from_spec() -> bool {
        true
    }

    open spec fn from_spec(e: std::io::Error) -> DecodeError {
        DecodeError::Io(e)
    }
}

impl From<std::io::Error> for EncodeError {
    fn from(e: std::io::Error) -> (r: EncodeError)
        ensures
            r == EncodeError::Io(e),
    {
        EncodeError::Io(e)
    }
}

impl FromSpecImpl<std::io::Error> for EncodeError {
    open spec fn obeys_from_spec() -> bool {
        true
    }

    open spec fn from_spec(e: std::io::Error) -> EncodeError {
        EncodeError::Io(e)
    }
}

/// What `allow_not_found` makes of a result: a missing key becomes an
/// absent value, everything else stays what it was.
pub open spec fn not_found_allowed<T>(r: Result<T, Error>) -> Result<Option<T>, Error> {
    match r {
        Ok(v) => Ok(Some(v)),
        Err(Error::KeyNotFound { .. }) => Ok(None),
        Err(e) => Err(e),
    }
}

/// An extension of results that carry an [`Error`].
pub trait ResultExt<T> {
    /// Turns [`Error::KeyNotFound`] into `Ok(None)`.
    fn allow_not_found(self) -> (r: Result<Option<T>, Error>);
}

impl<T> ResultExt<T> for Result<T, Error> {
    fn allow_not_found(self) -> (r: Result<Option<T>, Error>)
        ensures
            r == not_found_allowed(self),
    {
        match self {
            Ok(v) => Ok(Some(v)),
            Err(Error::KeyNotFound { key }) => Ok(None),
            Err(e) => Err(e),
        }
    }
}

} // verus!
