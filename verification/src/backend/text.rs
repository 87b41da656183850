//! Keys for engines that take text keys only.
use vstd::prelude::*;
use vstd::string::StringExecFns;
use vstd::utf8::{decode_utf8, valid_utf8};
use crate::error::Error;
use crate::types::primitive::str::str_of_bytes;

verus! {

/// What the failure says where a key has no text.
pub open spec fn not_text() -> Seq<char> {
    "key is not valid utf8"@
}

/// The byte key `key` as text, for an engine that takes text keys only: the
/// key read as UTF-8. A key that is not UTF-8 has no text, and the failure
/// is of the kind `Unknown`.
pub fn text_key(key: &[u8]) -> (r: Result<String, Error>)
    ensures
        r is Ok <==> valid_utf8(key@),
        r is Ok ==> r->Ok_0@ == decode_utf8(key@),
        r is Err ==> (r->Err_0 matches Error::Unknown(message) && message@ == not_text()),
{
    match str_of_bytes(key) {
        Ok(text) => Ok(text.to_owned()),
        Err(_) => Err(Error::Unknown("key is not valid utf8".to_owned())),
    }
}

/// The text key under which an engine that takes text keys only keeps the
/// byte key `key` of the column `prefix`: the column's name, a hyphen, and
/// the key read as UTF-8. A key that is not UTF-8 has no text key, and the
/// failure is of the kind `Unknown`.
pub fn str_key(prefix: &str, key: &[u8]) -> (r: Result<String, Error>)
    ensures
        r is Ok <==> valid_utf8(key@),
        r is Ok ==> r->Ok_0@ == prefix@ + "-"@ + decode_utf8(key@),
        r is Err ==> (r->Err_0 matches Error::Unknown(message) && message@ == not_text()),
{
    match str_of_bytes(key) {
        Ok(text) => {
            let mut out = String::from_str(prefix);
            out.append("-");
            out.append(text);
            Ok(out)
        },
        Err(_) => Err(Error::Unknown("key is not valid utf8".to_owned())),
    }
}

} // verus!
