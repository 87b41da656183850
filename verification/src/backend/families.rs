//! Rules for engines that keep each column as a named family in one store,
//! and have to be told the families when the store is opened.
use vstd::prelude::*;
use crate::error::Error;

verus! {

/// The families to open a store with, given what listing them came to: the
/// names that were listed; no names where the listing failed on input or
/// output, as it does for a store that does not exist yet; and `None` where
/// it failed otherwise. `listing` holds the names, or whether the failure
/// was one of input or output.
pub fn listed_databases(listing: Result<Vec<String>, bool>) -> (r: Option<Vec<String>>)
    ensures
        match listing {
            Ok(names) => r == Some(names),
            Err(true) => r is Some && r->Some_0@.len() == 0,
            Err(false) => r is None,
        },
{
    match listing {
        Ok(names) => Some(names),
        Err(true) => Some(Vec::new()),
        Err(false) => None,
    }
}

/// Whether a family that was just created can be used: it can where the
/// store now has it, and otherwise the column is not found.
pub fn created_column(found: bool, name: &str) -> (r: Result<(), Error>)
    ensures
        r is Ok <==> found,
        r is Err ==> (r->Err_0 matches Error::DatabaseNotFound { db } && db@ == name@),
{
    if found {
        Ok(())
    } else {
        Err(Error::DatabaseNotFound { db: name.to_owned() })
    }
}

} // verus!
