//! A typed key-value access layer over interchangeable storage engines.
//!
//! Application code opens named columns through an [`env::Env`] and works on
//! them through [`db::Database`] handles, which encode keys and values with
//! the codecs of [`types`] and hand the bytes to the engine behind the
//! environment. A handle owns no data: every operation is handed the
//! environment, exclusively where it writes.
//!
//! What every engine owes is stated once, over a mathematical model of a
//! column, in [`model`] and [`backend`], and what follows from it for every
//! engine and every codec is proved in [`laws`]. The engine of
//! [`backend::mem`] meets all of it. The decisions of operations that wait
//! for their engine are in [`bridge`].

pub mod backend;
pub mod bridge;
pub mod db;
pub mod env;
pub mod error;
pub mod laws;
pub mod model;
pub mod traits;
pub mod types;

pub use crate::db::{Database, DatabaseLazy, DatabaseTransaction};
pub use crate::env::Env;
pub use crate::error::{DecodeError, EncodeError, Error};
pub use crate::traits::{DBCommon, DBCommonClear, DBCommonDelete, DBCommonIter, DBCommonIterPrefix};
pub use crate::traits::{DBCommonRef, DBCommonRefBatch};
