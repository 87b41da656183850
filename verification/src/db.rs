//! Databases: typed handles to the columns of an environment.
mod database;
mod lazy;
mod transactions;

pub use self::database::Database;
pub use self::lazy::DatabaseLazy;
pub use self::transactions::DatabaseTransaction;
