//! Codecs of the primitive types.
pub mod integer;
mod le;
pub mod str;
pub mod unit;
