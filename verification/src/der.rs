//! Reading and writing DER.
pub mod arc;
pub mod builder;
pub mod header;
pub mod number;
pub mod oid;
pub mod reader;
pub mod types;
