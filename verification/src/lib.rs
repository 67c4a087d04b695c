//! An embedded, schema-checked row store: declare a table schema once,
//! register it against a store, insert typed rows, and run column-projected
//! queries whose results are decoded back into named, type-checked fields.
//!
//! Every data path is validated against the schema before it touches the
//! store, and the decode path is checked to stay consistent with the schema
//! under arbitrary raw records.

pub mod errors;
pub mod values;
pub mod schema;
pub mod row;
pub mod store;
pub mod query;
pub mod connection;
pub mod laws;
