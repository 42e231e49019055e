//! The database interface: the messages it takes, the statements they become,
//! and what is remembered of the schema in between.

pub mod append;
pub mod codec;
pub mod conformance;
pub mod convert;
pub mod defaults;
pub mod exec;
pub mod filter;
pub mod handler;
pub mod handler_error;
pub mod meaning;
pub mod schema;
pub mod schema_cache;
pub mod schema_wire;
pub mod service;
pub mod wire;
