//! The interfaces through which a block reaches its host: authentication,
//! configuration, cryptography, the database, language and image models, the
//! log and the network.
//!
//! What an interface decides is stated and proved here. Work that has to be
//! waited for is not done here but asked for: a handler is a function from a
//! message to the first thing it asks, and a function from what it was waiting
//! for and the answer to the next. So every sequence of answers is covered by
//! the contracts, whoever gives them.

pub mod auth;
pub mod config;
pub mod crypto;
pub mod database;
pub mod double;
pub mod error;
pub mod handler_util;
pub mod ident;
pub mod image;
pub mod json;
pub mod llm;
pub mod logger;
pub mod model_common;
pub mod model_listing;
pub mod network;
pub mod row;
pub mod text;
