//! The language-model interface.

pub mod handler;
pub mod router;
pub mod service;
