//! The auth interface: who a request comes from, and what they may do.

pub mod handler;
pub mod service;
