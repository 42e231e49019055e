//! The crypto interface: passwords, tokens and random bytes.

pub mod handler;
pub mod service;
