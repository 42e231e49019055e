//! The config interface: keys and their values.

pub mod handler;
pub mod service;
