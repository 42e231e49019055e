//! The logger interface: records of what a block has to say, each on one line.

pub mod handler;
pub mod service;
