//! The network interface: requests to the outside world.

pub mod handler;
pub mod redirect;
pub mod service;
