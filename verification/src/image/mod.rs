//! The image-generation interface.

pub mod handler;
pub mod router;
pub mod service;
