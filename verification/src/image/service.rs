//! What can go wrong with generating images, and which backends are whose.

use vstd::prelude::*;

use crate::text;

verus! {

/// Why an image operation failed.
#[derive(Debug, PartialEq, Eq)]
pub enum ImageError {
    /// The backend has no such operation.
    NotSupported,
    /// The request is at fault.
    InvalidRequest(String),
    /// The backend failed.
    BackendError(String),
    /// The backend knows no such model.
    ModelNotFound(String),
    /// The backend could not be reached.
    Network(String),
    /// It was cancelled.
    Cancelled,
}

impl ImageError {
    /// What this error says.
    pub open spec fn rendering(&self) -> Seq<char> {
        match self {
            ImageError::NotSupported => "not supported by this backend"@,
            ImageError::InvalidRequest(m) => "invalid request: "@ + m@,
            ImageError::BackendError(m) => "backend error: "@ + m@,
            ImageError::ModelNotFound(m) => "model not found: "@ + m@,
            ImageError::Network(m) => "network error: "@ + m@,
            ImageError::Cancelled => "cancelled"@,
        }
    }

    /// What this error says.
    pub fn to_string(&self) -> (r: String)
        ensures
            r@ == self.rendering(),
    {
        match self {
            ImageError::NotSupported => "not supported by this backend".to_owned(),
            ImageError::InvalidRequest(m) => text::join2("invalid request: ", m.as_str()),
            ImageError::BackendError(m) => text::join2("backend error: ", m.as_str()),
            ImageError::ModelNotFound(m) => text::join2("model not found: ", m.as_str()),
            ImageError::Network(m) => text::join2("network error: ", m.as_str()),
            ImageError::Cancelled => "cancelled".to_owned(),
        }
    }
}

/// A service that generates images. How it does so is done outside this library;
/// here stands what a router asks of it.
pub trait ImageService {
    /// Whether this service serves the backend. One that says nothing of its
    /// own serves none.
    fn claims_backend(&self, _backend_id: &str) -> (r: bool)
        default_ensures
            !r,
    {
        false
    }
}

/// What a service answers that cannot load a model.
pub fn load_model_unsupported() -> (r: ImageError)
    ensures
        r is NotSupported,
{
    ImageError::NotSupported
}

/// What a service answers that cannot unload a model.
pub fn unload_model_unsupported() -> (r: ImageError)
    ensures
        r is NotSupported,
{
    ImageError::NotSupported
}

} // verus!
