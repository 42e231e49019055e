//! What can go wrong with a language model, and which backends are whose.

use vstd::prelude::*;

use crate::text;

verus! {

/// Why an operation on a language model failed.
#[derive(Debug, PartialEq, Eq)]
pub enum LlmError {
    /// The backend has no such operation.
    NotSupported,
    /// The request is at fault.
    InvalidRequest(String),
    /// The backend failed.
    BackendError(String),
    /// The backend knows no such model.
    ModelNotFound(String),
    /// The backend has been asked too often.
    RateLimited,
    /// The backend takes no such credentials.
    Unauthorized,
    /// The backend could not be reached.
    Network(String),
    /// It was cancelled.
    Cancelled,
}

impl LlmError {
    /// What this error says.
    pub open spec fn rendering(&self) -> Seq<char> {
        match self {
            LlmError::NotSupported => "not supported by this backend"@,
            LlmError::InvalidRequest(m) => "invalid request: "@ + m@,
            LlmError::BackendError(m) => "backend error: "@ + m@,
            LlmError::ModelNotFound(m) => "model not found: "@ + m@,
            LlmError::RateLimited => "rate limited"@,
            LlmError::Unauthorized => "unauthorized"@,
            LlmError::Network(m) => "network error: "@ + m@,
            LlmError::Cancelled => "cancelled"@,
        }
    }

    /// What this error says.
    pub fn to_string(&self) -> (r: String)
        ensures
            r@ == self.rendering(),
    {
        match self {
            LlmError::NotSupported => "not supported by this backend".to_owned(),
            LlmError::InvalidRequest(m) => text::join2("invalid request: ", m.as_str()),
            LlmError::BackendError(m) => text::join2("backend error: ", m.as_str()),
            LlmError::ModelNotFound(m) => text::join2("model not found: ", m.as_str()),
            LlmError::RateLimited => "rate limited".to_owned(),
            LlmError::Unauthorized => "unauthorized".to_owned(),
            LlmError::Network(m) => text::join2("network error: ", m.as_str()),
            LlmError::Cancelled => "cancelled".to_owned(),
        }
    }
}

/// A service of language models. What it does with them is done outside this
/// library; here stands what a router asks of it.
pub trait LlmService {
    /// Whether this service serves the backend. One that says nothing of its
    /// own serves none.
    fn claims_backend(&self, _backend_id: &str) -> (r: bool)
        default_ensures
            !r,
    {
        false
    }
}

/// What a service answers that cannot load a model.
pub fn load_model_unsupported() -> (r: LlmError)
    ensures
        r is NotSupported,
{
    LlmError::NotSupported
}

/// What a service answers that cannot unload a model.
pub fn unload_model_unsupported() -> (r: LlmError)
    ensures
        r is NotSupported,
{
    LlmError::NotSupported
}

} // verus!
