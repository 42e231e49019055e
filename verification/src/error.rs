//! Errors as they are answered to a caller.

use vstd::prelude::*;

verus! {

/// The coarse class of an error.
#[derive(Clone, Copy, Debug, PartialEq, Eq, Structural)]
pub enum ErrorCode {
    NotFound,
    AlreadyExists,
    InvalidArgument,
    PermissionDenied,
    Unauthenticated,
    ResourceExhausted,
    FailedPrecondition,
    Aborted,
    Cancelled,
    DeadlineExceeded,
    Unavailable,
    Unimplemented,
    Internal,
}

/// What a coarse code leaves open: which refusal it was.
#[derive(Clone, Copy, Debug, PartialEq, Eq, Structural)]
pub enum DetailCode {
    /// One request asks for more statements than the backend ever runs at once.
    StatementLimitExceeded,
    /// The invocation has used up the statements the backend runs for it.
    StatementBudgetExhausted,
}

/// An error answered to a caller.
#[derive(Debug, PartialEq, Eq)]
pub struct WaferError {
    pub code: ErrorCode,
    pub message: String,
    pub detail: Option<DetailCode>,
}

impl WaferError {
    /// `self` is the error of class `code` that says `message`, without detail.
    pub open spec fn says(&self, code: ErrorCode, message: Seq<char>) -> bool {
        self.code == code && self.message@ == message && self.detail is None
    }

    /// An error of class `code` that says `message`.
    pub fn new(code: ErrorCode, message: String) -> (r: Self)
        ensures
            r.code == code,
            r.message == message,
            r.detail is None,
    {
        WaferError { code, message, detail: None }
    }
}

/// An [`ErrorCode::InvalidArgument`] that says `message`.
pub fn invalid(message: String) -> (r: WaferError)
    ensures
        r.says(ErrorCode::InvalidArgument, message@),
{
    WaferError::new(ErrorCode::InvalidArgument, message)
}

} // verus!
