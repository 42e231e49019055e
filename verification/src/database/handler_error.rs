//! What a caller is told of a database error.

use vstd::prelude::*;

use crate::database::service::DatabaseError;
use crate::error::WaferError;
use crate::text;

verus! {

/// The message is one that callers need to see: it tells, in a backend's own
/// words, that a column or a table is there already. It holds names from a
/// schema, never content.
pub open spec fn is_preserved(message: Seq<char>) -> bool {
    text::occurs(text::lower(message), "duplicate column name"@) || text::occurs(
        text::lower(message),
        "already exists"@,
    )
}

/// Whether a backend's message is one that callers need to see.
pub fn is_preserved_db_error(message: &str) -> (r: bool)
    ensures
        r == is_preserved(message@),
{
    let lower = text::to_ascii_lowercase(message);
    text::contains(lower.as_str(), "duplicate column name") || text::contains(
        lower.as_str(),
        "already exists",
    )
}

/// What a caller is told of an error. What the caller sent is told back; what
/// a driver said is kept from the caller, as it may name hosts, files and
/// contents, unless it is one of the messages that callers need to see.
pub open spec fn told(e: DatabaseError) -> Seq<char> {
    match e {
        DatabaseError::NotFound => "record not found"@,
        DatabaseError::AlreadyExists(_) => "a record with this key already exists"@,
        DatabaseError::InvalidArgument(m) => m@,
        DatabaseError::StatementLimitExceeded(m) => m@,
        DatabaseError::ResourceExhausted(m) => m@,
        DatabaseError::Unavailable(_) => "database temporarily unavailable"@,
        DatabaseError::Internal(m) => if is_preserved(m@) {
            m@
        } else {
            "internal database error"@
        },
        DatabaseError::Other(m) => if is_preserved(m@) {
            m@
        } else {
            "internal database error"@
        },
    }
}

/// `w` answers the error `e`.
pub open spec fn answers(e: DatabaseError, w: WaferError) -> bool {
    w.code == e.answer_code() && w.message@ == told(e) && w.detail == e.answer_detail()
}

/// The answer to a database error.
pub fn db_error_to_wafer(e: DatabaseError) -> (r: WaferError)
    ensures
        answers(e, r),
{
    let code = e.code();
    let detail = e.detail_code();
    let message: String = match e {
        DatabaseError::NotFound => "record not found".to_owned(),
        DatabaseError::AlreadyExists(_) => "a record with this key already exists".to_owned(),
        DatabaseError::InvalidArgument(m) => m,
        DatabaseError::StatementLimitExceeded(m) => m,
        DatabaseError::ResourceExhausted(m) => m,
        DatabaseError::Unavailable(_) => "database temporarily unavailable".to_owned(),
        DatabaseError::Internal(m) => if is_preserved_db_error(m.as_str()) {
            m
        } else {
            "internal database error".to_owned()
        },
        DatabaseError::Other(m) => if is_preserved_db_error(m.as_str()) {
            m
        } else {
            "internal database error".to_owned()
        },
    };
    WaferError { code, message, detail }
}

/// What a driver said of a fault never reaches a caller, unless it tells that
/// a column or table is there already.
pub proof fn driver_messages_are_scrubbed(e: DatabaseError, said: String, w: WaferError)
    requires
        answers(e, w),
        e == DatabaseError::Internal(said) || e == DatabaseError::Other(said) || e
            == DatabaseError::Unavailable(said) || e == DatabaseError::AlreadyExists(said),
        !is_preserved(said@),
    ensures
        w.message@ == "internal database error"@ || w.message@
            == "database temporarily unavailable"@ || w.message@
            == "a record with this key already exists"@,
{
}

/// What went wrong is told by its code: what is not there, what is there
/// already, what the caller got wrong, a budget that is used up, a fault that
/// may clear on its own, and everything else as the server's own.
pub proof fn errors_are_told_apart(e: DatabaseError, w: WaferError)
    requires
        answers(e, w),
    ensures
        w.code == crate::error::ErrorCode::NotFound <==> e is NotFound,
        w.code == crate::error::ErrorCode::AlreadyExists <==> e is AlreadyExists,
        w.code == crate::error::ErrorCode::InvalidArgument <==> e is InvalidArgument
            || e is StatementLimitExceeded,
        w.code == crate::error::ErrorCode::ResourceExhausted <==> e is ResourceExhausted,
        w.code == crate::error::ErrorCode::Unavailable <==> e is Unavailable,
        w.code == crate::error::ErrorCode::Internal <==> e is Internal || e is Other,
        w.detail == Some(crate::error::DetailCode::StatementLimitExceeded)
            <==> e is StatementLimitExceeded,
        w.detail == Some(crate::error::DetailCode::StatementBudgetExhausted)
            <==> e is ResourceExhausted,
{
}

/// What the caller sent is told back, and so is a message that callers need to
/// see, in whatever case it is written.
pub proof fn what_callers_need_is_told(e: DatabaseError, said: String, w: WaferError, at: int)
    requires
        answers(e, w),
    ensures
        e == DatabaseError::InvalidArgument(said) || e == DatabaseError::StatementLimitExceeded(said)
            || e == DatabaseError::ResourceExhausted(said) ==> w.message@ == said@,
        (e == DatabaseError::Internal(said) || e == DatabaseError::Other(said)) && (text::occurs_at(
            text::lower(said@),
            "already exists"@,
            at,
        ) || text::occurs_at(text::lower(said@), "duplicate column name"@, at)) ==> w.message@
            == said@,
{
}

} // verus!
