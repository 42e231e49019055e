//! Handling a crypto message: the caller is authorized for the operation, and
//! the service does it.
//!
//! Tokens are signed and verified under a key that is derived for the calling
//! block, so a token operation without a calling block is refused.

use vstd::prelude::*;

use crate::crypto::service::CryptoError;
use crate::error::{invalid, ErrorCode, WaferError};
use crate::handler_util;
use crate::handler_util::{malformed, misfit, Body, Next};
use crate::row::Row;
use crate::text;

verus! {

/// The most random bytes that one request is answered with.
pub const MAX_RANDOM_BYTES: usize = 1_048_576;

/// What a message asks for.
#[derive(Debug)]
pub enum CryptoRequest {
    Hash { password: String },
    CompareHash { password: String, hash: String },
    Sign { claims: Row, expiry_secs: u64 },
    Verify { token: String },
    RandomBytes { n: usize },
}

/// One call of the service.
#[derive(Debug)]
pub enum CryptoCall {
    Hash { password: String },
    CompareHash { password: String, hash: String },
    /// Under the key derived for the block.
    SignFor { block_id: String, claims: Row, expiry_secs: u64 },
    /// Under the key derived for the block.
    VerifyFor { block_id: String, token: String },
    RandomBytes { n: usize },
}

/// What to ask for.
#[derive(Debug)]
pub enum CryptoAsk {
    /// Is the caller authorized to read this resource? It is the operation's
    /// own name.
    Authorize { resource: String },
    Call(CryptoCall),
}

/// What is waited for.
#[derive(Debug)]
pub enum CryptoWaiting {
    Authorizing { request: CryptoRequest, caller: Option<String> },
    Hashing,
    Comparing,
    Signing,
    Verifying,
    Drawing,
}

/// What was answered.
#[derive(Debug)]
pub enum CryptoTold {
    Authorized(Result<(), WaferError>),
    /// A hash or a token.
    Text(Result<String, CryptoError>),
    Compared(Result<(), CryptoError>),
    Claims(Result<Row, CryptoError>),
    Bytes(Result<Vec<u8>, CryptoError>),
}

/// What a message is answered with.
#[derive(Debug)]
pub enum CryptoResponse {
    Hash { hash: String },
    CompareHash { matches: bool },
    Sign { token: String },
    Verify { claims: Row },
    RandomBytes { bytes: Vec<u8> },
}

/// The class and the words of an error's answer. A stored hash that cannot be
/// checked is the server's fault, never a wrong password.
pub open spec fn error_answer(e: CryptoError) -> (ErrorCode, Seq<char>) {
    match e {
        CryptoError::HashError(m) => (ErrorCode::Internal, m@),
        CryptoError::PasswordMismatch => (ErrorCode::Unauthenticated, "password mismatch"@),
        CryptoError::MalformedHash(_) => (ErrorCode::Internal, e.rendering()),
        CryptoError::SignError(m) => (ErrorCode::Internal, m@),
        CryptoError::VerifyError(m) => (ErrorCode::Unauthenticated, m@),
        CryptoError::Other(m) => (ErrorCode::Internal, m@),
    }
}

/// The answer to an error.
pub fn crypto_error_to_wafer(e: CryptoError) -> (r: WaferError)
    ensures
        r.says(error_answer(e).0, error_answer(e).1),
{
    match e {
        CryptoError::HashError(m) => WaferError::new(ErrorCode::Internal, m),
        CryptoError::PasswordMismatch => WaferError::new(
            ErrorCode::Unauthenticated,
            "password mismatch".to_owned(),
        ),
        CryptoError::MalformedHash(m) => {
            let message = CryptoError::MalformedHash(m).to_string();
            WaferError::new(ErrorCode::Internal, message)
        },
        CryptoError::SignError(m) => WaferError::new(ErrorCode::Internal, m),
        CryptoError::VerifyError(m) => WaferError::new(ErrorCode::Unauthenticated, m),
        CryptoError::Other(m) => WaferError::new(ErrorCode::Internal, m),
    }
}

/// The refusal of a token operation without a calling block.
pub open spec fn no_key(e: WaferError, op: Seq<char>) -> bool {
    e.says(
        ErrorCode::PermissionDenied,
        op + " needs a calling block: tokens are signed under the caller's derived key"@,
    )
}

fn no_caller_key(op: &str) -> (r: WaferError)
    ensures
        no_key(r, op@),
{
    WaferError::new(
        ErrorCode::PermissionDenied,
        text::join2(
            op,
            " needs a calling block: tokens are signed under the caller's derived key",
        ),
    )
}

/// The resource that stands for an operation.
pub open spec fn resource_of(request: CryptoRequest) -> Seq<char> {
    match request {
        CryptoRequest::Hash { .. } => "hash"@,
        CryptoRequest::CompareHash { .. } => "compare_hash"@,
        CryptoRequest::Sign { .. } => "sign"@,
        CryptoRequest::Verify { .. } => "verify"@,
        CryptoRequest::RandomBytes { .. } => "random_bytes"@,
    }
}

/// How a message starts: with the caller's authorization for the operation.
pub open spec fn crypto_starts(
    kind: Seq<char>,
    caller: Option<String>,
    body: Body<CryptoRequest>,
    r: Next<CryptoAsk, CryptoWaiting, CryptoResponse>,
) -> bool {
    match body {
        Body::Unknown => r matches Next::Refuse(e) && e.says(
            ErrorCode::Unimplemented,
            "unknown crypto operation: "@ + kind,
        ),
        Body::Malformed { op, why } => r matches Next::Refuse(e)
            && handler_util::refuses_malformed(e, op@, why@),
        Body::Request(request) => r matches Next::Ask(CryptoAsk::Authorize { resource }, w)
            && resource@ == resource_of(request) && w == (CryptoWaiting::Authorizing {
            request,
            caller,
        }),
    }
}

/// Starts to handle a crypto message from the block `caller`.
pub fn handle_message(kind: &str, caller: Option<String>, body: Body<CryptoRequest>) -> (r: Next<
    CryptoAsk,
    CryptoWaiting,
    CryptoResponse,
>)
    ensures
        crypto_starts(kind@, caller, body, r),
{
    match body {
        Body::Unknown => Next::Refuse(
            WaferError::new(
                ErrorCode::Unimplemented,
                text::join2("unknown crypto operation: ", kind),
            ),
        ),
        Body::Malformed { op, why } => Next::Refuse(malformed(op.as_str(), why.as_str())),
        Body::Request(request) => {
            let resource: String = match &request {
                CryptoRequest::Hash { .. } => "hash".to_owned(),
                CryptoRequest::CompareHash { .. } => "compare_hash".to_owned(),
                CryptoRequest::Sign { .. } => "sign".to_owned(),
                CryptoRequest::Verify { .. } => "verify".to_owned(),
                CryptoRequest::RandomBytes { .. } => "random_bytes".to_owned(),
            };
            Next::Ask(
                CryptoAsk::Authorize { resource },
                CryptoWaiting::Authorizing { request, caller },
            )
        },
    }
}

/// The service is called.
pub open spec fn calls(
    r: Next<CryptoAsk, CryptoWaiting, CryptoResponse>,
    call: CryptoCall,
    waiting: CryptoWaiting,
) -> bool {
    r == Next::<CryptoAsk, CryptoWaiting, CryptoResponse>::Ask(CryptoAsk::Call(call), waiting)
}

/// What an authorized request leads to.
pub open spec fn authorized(
    request: CryptoRequest,
    caller: Option<String>,
    r: Next<CryptoAsk, CryptoWaiting, CryptoResponse>,
) -> bool {
    match request {
        CryptoRequest::Hash { password } => calls(
            r,
            CryptoCall::Hash { password },
            CryptoWaiting::Hashing,
        ),
        CryptoRequest::CompareHash { password, hash } => calls(
            r,
            CryptoCall::CompareHash { password, hash },
            CryptoWaiting::Comparing,
        ),
        CryptoRequest::Sign { claims, expiry_secs } => match caller {
            Some(block_id) => calls(
                r,
                CryptoCall::SignFor { block_id, claims, expiry_secs },
                CryptoWaiting::Signing,
            ),
            None => r matches Next::Refuse(e) && no_key(e, "crypto.sign"@),
        },
        CryptoRequest::Verify { token } => match caller {
            Some(block_id) => calls(
                r,
                CryptoCall::VerifyFor { block_id, token },
                CryptoWaiting::Verifying,
            ),
            None => r matches Next::Refuse(e) && no_key(e, "crypto.verify"@),
        },
        CryptoRequest::RandomBytes { n } => if n > MAX_RANDOM_BYTES {
            r matches Next::Refuse(e) && e.says(
                ErrorCode::InvalidArgument,
                "random_bytes n="@ + text::decimal(n as int) + " exceeds maximum of "@
                    + text::decimal(MAX_RANDOM_BYTES as int),
            )
        } else {
            calls(r, CryptoCall::RandomBytes { n }, CryptoWaiting::Drawing)
        },
    }
}

fn go_on_authorized(request: CryptoRequest, caller: Option<String>) -> (r: Next<
    CryptoAsk,
    CryptoWaiting,
    CryptoResponse,
>)
    ensures
        authorized(request, caller, r),
{
    match request {
        CryptoRequest::Hash { password } => Next::Ask(
            CryptoAsk::Call(CryptoCall::Hash { password }),
            CryptoWaiting::Hashing,
        ),
        CryptoRequest::CompareHash { password, hash } => Next::Ask(
            CryptoAsk::Call(CryptoCall::CompareHash { password, hash }),
            CryptoWaiting::Comparing,
        ),
        CryptoRequest::Sign { claims, expiry_secs } => match caller {
            Some(block_id) => Next::Ask(
                CryptoAsk::Call(CryptoCall::SignFor { block_id, claims, expiry_secs }),
                CryptoWaiting::Signing,
            ),
            None => Next::Refuse(no_caller_key("crypto.sign")),
        },
        CryptoRequest::Verify { token } => match caller {
            Some(block_id) => Next::Ask(
                CryptoAsk::Call(CryptoCall::VerifyFor { block_id, token }),
                CryptoWaiting::Verifying,
            ),
            None => Next::Refuse(no_caller_key("crypto.verify")),
        },
        CryptoRequest::RandomBytes { n } => {
            if n > MAX_RANDOM_BYTES {
                return Next::Refuse(
                    invalid(
                        text::join4(
                            "random_bytes n=",
                            text::usize_text(n).as_str(),
                            " exceeds maximum of ",
                            text::usize_text(MAX_RANDOM_BYTES).as_str(),
                        ),
                    ),
                );
            }
            Next::Ask(CryptoAsk::Call(CryptoCall::RandomBytes { n }), CryptoWaiting::Drawing)
        },
    }
}

/// The message is refused with the answer to an error.
pub open spec fn refuses(
    r: Next<CryptoAsk, CryptoWaiting, CryptoResponse>,
    e: CryptoError,
) -> bool {
    r matches Next::Refuse(w) && w.says(error_answer(e).0, error_answer(e).1)
}

/// The message is answered.
pub open spec fn responds(
    r: Next<CryptoAsk, CryptoWaiting, CryptoResponse>,
    response: CryptoResponse,
) -> bool {
    r == Next::<CryptoAsk, CryptoWaiting, CryptoResponse>::Respond(response)
}

/// What an answer leads to. A password that does not match is an answer, not
/// an error.
pub open spec fn crypto_goes_on(
    waiting: CryptoWaiting,
    told: CryptoTold,
    r: Next<CryptoAsk, CryptoWaiting, CryptoResponse>,
) -> bool {
    match (waiting, told) {
        (CryptoWaiting::Authorizing { .. }, CryptoTold::Authorized(Err(e))) => r == Next::<
            CryptoAsk,
            CryptoWaiting,
            CryptoResponse,
        >::Refuse(e),
        (CryptoWaiting::Authorizing { request, caller }, CryptoTold::Authorized(Ok(_))) => {
            authorized(request, caller, r)
        },
        (CryptoWaiting::Hashing, CryptoTold::Text(Ok(hash))) => responds(
            r,
            CryptoResponse::Hash { hash },
        ),
        (CryptoWaiting::Hashing, CryptoTold::Text(Err(e))) => refuses(r, e),
        (CryptoWaiting::Comparing, CryptoTold::Compared(Ok(_))) => responds(
            r,
            CryptoResponse::CompareHash { matches: true },
        ),
        (CryptoWaiting::Comparing, CryptoTold::Compared(Err(e))) => if e is PasswordMismatch {
            responds(r, CryptoResponse::CompareHash { matches: false })
        } else {
            refuses(r, e)
        },
        (CryptoWaiting::Signing, CryptoTold::Text(Ok(token))) => responds(
            r,
            CryptoResponse::Sign { token },
        ),
        (CryptoWaiting::Signing, CryptoTold::Text(Err(e))) => refuses(r, e),
        (CryptoWaiting::Verifying, CryptoTold::Claims(Ok(claims))) => responds(
            r,
            CryptoResponse::Verify { claims },
        ),
        (CryptoWaiting::Verifying, CryptoTold::Claims(Err(e))) => refuses(r, e),
        (CryptoWaiting::Drawing, CryptoTold::Bytes(Ok(bytes))) => responds(
            r,
            CryptoResponse::RandomBytes { bytes },
        ),
        (CryptoWaiting::Drawing, CryptoTold::Bytes(Err(e))) => refuses(r, e),
        _ => r matches Next::Refuse(e) && handler_util::is_misfit(e),
    }
}

impl CryptoWaiting {
    /// Goes on with the answer to what was asked.
    pub fn resume(self, told: CryptoTold) -> (r: Next<CryptoAsk, CryptoWaiting, CryptoResponse>)
        ensures
            crypto_goes_on(self, told, r),
    {
        match (self, told) {
            (CryptoWaiting::Authorizing { .. }, CryptoTold::Authorized(Err(e))) => Next::Refuse(e),
            (CryptoWaiting::Authorizing { request, caller }, CryptoTold::Authorized(Ok(_))) => {
                go_on_authorized(request, caller)
            },
            (CryptoWaiting::Hashing, CryptoTold::Text(Ok(hash))) => Next::Respond(
                CryptoResponse::Hash { hash },
            ),
            (CryptoWaiting::Hashing, CryptoTold::Text(Err(e))) => Next::Refuse(
                crypto_error_to_wafer(e),
            ),
            (CryptoWaiting::Comparing, CryptoTold::Compared(Ok(_))) => Next::Respond(
                CryptoResponse::CompareHash { matches: true },
            ),
            (CryptoWaiting::Comparing, CryptoTold::Compared(Err(e))) => {
                if let CryptoError::PasswordMismatch = e {
                    return Next::Respond(CryptoResponse::CompareHash { matches: false });
                }
                Next::Refuse(crypto_error_to_wafer(e))
            },
            (CryptoWaiting::Signing, CryptoTold::Text(Ok(token))) => Next::Respond(
                CryptoResponse::Sign { token },
            ),
            (CryptoWaiting::Signing, CryptoTold::Text(Err(e))) => Next::Refuse(
                crypto_error_to_wafer(e),
            ),
            (CryptoWaiting::Verifying, CryptoTold::Claims(Ok(claims))) => Next::Respond(
                CryptoResponse::Verify { claims },
            ),
            (CryptoWaiting::Verifying, CryptoTold::Claims(Err(e))) => Next::Refuse(
                crypto_error_to_wafer(e),
            ),
            (CryptoWaiting::Drawing, CryptoTold::Bytes(Ok(bytes))) => Next::Respond(
                CryptoResponse::RandomBytes { bytes },
            ),
            (CryptoWaiting::Drawing, CryptoTold::Bytes(Err(e))) => Next::Refuse(
                crypto_error_to_wafer(e),
            ),
            _ => Next::Refuse(misfit()),
        }
    }
}

/// No token is signed or verified without the key of the block that calls.
pub proof fn tokens_need_the_callers_key(
    request: CryptoRequest,
    told: CryptoTold,
    r: Next<CryptoAsk, CryptoWaiting, CryptoResponse>,
)
    requires
        request is Sign || request is Verify,
        crypto_goes_on(CryptoWaiting::Authorizing { request, caller: None }, told, r),
    ensures
        r is Refuse,
{
}

/// A stored hash that cannot be checked is never answered as a wrong password.
pub proof fn a_broken_hash_is_no_wrong_password(
    why: String,
    r: Next<CryptoAsk, CryptoWaiting, CryptoResponse>,
)
    requires
        crypto_goes_on(
            CryptoWaiting::Comparing,
            CryptoTold::Compared(Err(CryptoError::MalformedHash(why))),
            r,
        ),
    ensures
        r matches Next::Refuse(e) && e.code == ErrorCode::Internal,
{
}

/// Each operation is authorized under a resource of its own: no two share one.
pub proof fn operations_are_authorized_apart(
    kind: Seq<char>,
    caller: Option<String>,
    x: CryptoRequest,
    y: CryptoRequest,
    r: Next<CryptoAsk, CryptoWaiting, CryptoResponse>,
    s: Next<CryptoAsk, CryptoWaiting, CryptoResponse>,
)
    requires
        crypto_starts(kind, caller, Body::Request(x), r),
        crypto_starts(kind, caller, Body::Request(y), s),
    ensures
        r is Ask && r->Ask_0 is Authorize && s is Ask && s->Ask_0 is Authorize,
        r->Ask_0->resource@ == s->Ask_0->resource@ <==> (x is Hash && y is Hash) || (x is CompareHash
            && y is CompareHash) || (x is Sign && y is Sign) || (x is Verify && y is Verify) || (
        x is RandomBytes && y is RandomBytes),
{
    reveal_strlit("hash");
    reveal_strlit("compare_hash");
    reveal_strlit("sign");
    reveal_strlit("verify");
    reveal_strlit("random_bytes");
    assert("hash"@[0] != "sign"@[0]);
    assert("compare_hash"@[0] != "random_bytes"@[0]);
}

/// The service is called for the very operation, with the request's own values,
/// and tokens under the key of the block that calls. No call asks for more
/// random bytes than one may.
pub proof fn the_service_is_called_for_the_operation(
    request: CryptoRequest,
    caller: Option<String>,
    r: Next<CryptoAsk, CryptoWaiting, CryptoResponse>,
)
    requires
        crypto_goes_on(
            CryptoWaiting::Authorizing { request, caller },
            CryptoTold::Authorized(Ok(())),
            r,
        ),
    ensures
        !(r is Respond),
        match request {
            CryptoRequest::Hash { password: p } => r matches Next::Ask(
                CryptoAsk::Call(CryptoCall::Hash { password }),
                w,
            ) && password@ == p@ && w is Hashing,
            CryptoRequest::CompareHash { password: p, hash: h } => r matches Next::Ask(
                CryptoAsk::Call(CryptoCall::CompareHash { password, hash }),
                w,
            ) && password@ == p@ && hash@ == h@ && w is Comparing,
            CryptoRequest::Sign { claims: c, expiry_secs: x } => caller matches Some(b) ==> (
            r matches Next::Ask(
                CryptoAsk::Call(CryptoCall::SignFor { block_id, claims, expiry_secs }),
                w,
            ) && block_id@ == b@ && claims == c && expiry_secs == x && w is Signing),
            CryptoRequest::Verify { token: t } => caller matches Some(b) ==> (r matches Next::Ask(
                CryptoAsk::Call(CryptoCall::VerifyFor { block_id, token }),
                w,
            ) && block_id@ == b@ && token@ == t@ && w is Verifying),
            CryptoRequest::RandomBytes { n: k } => if k <= 1_048_576 {
                r matches Next::Ask(CryptoAsk::Call(CryptoCall::RandomBytes { n }), w) && n == k
                    && w is Drawing
            } else {
                r is Refuse && r->Refuse_0.code == ErrorCode::InvalidArgument
            },
        },
{
}

/// The message is answered with whether a password matches.
pub open spec fn says_match(
    r: Next<CryptoAsk, CryptoWaiting, CryptoResponse>,
    yes: bool,
) -> bool {
    responds(r, CryptoResponse::CompareHash { matches: yes })
}

/// The answer is what the service found: a password matches exactly where the
/// service says that it does, and a hash, a token, claims and bytes are given
/// as they came. A token that does not verify is not let through.
pub proof fn the_answer_is_what_the_service_found(
    waiting: CryptoWaiting,
    told: CryptoTold,
    r: Next<CryptoAsk, CryptoWaiting, CryptoResponse>,
)
    requires
        crypto_goes_on(waiting, told, r),
        !(waiting is Authorizing),
    ensures
        !(r is Ask),
        r matches Next::Respond(CryptoResponse::Hash { hash }) ==> waiting is Hashing && told
            == CryptoTold::Text(Ok(hash)),
        says_match(r, true) <==> waiting is Comparing && told is Compared
            && told->Compared_0 is Ok,
        says_match(r, false) <==> waiting is Comparing && told == CryptoTold::Compared(
            Err(CryptoError::PasswordMismatch),
        ),
        r matches Next::Respond(CryptoResponse::Sign { token }) ==> waiting is Signing && told
            == CryptoTold::Text(Ok(token)),
        r matches Next::Respond(CryptoResponse::Verify { claims }) ==> waiting is Verifying && told
            == CryptoTold::Claims(Ok(claims)),
        r matches Next::Respond(CryptoResponse::RandomBytes { bytes }) ==> waiting is Drawing && told
            == CryptoTold::Bytes(Ok(bytes)),
        waiting is Verifying && (told matches CryptoTold::Claims(Err(CryptoError::VerifyError(_))))
            ==> r is Refuse && r->Refuse_0.code == ErrorCode::Unauthenticated,
        (waiting is Hashing || waiting is Signing) && told is Text && told->Text_0 is Ok
            ==> r is Respond,
        waiting is Comparing && (told == CryptoTold::Compared(Ok(())) || told
            == CryptoTold::Compared(Err(CryptoError::PasswordMismatch))) ==> r is Respond,
        waiting is Verifying && told is Claims && told->Claims_0 is Ok ==> r is Respond,
        waiting is Drawing && told is Bytes && told->Bytes_0 is Ok ==> r is Respond,
{
}

} // verus!
