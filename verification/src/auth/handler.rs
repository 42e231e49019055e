//! Handling an auth message: the request's hints are read, and the service is
//! asked who the request comes from.
//!
//! A hint that is not understood is refused. It never stands for the weakest
//! role or scope.

use vstd::prelude::*;

use crate::auth::service::{AuthError, OrgSummary, Role, TokenScope, UserId, UserProfile};
use crate::error::{invalid, ErrorCode, WaferError};
use crate::handler_util;
use crate::handler_util::{malformed, misfit, Body, Next};
use crate::text;

verus! {

/// What a message asks for.
#[derive(Debug)]
pub enum AuthRequest {
    RequireUser,
    /// The scope as the request's header gives it; empty without one.
    RequireToken { scope: String },
    /// The role as the request's header gives it; empty without one.
    RequireRole { role: String },
    UserProfile { user_id: String },
}

/// One call of the service.
#[derive(Debug, PartialEq, Eq)]
pub enum AuthCall {
    RequireUser,
    RequireToken(TokenScope),
    RequireRole(Role),
    UserProfile(UserId),
}

/// What the service is waited for with.
#[derive(Clone, Copy, Debug, PartialEq, Eq, Structural)]
pub enum AuthWaiting {
    User,
    Profile,
}

/// What the service found out.
#[derive(Debug)]
pub enum AuthReply {
    User(Result<UserId, AuthError>),
    Profile(Result<UserProfile, AuthError>),
}

/// A service that cannot tell who a request comes from admits nobody and knows
/// no profile.
pub open spec fn fails_closed(call: AuthCall, reply: AuthReply) -> bool {
    match call {
        AuthCall::UserProfile(_) => reply matches AuthReply::Profile(Err(e)) && e is NotFound,
        _ => reply matches AuthReply::User(Err(e)) && e is Unauthorized,
    }
}

/// What a service answers that states no way of its own to tell who a request
/// comes from.
pub fn fail_closed(call: &AuthCall) -> (r: AuthReply)
    ensures
        fails_closed(*call, r),
{
    match call {
        AuthCall::UserProfile(_) => AuthReply::Profile(Err(AuthError::NotFound)),
        _ => AuthReply::User(Err(AuthError::Unauthorized)),
    }
}

/// What a service answers that states no way of its own to tell whether a user
/// acts for an organization: nobody does.
pub fn no_org_admin() -> (r: Result<bool, AuthError>)
    ensures
        r == Ok::<bool, AuthError>(false),
{
    Ok(false)
}

/// A profile as it is answered.
#[derive(Debug, PartialEq, Eq)]
pub struct UserProfileResponse {
    pub id: String,
    pub email: String,
    pub display_name: String,
    pub avatar_url: Option<String>,
    pub role: String,
    pub orgs: Vec<OrgSummary>,
}

/// What a message is answered with.
#[derive(Debug)]
pub enum AuthResponse {
    UserId { user_id: String },
    Profile(UserProfileResponse),
}

/// The class and the words of an error's answer.
pub open spec fn error_answer(e: AuthError) -> (ErrorCode, Seq<char>) {
    match e {
        AuthError::Unauthorized => (ErrorCode::Unauthenticated, "unauthorized"@),
        AuthError::Forbidden => (ErrorCode::PermissionDenied, "forbidden"@),
        AuthError::ProviderDown(m) => (ErrorCode::Unavailable, m@),
        AuthError::NotFound => (ErrorCode::NotFound, "not found"@),
        AuthError::Internal(m) => (ErrorCode::Internal, m@),
    }
}

/// The answer to an error.
pub fn err_to_wafer(e: AuthError) -> (r: WaferError)
    ensures
        r.says(error_answer(e).0, error_answer(e).1),
{
    match e {
        AuthError::Unauthorized => WaferError::new(
            ErrorCode::Unauthenticated,
            "unauthorized".to_owned(),
        ),
        AuthError::Forbidden => WaferError::new(
            ErrorCode::PermissionDenied,
            "forbidden".to_owned(),
        ),
        AuthError::ProviderDown(m) => WaferError::new(ErrorCode::Unavailable, m),
        AuthError::NotFound => WaferError::new(ErrorCode::NotFound, "not found".to_owned()),
        AuthError::Internal(m) => WaferError::new(ErrorCode::Internal, m),
    }
}

/// A role as it is written.
pub open spec fn role_text(r: Role) -> Seq<char> {
    match r {
        Role::User => "user"@,
        Role::Admin => "admin"@,
    }
}

/// A role as it is written in an answer.
pub fn service_role_to_wire(r: &Role) -> (s: String)
    ensures
        s@ == role_text(*r),
{
    match r {
        Role::User => "user".to_owned(),
        Role::Admin => "admin".to_owned(),
    }
}

/// The role that a text stands for, in any case.
pub open spec fn role_of(text: Seq<char>) -> Option<Role> {
    if text::lower(text) == "admin"@ {
        Some(Role::Admin)
    } else if text::lower(text) == "user"@ {
        Some(Role::User)
    } else {
        None
    }
}

/// Reads the role that a request requires, in any case. Anything else, an
/// empty text among it, is refused.
pub fn parse_required_role(header: &str) -> (r: Result<Role, WaferError>)
    ensures
        match r {
            Ok(role) => role_of(header@) == Some(role),
            Err(e) => role_of(header@) is None && e.says(
                ErrorCode::InvalidArgument,
                "unknown role: "@ + header@,
            ),
        },
{
    let lower = text::to_ascii_lowercase(header);
    if text::same(lower.as_str(), "admin") {
        Ok(Role::Admin)
    } else if text::same(lower.as_str(), "user") {
        Ok(Role::User)
    } else {
        Err(invalid(text::join2("unknown role: ", header)))
    }
}

/// A role that was answered can be required again as it was written.
pub proof fn a_written_role_reads_back(r: Role)
    ensures
        role_of(role_text(r)) == Some(r),
{
    reveal_strlit("user");
    reveal_strlit("admin");
    assert(text::lower("user"@) =~= "user"@);
    assert(text::lower("admin"@) =~= "admin"@);
    assert("user"@.len() != "admin"@.len());
}

/// The scope that a text stands for; without one, the only scope there is.
pub open spec fn scope_of(text: Seq<char>) -> Option<TokenScope> {
    if text == ""@ || text == "publish"@ {
        Some(TokenScope::Publish)
    } else {
        None
    }
}

/// `w` is the profile `p` as it is answered.
pub open spec fn profile_answers(p: UserProfile, w: UserProfileResponse) -> bool {
    &&& w.id == p.id.0
    &&& w.email == p.email
    &&& w.display_name == p.display_name
    &&& w.avatar_url == p.avatar_url
    &&& w.role@ == role_text(p.role)
    &&& w.orgs == p.orgs
}

fn service_profile_to_wire(p: UserProfile) -> (r: UserProfileResponse)
    ensures
        profile_answers(p, r),
{
    UserProfileResponse {
        id: p.id.0,
        email: p.email,
        display_name: p.display_name,
        avatar_url: p.avatar_url,
        role: service_role_to_wire(&p.role),
        orgs: p.orgs,
    }
}

/// How a message starts.
pub open spec fn auth_starts(
    kind: Seq<char>,
    body: Body<AuthRequest>,
    r: Next<AuthCall, AuthWaiting, AuthResponse>,
) -> bool {
    match body {
        Body::Unknown => r matches Next::Refuse(e) && e.says(
            ErrorCode::Unimplemented,
            "unknown auth op: "@ + kind,
        ),
        Body::Malformed { op, why } => r matches Next::Refuse(e)
            && handler_util::refuses_malformed(e, op@, why@),
        Body::Request(AuthRequest::RequireUser) => r == Next::<
            AuthCall,
            AuthWaiting,
            AuthResponse,
        >::Ask(AuthCall::RequireUser, AuthWaiting::User),
        Body::Request(AuthRequest::RequireToken { scope }) => match scope_of(scope@) {
            Some(s) => r == Next::<AuthCall, AuthWaiting, AuthResponse>::Ask(
                AuthCall::RequireToken(s),
                AuthWaiting::User,
            ),
            None => r matches Next::Refuse(e) && e.says(
                ErrorCode::InvalidArgument,
                "unknown scope: "@ + scope@,
            ),
        },
        Body::Request(AuthRequest::RequireRole { role }) => match role_of(role@) {
            Some(s) => r == Next::<AuthCall, AuthWaiting, AuthResponse>::Ask(
                AuthCall::RequireRole(s),
                AuthWaiting::User,
            ),
            None => r matches Next::Refuse(e) && e.says(
                ErrorCode::InvalidArgument,
                "unknown role: "@ + role@,
            ),
        },
        Body::Request(AuthRequest::UserProfile { user_id }) => r == Next::<
            AuthCall,
            AuthWaiting,
            AuthResponse,
        >::Ask(AuthCall::UserProfile(UserId(user_id)), AuthWaiting::Profile),
    }
}

/// Starts to handle an auth message.
pub fn handle_message(kind: &str, body: Body<AuthRequest>) -> (r: Next<
    AuthCall,
    AuthWaiting,
    AuthResponse,
>)
    ensures
        auth_starts(kind@, body, r),
{
    match body {
        Body::Unknown => Next::Refuse(
            WaferError::new(ErrorCode::Unimplemented, text::join2("unknown auth op: ", kind)),
        ),
        Body::Malformed { op, why } => Next::Refuse(malformed(op.as_str(), why.as_str())),
        Body::Request(AuthRequest::RequireUser) => Next::Ask(
            AuthCall::RequireUser,
            AuthWaiting::User,
        ),
        Body::Request(AuthRequest::RequireToken { scope }) => {
            if text::same(scope.as_str(), "") || text::same(scope.as_str(), "publish") {
                Next::Ask(AuthCall::RequireToken(TokenScope::Publish), AuthWaiting::User)
            } else {
                Next::Refuse(invalid(text::join2("unknown scope: ", scope.as_str())))
            }
        },
        Body::Request(AuthRequest::RequireRole { role }) => match parse_required_role(
            role.as_str(),
        ) {
            Ok(role) => Next::Ask(AuthCall::RequireRole(role), AuthWaiting::User),
            Err(e) => Next::Refuse(e),
        },
        Body::Request(AuthRequest::UserProfile { user_id }) => Next::Ask(
            AuthCall::UserProfile(UserId(user_id)),
            AuthWaiting::Profile,
        ),
    }
}

/// What the service's reply leads to.
pub open spec fn auth_ends(
    waiting: AuthWaiting,
    reply: AuthReply,
    r: Next<AuthCall, AuthWaiting, AuthResponse>,
) -> bool {
    match (waiting, reply) {
        (AuthWaiting::User, AuthReply::User(Ok(u))) => r == Next::<
            AuthCall,
            AuthWaiting,
            AuthResponse,
        >::Respond(AuthResponse::UserId { user_id: u.0 }),
        (AuthWaiting::User, AuthReply::User(Err(e))) => r matches Next::Refuse(w) && w.says(
            error_answer(e).0,
            error_answer(e).1,
        ),
        (AuthWaiting::Profile, AuthReply::Profile(Ok(p))) => r matches Next::Respond(
            AuthResponse::Profile(w),
        ) && profile_answers(p, w),
        (AuthWaiting::Profile, AuthReply::Profile(Err(e))) => r matches Next::Refuse(w) && w.says(
            error_answer(e).0,
            error_answer(e).1,
        ),
        _ => r matches Next::Refuse(w) && handler_util::is_misfit(w),
    }
}

impl AuthWaiting {
    /// Goes on with the service's reply.
    pub fn resume(self, reply: AuthReply) -> (r: Next<AuthCall, AuthWaiting, AuthResponse>)
        ensures
            auth_ends(self, reply, r),
    {
        match (self, reply) {
            (AuthWaiting::User, AuthReply::User(Ok(u))) => Next::Respond(
                AuthResponse::UserId { user_id: u.0 },
            ),
            (AuthWaiting::User, AuthReply::User(Err(e))) => Next::Refuse(err_to_wafer(e)),
            (AuthWaiting::Profile, AuthReply::Profile(Ok(p))) => Next::Respond(
                AuthResponse::Profile(service_profile_to_wire(p)),
            ),
            (AuthWaiting::Profile, AuthReply::Profile(Err(e))) => Next::Refuse(err_to_wafer(e)),
            _ => Next::Refuse(misfit()),
        }
    }
}

/// A role that is not understood reaches no service: it is refused.
pub proof fn unknown_roles_are_refused(
    kind: Seq<char>,
    role: String,
    r: Next<AuthCall, AuthWaiting, AuthResponse>,
)
    requires
        auth_starts(kind, Body::Request(AuthRequest::RequireRole { role }), r),
        role_of(role@) is None,
    ensures
        r is Refuse,
{
}

/// The service is asked for exactly what the request requires: an
/// administrator where it says so in whatever case, a user where it says that,
/// the right to publish where it names it or names nothing, any user where it
/// requires no more, and the profile of the very user it names.
pub proof fn the_service_is_asked_for_what_is_required(
    kind: Seq<char>,
    request: AuthRequest,
    r: Next<AuthCall, AuthWaiting, AuthResponse>,
)
    requires
        auth_starts(kind, Body::Request(request), r),
    ensures
        !(r is Respond),
        match request {
            AuthRequest::RequireUser => r is Ask && r->Ask_0 is RequireUser && r->Ask_1 is User,
            AuthRequest::RequireToken { scope } => {
                &&& r is Ask <==> (scope@.len() == 0 || scope@ == "publish"@)
                &&& r is Ask ==> r->Ask_0 == AuthCall::RequireToken(TokenScope::Publish)
                    && r->Ask_1 is User
                &&& r is Refuse ==> r->Refuse_0.code == ErrorCode::InvalidArgument
            },
            AuthRequest::RequireRole { role } => {
                &&& text::lower(role@) == "admin"@ ==> r is Ask && r->Ask_0
                    == AuthCall::RequireRole(Role::Admin)
                &&& text::lower(role@) == "user"@ ==> r is Ask && r->Ask_0
                    == AuthCall::RequireRole(Role::User)
                &&& text::lower(role@) != "admin"@ && text::lower(role@) != "user"@ ==> r is Refuse
                    && r->Refuse_0.code == ErrorCode::InvalidArgument
                &&& r is Ask ==> r->Ask_1 is User
            },
            AuthRequest::UserProfile { user_id } => r is Ask && (
            r->Ask_0 matches AuthCall::UserProfile(u) && u.0@ == user_id@) && r->Ask_1 is Profile,
        },
{
    reveal_strlit("");
    reveal_strlit("user");
    reveal_strlit("admin");
    assert("user"@.len() != "admin"@.len());
    if let AuthRequest::RequireToken { scope } = request {
        if scope@.len() == 0 {
            assert(scope@ =~= ""@);
        }
    }
}

/// Who a request comes from is answered only where the service said so, and as
/// it said it. A missing credential, one that is not enough, an unknown user, a
/// provider that failed and any other failure each have a code of their own.
pub proof fn only_what_the_service_said_is_answered(
    waiting: AuthWaiting,
    reply: AuthReply,
    r: Next<AuthCall, AuthWaiting, AuthResponse>,
)
    requires
        auth_ends(waiting, reply, r),
    ensures
        !(r is Ask),
        r matches Next::Respond(AuthResponse::UserId { user_id }) ==> waiting is User && (
        reply matches AuthReply::User(Ok(u)) && u.0 == user_id),
        r matches Next::Respond(AuthResponse::Profile(w)) ==> waiting is Profile && (
        reply matches AuthReply::Profile(Ok(p)) && w.id@ == p.id.0@ && w.email@ == p.email@
            && w.display_name@ == p.display_name@ && w.avatar_url == p.avatar_url && w.orgs == p.orgs
            && (w.role@ == "admin"@ <==> p.role == Role::Admin) && (w.role@ == "user"@ <==> p.role
            == Role::User)),
        waiting is User && reply is User && reply->User_0 is Ok ==> r is Respond,
        waiting is Profile && reply is Profile && reply->Profile_0 is Ok ==> r is Respond,
        waiting is User && (reply matches AuthReply::User(Err(e)) && (e is Unauthorized ==> r is Refuse
            && r->Refuse_0.code == ErrorCode::Unauthenticated) && (e is Forbidden ==> r is Refuse
            && r->Refuse_0.code == ErrorCode::PermissionDenied) && (e is ProviderDown ==> r is Refuse
            && r->Refuse_0.code == ErrorCode::Unavailable) && (e is NotFound ==> r is Refuse
            && r->Refuse_0.code == ErrorCode::NotFound) && (e is Internal ==> r is Refuse
            && r->Refuse_0.code == ErrorCode::Internal)) || !(waiting is User && reply is User
            && reply->User_0 is Err),
{
    reveal_strlit("user");
    reveal_strlit("admin");
    assert("user"@.len() != "admin"@.len());
}

} // verus!
