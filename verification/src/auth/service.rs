//! Users, roles and what can go wrong in finding out about them.

use vstd::prelude::*;

use crate::text;

verus! {

/// An opaque user identifier.
#[derive(Debug, Clone, PartialEq, Eq, Hash)]
pub struct UserId(pub String);

/// The role of a user's account.
#[derive(Debug, Clone, Copy, PartialEq, Eq, Structural)]
pub enum Role {
    /// A user without further rights.
    User,
    /// An administrator.
    Admin,
}

/// What a personal access token must permit.
#[derive(Debug, Clone, Copy, PartialEq, Eq, Structural)]
pub enum TokenScope {
    /// To publish in the user's name.
    Publish,
}

/// An organization that a user belongs to.
#[derive(Debug, Clone, PartialEq, Eq)]
pub struct OrgSummary {
    pub name: String,
    /// The identity provider that verified its ownership, if one did.
    pub verified_via: Option<String>,
    /// What that provider calls it.
    pub verified_ref: Option<String>,
    /// Only administrators may act on a reserved organization.
    pub is_reserved: bool,
}

/// All that is known of a user.
#[derive(Debug, Clone, PartialEq, Eq)]
pub struct UserProfile {
    pub id: UserId,
    pub email: String,
    pub display_name: String,
    pub avatar_url: Option<String>,
    pub role: Role,
    pub orgs: Vec<OrgSummary>,
}

/// Why a user could not be found out about.
#[derive(Debug, PartialEq, Eq)]
pub enum AuthError {
    /// The request carries no valid credential.
    Unauthorized,
    /// The credential is valid, but not for this.
    Forbidden,
    /// The identity provider failed or could not be reached.
    ProviderDown(String),
    /// There is no such user.
    NotFound,
    /// Any other failure.
    Internal(String),
}

impl AuthError {
    /// What this error says.
    pub open spec fn rendering(&self) -> Seq<char> {
        match self {
            AuthError::Unauthorized => "unauthorized"@,
            AuthError::Forbidden => "forbidden"@,
            AuthError::ProviderDown(m) => "provider down: "@ + m@,
            AuthError::NotFound => "not found"@,
            AuthError::Internal(m) => m@,
        }
    }

    /// What this error says.
    pub fn to_string(&self) -> (r: String)
        ensures
            r@ == self.rendering(),
    {
        match self {
            AuthError::Unauthorized => "unauthorized".to_owned(),
            AuthError::Forbidden => "forbidden".to_owned(),
            AuthError::ProviderDown(m) => text::join2("provider down: ", m.as_str()),
            AuthError::NotFound => "not found".to_owned(),
            AuthError::Internal(m) => m.clone(),
        }
    }
}

} // verus!
