use wafer_core::auth::handler::{
    err_to_wafer, fail_closed, no_org_admin, handle_message, parse_required_role, service_role_to_wire, AuthCall, AuthReply,
    AuthRequest, AuthResponse, AuthWaiting,
};
use wafer_core::auth::service::{AuthError, OrgSummary, Role, TokenScope, UserId, UserProfile};
use wafer_core::error::ErrorCode;
use wafer_core::handler_util::{Body, Next};

#[test]
fn require_role_rejects_unknown_role_header_instead_of_defaulting_to_user() {
    let err = parse_required_role("Superuser")
        .expect_err("unknown role must be InvalidArgument, not Role::User");
    assert_eq!(err.code, ErrorCode::InvalidArgument);
    assert_eq!(err.message, "unknown role: Superuser");
}

#[test]
fn require_role_is_case_insensitive_for_admin() {
    assert_eq!(parse_required_role("Admin").unwrap(), Role::Admin);
    assert_eq!(parse_required_role("admin").unwrap(), Role::Admin);
    assert_eq!(parse_required_role("ADMIN").unwrap(), Role::Admin);
}

#[test]
fn require_role_is_case_insensitive_for_user() {
    assert_eq!(parse_required_role("User").unwrap(), Role::User);
    assert_eq!(parse_required_role("user").unwrap(), Role::User);
}

#[test]
fn require_role_rejects_empty_header() {
    let err = parse_required_role("")
        .expect_err("missing role header must be InvalidArgument, not a default role");
    assert_eq!(err.code, ErrorCode::InvalidArgument);
}

#[test]
fn service_role_to_wire_uses_canonical_lowercase() {
    assert_eq!(service_role_to_wire(&Role::Admin), "admin");
    assert_eq!(service_role_to_wire(&Role::User), "user");
    assert_eq!(
        parse_required_role(&service_role_to_wire(&Role::Admin)).unwrap(),
        Role::Admin
    );
    assert_eq!(
        parse_required_role(&service_role_to_wire(&Role::User)).unwrap(),
        Role::User
    );
}

#[test]
fn trait_is_object_safe() {
    let id = UserId("u1".to_string());
    assert_eq!(id, UserId("u1".to_string()));
    assert!(matches!(Role::Admin, Role::Admin));
    assert!(matches!(TokenScope::Publish, TokenScope::Publish));
    assert_eq!(AuthError::Unauthorized.to_string(), "unauthorized");
    assert_eq!(AuthError::Forbidden.to_string(), "forbidden");
    assert_eq!(AuthError::ProviderDown("x".into()).to_string(), "provider down: x");
    assert_eq!(AuthError::NotFound.to_string(), "not found");
    assert_eq!(AuthError::Internal("y".into()).to_string(), "y");
}

#[test]
fn auth_errors_answer_with_their_codes() {
    for (error, code, message) in [
        (AuthError::Unauthorized, ErrorCode::Unauthenticated, "unauthorized"),
        (AuthError::Forbidden, ErrorCode::PermissionDenied, "forbidden"),
        (AuthError::ProviderDown("p".into()), ErrorCode::Unavailable, "p"),
        (AuthError::NotFound, ErrorCode::NotFound, "not found"),
        (AuthError::Internal("i".into()), ErrorCode::Internal, "i"),
    ] {
        let w = err_to_wafer(error);
        assert_eq!(w.code, code);
        assert_eq!(w.message, message);
    }
}

#[test]
fn a_scope_is_publish_or_refused() {
    for scope in ["", "publish"] {
        match handle_message("auth.require_token", Body::Request(AuthRequest::RequireToken { scope: scope.into() })) {
            Next::Ask(AuthCall::RequireToken(TokenScope::Publish), AuthWaiting::User) => {}
            other => panic!("{scope:?}: {other:?}"),
        }
    }
    match handle_message("auth.require_token", Body::Request(AuthRequest::RequireToken { scope: "read".into() })) {
        Next::Refuse(e) => {
            assert_eq!(e.code, ErrorCode::InvalidArgument);
            assert_eq!(e.message, "unknown scope: read");
        }
        other => panic!("{other:?}"),
    }
}

#[test]
fn a_profile_is_answered_whole() {
    let waiting = match handle_message(
        "auth.user_profile",
        Body::Request(AuthRequest::UserProfile { user_id: "u1".into() }),
    ) {
        Next::Ask(AuthCall::UserProfile(UserId(id)), w) => {
            assert_eq!(id, "u1");
            w
        }
        other => panic!("{other:?}"),
    };
    let profile = UserProfile {
        id: UserId("u1".into()),
        email: "a@b".into(),
        display_name: "A".into(),
        avatar_url: None,
        role: Role::Admin,
        orgs: vec![OrgSummary {
            name: "o".into(),
            verified_via: None,
            verified_ref: None,
            is_reserved: true,
        }],
    };
    match waiting.resume(AuthReply::Profile(Ok(profile))) {
        Next::Respond(AuthResponse::Profile(p)) => {
            assert_eq!(p.id, "u1");
            assert_eq!(p.role, "admin");
            assert_eq!(p.orgs.len(), 1);
        }
        other => panic!("{other:?}"),
    }
    match AuthWaiting::User.resume(AuthReply::User(Err(AuthError::Forbidden))) {
        Next::Refuse(e) => assert_eq!(e.code, ErrorCode::PermissionDenied),
        other => panic!("{other:?}"),
    }
    match AuthWaiting::User.resume(AuthReply::Profile(Err(AuthError::NotFound))) {
        Next::Refuse(e) => assert_eq!(e.code, ErrorCode::Internal),
        other => panic!("{other:?}"),
    }
}

#[test]
fn auth_refuses_what_it_does_not_know() {
    match handle_message("auth.nope", Body::Unknown) {
        Next::Refuse(e) => {
            assert_eq!(e.code, ErrorCode::Unimplemented);
            assert_eq!(e.message, "unknown auth op: auth.nope");
        }
        other => panic!("{other:?}"),
    }
    match handle_message(
        "auth.user_profile",
        Body::Malformed { op: "auth.user_profile".into(), why: "eof".into() },
    ) {
        Next::Refuse(e) => {
            assert_eq!(e.code, ErrorCode::InvalidArgument);
            assert_eq!(e.message, "invalid auth.user_profile request: eof");
        }
        other => panic!("{other:?}"),
    }
}

#[test]
fn a_service_without_authentication_admits_nobody() {
    for call in [
        AuthCall::RequireUser,
        AuthCall::RequireToken(TokenScope::Publish),
        AuthCall::RequireRole(Role::User),
    ] {
        assert!(matches!(
            fail_closed(&call),
            AuthReply::User(Err(AuthError::Unauthorized))
        ));
    }
    assert!(matches!(
        fail_closed(&AuthCall::UserProfile(UserId("u".into()))),
        AuthReply::Profile(Err(AuthError::NotFound))
    ));
}

#[test]
fn nobody_acts_for_an_organization_unless_a_service_says_so() {
    assert_eq!(no_org_admin(), Ok(false));
}
