use wafer_core::config::handler as config;
use wafer_core::config::handler::{
    ConfigAsk, ConfigRequest, ConfigResponse, ConfigTold, ConfigWaiting,
};
use wafer_core::config::service::ConfigService;
use wafer_core::crypto::handler as crypto;
use wafer_core::crypto::handler::{
    CryptoAsk, CryptoCall, CryptoRequest, CryptoResponse, CryptoTold, CryptoWaiting,
};
use wafer_core::crypto::service::CryptoError;
use wafer_core::error::{ErrorCode, WaferError};
use wafer_core::handler_util::{Body, Next, ResourceAccess};
use wafer_core::row::Row;

struct OneKey;

impl ConfigService for OneKey {
    fn get(&self, key: &str) -> Option<String> {
        if key == "k" {
            Some("v".to_string())
        } else {
            None
        }
    }

    fn set(&self, _key: &str, _value: &str) {}
}

#[test]
fn a_missing_key_has_the_default() {
    assert_eq!(OneKey.get_default("k", "d"), "v");
    assert_eq!(OneKey.get_default("other", "d"), "d");
}

#[test]
fn config_get_authorizes_then_reads() {
    let waiting = match config::handle_message(
        "config.get",
        Body::Request(ConfigRequest::Get { key: "k".into() }),
    ) {
        Next::Ask(ConfigAsk::Authorize { key, access }, w) => {
            assert_eq!(key, "k");
            assert_eq!(access, ResourceAccess::Read);
            w
        }
        other => panic!("{other:?}"),
    };
    let waiting = match waiting.resume(ConfigTold::Authorized(Ok(()))) {
        Next::Ask(ConfigAsk::Get { key }, w) => {
            assert_eq!(key, "k");
            w
        }
        other => panic!("{other:?}"),
    };
    match waiting.resume(ConfigTold::Value(None)) {
        Next::Refuse(e) => {
            assert_eq!(e.code, ErrorCode::NotFound);
            assert_eq!(e.message, "config key not found: k");
        }
        other => panic!("{other:?}"),
    }
    match (ConfigWaiting::Getting { key: "k".into() }).resume(ConfigTold::Value(Some("v".into()))) {
        Next::Respond(ConfigResponse::Value { value }) => assert_eq!(value, "v"),
        other => panic!("{other:?}"),
    }
}

#[test]
fn config_put_writes_only_when_authorized() {
    let start = || match config::handle_message(
        "config.set",
        Body::Request(ConfigRequest::Put { key: "k".into(), value: "v".into() }),
    ) {
        Next::Ask(ConfigAsk::Authorize { key, access }, w) => {
            assert_eq!(key, "k");
            assert_eq!(access, ResourceAccess::Write);
            w
        }
        other => panic!("{other:?}"),
    };
    let denied = WaferError::new(ErrorCode::PermissionDenied, "no".into());
    match start().resume(ConfigTold::Authorized(Err(denied))) {
        Next::Refuse(e) => assert_eq!(e.code, ErrorCode::PermissionDenied),
        other => panic!("{other:?}"),
    }
    match start().resume(ConfigTold::Authorized(Ok(()))) {
        Next::Ask(ConfigAsk::Put { key, value }, w) => {
            assert_eq!((key.as_str(), value.as_str()), ("k", "v"));
            assert!(matches!(w.resume(ConfigTold::Stored), Next::Respond(ConfigResponse::Empty)));
        }
        other => panic!("{other:?}"),
    }
    match config::handle_message("config.x", Body::Unknown) {
        Next::Refuse(e) => assert_eq!(e.message, "unknown config operation: config.x"),
        other => panic!("{other:?}"),
    }
}

fn authorized(caller: Option<&str>, request: CryptoRequest) -> Next<CryptoAsk, CryptoWaiting, CryptoResponse> {
    match crypto::handle_message("k", caller.map(str::to_string), Body::Request(request)) {
        Next::Ask(CryptoAsk::Authorize { .. }, w) => w.resume(CryptoTold::Authorized(Ok(()))),
        other => panic!("{other:?}"),
    }
}

#[test]
fn each_crypto_operation_is_its_own_resource() {
    for (request, name) in [
        (CryptoRequest::Hash { password: "p".into() }, "hash"),
        (
            CryptoRequest::CompareHash { password: "p".into(), hash: "h".into() },
            "compare_hash",
        ),
        (CryptoRequest::Sign { claims: Row::new(), expiry_secs: 1 }, "sign"),
        (CryptoRequest::Verify { token: "t".into() }, "verify"),
        (CryptoRequest::RandomBytes { n: 1 }, "random_bytes"),
    ] {
        match crypto::handle_message("k", None, Body::Request(request)) {
            Next::Ask(CryptoAsk::Authorize { resource }, _) => assert_eq!(resource, name),
            other => panic!("{other:?}"),
        }
    }
}

#[test]
fn tokens_are_keyed_by_the_caller() {
    match authorized(None, CryptoRequest::Sign { claims: Row::new(), expiry_secs: 60 }) {
        Next::Refuse(e) => {
            assert_eq!(e.code, ErrorCode::PermissionDenied);
            assert_eq!(
                e.message,
                "crypto.sign needs a calling block: tokens are signed under the caller's derived key"
            );
        }
        other => panic!("{other:?}"),
    }
    match authorized(None, CryptoRequest::Verify { token: "t".into() }) {
        Next::Refuse(e) => assert!(e.message.starts_with("crypto.verify needs a calling block")),
        other => panic!("{other:?}"),
    }
    match authorized(Some("a/b"), CryptoRequest::Sign { claims: Row::new(), expiry_secs: 60 }) {
        Next::Ask(CryptoAsk::Call(CryptoCall::SignFor { block_id, expiry_secs, .. }), _) => {
            assert_eq!(block_id, "a/b");
            assert_eq!(expiry_secs, 60);
        }
        other => panic!("{other:?}"),
    }
}

#[test]
fn random_bytes_are_bounded() {
    match authorized(None, CryptoRequest::RandomBytes { n: 1_048_577 }) {
        Next::Refuse(e) => {
            assert_eq!(e.code, ErrorCode::InvalidArgument);
            assert_eq!(e.message, "random_bytes n=1048577 exceeds maximum of 1048576");
        }
        other => panic!("{other:?}"),
    }
    assert!(matches!(
        authorized(None, CryptoRequest::RandomBytes { n: 1_048_576 }),
        Next::Ask(CryptoAsk::Call(CryptoCall::RandomBytes { n: 1_048_576 }), CryptoWaiting::Drawing)
    ));
}

#[test]
fn a_wrong_password_is_an_answer_and_a_broken_hash_an_error() {
    assert!(matches!(
        CryptoWaiting::Comparing.resume(CryptoTold::Compared(Ok(()))),
        Next::Respond(CryptoResponse::CompareHash { matches: true })
    ));
    assert!(matches!(
        CryptoWaiting::Comparing.resume(CryptoTold::Compared(Err(CryptoError::PasswordMismatch))),
        Next::Respond(CryptoResponse::CompareHash { matches: false })
    ));
    match CryptoWaiting::Comparing
        .resume(CryptoTold::Compared(Err(CryptoError::MalformedHash("bad".into()))))
    {
        Next::Refuse(e) => {
            assert_eq!(e.code, ErrorCode::Internal);
            assert_eq!(e.message, "malformed password hash: bad");
        }
        other => panic!("{other:?}"),
    }
}

#[test]
fn crypto_errors_answer_with_their_codes() {
    for (error, code, message, said) in [
        (CryptoError::HashError("m".into()), ErrorCode::Internal, "m", "hash error: m"),
        (
            CryptoError::PasswordMismatch,
            ErrorCode::Unauthenticated,
            "password mismatch",
            "password mismatch",
        ),
        (CryptoError::SignError("m".into()), ErrorCode::Internal, "m", "sign error: m"),
        (CryptoError::VerifyError("m".into()), ErrorCode::Unauthenticated, "m", "verify error: m"),
        (CryptoError::Other("m".into()), ErrorCode::Internal, "m", "m"),
    ] {
        assert_eq!(error.to_string(), said);
        let w = crypto::crypto_error_to_wafer(error);
        assert_eq!(w.code, code);
        assert_eq!(w.message, message);
    }
}
