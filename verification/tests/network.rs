use wafer_core::error::{ErrorCode, WaferError};
use wafer_core::handler_util::{Body, Next};
use wafer_core::json::{Json, RealNumber};
use wafer_core::network::handler::{
    handle_message, network_error_to_wafer, response_frames, Final, Frame, NetworkAsk, NetworkTold,
    NetworkWaiting, MAX_REDIRECT_HOPS,
};
use wafer_core::network::redirect::redirect_request;
use wafer_core::network::service::{
    NetworkError, NetworkLimits, Request, ResponseHead, CONNECT_TIMEOUT_SECS_KEY,
    MAX_RESPONSE_BYTES_KEY, READ_TIMEOUT_SECS_KEY, REQUEST_TIMEOUT_SECS_KEY,
    STREAM_TIMEOUT_SECS_KEY,
};
use wafer_core::row::Row;

fn config(entries: &[(&str, Json)]) -> Row {
    let mut row = Row::new();
    for (k, v) in entries {
        row.insert(k.to_string(), v.clone());
    }
    row
}

fn text(s: &str) -> Json {
    Json::Str(s.to_string())
}

#[test]
fn limits_read_from_the_init_config() {
    assert_eq!(
        NetworkLimits::from_config(&config(&[])).unwrap(),
        NetworkLimits::default()
    );
    assert_eq!(
        NetworkLimits::from_config(&config(&[
            (MAX_RESPONSE_BYTES_KEY, text("1234")),
            (CONNECT_TIMEOUT_SECS_KEY, Json::Int(3)),
            (READ_TIMEOUT_SECS_KEY, text("4")),
            (REQUEST_TIMEOUT_SECS_KEY, text("5")),
            (STREAM_TIMEOUT_SECS_KEY, text("6")),
        ]))
        .unwrap(),
        NetworkLimits {
            max_response_bytes: 1234,
            connect_timeout: 3,
            read_timeout: 4,
            request_timeout: 5,
            stream_timeout: Some(6),
        }
    );
    assert_eq!(
        NetworkLimits::from_config(&config(&[(STREAM_TIMEOUT_SECS_KEY, text(""))]))
            .unwrap()
            .stream_timeout,
        None
    );

    for key in [
        MAX_RESPONSE_BYTES_KEY,
        CONNECT_TIMEOUT_SECS_KEY,
        READ_TIMEOUT_SECS_KEY,
        REQUEST_TIMEOUT_SECS_KEY,
        STREAM_TIMEOUT_SECS_KEY,
    ] {
        for invalid in ["not-a-number", "0", "-5", "12.5", ""] {
            if invalid.is_empty() && key == STREAM_TIMEOUT_SECS_KEY {
                continue;
            }
            let err = NetworkLimits::from_config(&config(&[(key, text(invalid))]))
                .expect_err("a present-but-invalid value must fail");
            let msg = err.to_string();
            assert!(
                msg.contains(key) && msg.contains(&format!("{invalid:?}")),
                "the error must name the key and the offending value, got: {msg}"
            );
        }
        assert!(
            NetworkLimits::from_config(&config(&[(key, Json::Int(0))])).is_err(),
            "{key}: a numeric 0 must fail too"
        );
    }
}

#[test]
fn limits_take_null_as_unset_and_large_numbers_as_they_are() {
    let limits = NetworkLimits::from_config(&config(&[
        (READ_TIMEOUT_SECS_KEY, Json::Null),
        (
            CONNECT_TIMEOUT_SECS_KEY,
            Json::Real(RealNumber {
                text: "18446744073709551615".into(),
                display: "18446744073709552000".into(),
                truncated: i64::MAX,
                unsigned: Some(u64::MAX),
                bits: (u64::MAX as f64).to_bits(),
            }),
        ),
    ]))
    .unwrap();
    assert_eq!(limits.read_timeout, 30);
    assert_eq!(limits.connect_timeout, u64::MAX);
    assert_eq!(limits.max_response_bytes, 50 * 1024 * 1024);
    let err = NetworkLimits::from_config(&config(&[(READ_TIMEOUT_SECS_KEY, Json::Bool(true))]))
        .unwrap_err();
    assert_eq!(
        err.to_string(),
        "WAFER_RUN__NETWORK__READ_TIMEOUT_SECS=true is invalid: expected a positive integer \
         (unset it to use the default)"
    );
}

#[test]
fn network_error_display_matches_variant() {
    assert_eq!(
        NetworkError::RequestError("connection refused".into()).to_string(),
        "request error: connection refused"
    );
    assert_eq!(
        NetworkError::Other("backend boom".into()).to_string(),
        "backend boom"
    );
}

#[test]
fn network_error_maps_to_unavailable_and_internal() {
    assert_eq!(
        network_error_to_wafer(NetworkError::RequestError("timeout".into())).code,
        ErrorCode::Unavailable,
    );
    assert_eq!(
        network_error_to_wafer(NetworkError::Other("boom".into())).code,
        ErrorCode::Internal,
    );
}

fn post_with_credentials(url: &str) -> Request {
    Request {
        method: "POST".into(),
        url: url.into(),
        headers: vec![
            ("Authorization".to_string(), "Bearer t".to_string()),
            ("Cookie".to_string(), "s=1".to_string()),
            ("Content-Type".to_string(), "application/json".to_string()),
            ("X-Trace".to_string(), "abc".to_string()),
        ],
        body: Some(b"{}".to_vec()),
    }
}

fn location(to: &str) -> Vec<(String, Vec<String>)> {
    vec![("Location".to_string(), vec![to.to_string()])]
}

fn has(request: &Request, name: &str) -> bool {
    request.headers.iter().any(|(n, _)| n == name)
}

#[test]
fn redirect_request_rewrites_method_and_body_by_status() {
    let prev = post_with_credentials("https://a.example/x");
    for status in [301, 302, 303] {
        let next = redirect_request(&prev, status, &location("/y")).expect("followed");
        assert_eq!(next.method, "GET", "{status}");
        assert_eq!(next.body, None, "{status}");
        assert!(!has(&next, "Content-Type"), "{status}");
        assert_eq!(next.url, "https://a.example/y");
    }
    for status in [307, 308] {
        let next = redirect_request(&prev, status, &location("/y")).expect("followed");
        assert_eq!(next.method, "POST", "{status}");
        assert_eq!(next.body.as_deref(), Some(&b"{}"[..]), "{status}");
        assert!(has(&next, "Content-Type"), "{status}");
    }
    let head = Request {
        method: "HEAD".into(),
        ..prev
    };
    assert_eq!(
        redirect_request(&head, 303, &location("/y"))
            .unwrap()
            .method,
        "HEAD"
    );
}

#[test]
fn redirect_request_keeps_credentials_only_within_the_origin() {
    let prev = post_with_credentials("https://a.example/x");
    let same = redirect_request(&prev, 307, &location("/y")).unwrap();
    assert!(has(&same, "Authorization"));
    assert!(has(&same, "Cookie"));
    for other in [
        "https://b.example/y",
        "http://a.example/y",
        "https://a.example:8443/y",
    ] {
        let next = redirect_request(&prev, 307, &location(other)).unwrap();
        assert!(!has(&next, "Authorization"), "{other}");
        assert!(!has(&next, "Cookie"), "{other}");
        assert!(has(&next, "X-Trace"), "{other}");
    }
}

#[test]
fn redirect_request_leaves_other_responses_final() {
    let prev = post_with_credentials("https://a.example/x");
    assert!(redirect_request(&prev, 200, &location("/y")).is_none());
    assert!(redirect_request(&prev, 304, &location("/y")).is_none());
    assert!(redirect_request(&prev, 302, &Vec::new()).is_none());
    let two = vec![("location".to_string(), vec!["/y".to_string(), "/z".to_string()])];
    assert!(redirect_request(&prev, 302, &two).is_none());
    assert!(redirect_request(&prev, 302, &location("http://[::1")).is_none());
}

#[test]
fn an_origin_without_a_host_is_never_the_same() {
    let prev = post_with_credentials("data:text/plain,x");
    let next = redirect_request(&prev, 307, &location("data:text/plain,x")).unwrap();
    assert!(!has(&next, "Authorization"));
    assert!(redirect_request(&post_with_credentials("not a url"), 307, &location("/y")).is_none());
}

fn get(url: &str) -> Request {
    Request { method: "GET".into(), url: url.into(), headers: Vec::new(), body: None }
}

fn head(status_code: u16, headers: Vec<(String, Vec<String>)>) -> ResponseHead {
    ResponseHead { status_code, headers }
}

/// Runs a chain: `allowed` decides on a URL, `redirects` answers it. Gives the
/// URLs that were requested and how the chain ended.
fn run(
    url: &str,
    allowed: impl Fn(&str) -> bool,
    redirects: &[(&str, u16, &str)],
) -> (Vec<String>, Result<Final, WaferError>) {
    let mut issued = Vec::new();
    let mut next = handle_message("network.do", Body::Request(get(url)));
    loop {
        next = match next {
            Next::Ask(NetworkAsk::Authorize { url }, w) => w.resume(NetworkTold::Authorized(
                if allowed(&url) {
                    Ok(())
                } else {
                    Err(WaferError::new(ErrorCode::PermissionDenied, "denied".into()))
                },
            )),
            Next::Ask(NetworkAsk::Issue, w) => {
                let NetworkWaiting::Issuing { request, .. } = &w else {
                    panic!("{w:?}")
                };
                let url = request.url.clone();
                let answer = match redirects.iter().find(|(from, _, _)| *from == url) {
                    Some((_, status, to)) => head(*status, location(to)),
                    None => head(200, Vec::new()),
                };
                issued.push(url);
                w.resume(NetworkTold::Responded(Ok(answer)))
            }
            Next::Respond(done) => return (issued, Ok(done)),
            Next::Refuse(e) => return (issued, Err(e)),
        };
    }
}

#[test]
fn redirect_outside_the_grant_is_denied_before_it_is_issued() {
    let (issued, end) = run(
        "https://api.example/v1/start",
        |url| url.starts_with("https://api.example/v1"),
        &[("https://api.example/v1/start", 302, "https://internal.example/secret")],
    );
    assert_eq!(end.unwrap_err().code, ErrorCode::PermissionDenied);
    assert_eq!(issued, ["https://api.example/v1/start"]);
}

#[test]
fn redirect_inside_the_grant_is_followed() {
    let (issued, end) = run(
        "https://api.example/v1/a",
        |url| url.starts_with("https://api.example/v1"),
        &[
            ("https://api.example/v1/a", 301, "https://api.example/v1/b"),
            ("https://api.example/v1/b", 307, "c"),
        ],
    );
    assert_eq!(end.unwrap().head.status_code, 200);
    assert_eq!(
        issued,
        [
            "https://api.example/v1/a",
            "https://api.example/v1/b",
            "https://api.example/v1/c"
        ]
    );
}

#[test]
fn redirect_loop_stops_at_the_hop_limit() {
    let (issued, end) = run(
        "https://api.example/loop",
        |_| true,
        &[("https://api.example/loop", 302, "/loop")],
    );
    let e = end.unwrap_err();
    assert_eq!(e.code, ErrorCode::Unavailable);
    assert_eq!(e.message, "too many redirects (limit 10)");
    assert_eq!(issued.len(), MAX_REDIRECT_HOPS + 1);
}

#[test]
fn buffered_deadline_bounds_the_whole_redirect_chain() {
    let redirects = [
        ("https://api.example/1", "/2"),
        ("https://api.example/2", "/3"),
        ("https://api.example/3", "/4"),
        ("https://api.example/4", "/5"),
    ];
    let (mut elapsed, mut issued) = (0, vec![]);
    let mut next = handle_message("network.do", Body::Request(get("https://api.example/1")));
    let error = loop {
        next = match next {
            Next::Ask(NetworkAsk::Authorize { .. }, w) => w.resume(NetworkTold::Authorized(Ok(()))),
            Next::Ask(NetworkAsk::Issue, w) => {
                let NetworkWaiting::Issuing { request, .. } = &w else {
                    panic!("{w:?}")
                };
                let url = request.url.clone();
                let to = redirects.iter().find(|(from, _)| *from == url).unwrap().1;
                issued.push(url);
                elapsed += 40;
                w.resume(if elapsed > 100 {
                    NetworkTold::TimedOut
                } else {
                    NetworkTold::Responded(Ok(head(302, location(to))))
                })
            }
            Next::Respond(done) => panic!("{done:?}"),
            Next::Refuse(e) => break e,
        };
    };
    assert_eq!(error.code, ErrorCode::Unavailable);
    assert_eq!(
        error.message,
        "request timed out (the total covers every redirect hop)"
    );
    assert!(
        issued.len() < 5,
        "the chain must stop at the deadline, issued: {issued:?}"
    );
}

#[test]
fn empty_body_yields_single_header_frame() {
    assert_eq!(
        response_frames(Ok(vec![1]), Vec::new()),
        [Frame::Chunk(vec![1]), Frame::Marker, Frame::Complete]
    );
}

#[test]
fn non_empty_body_yields_header_and_body_frames() {
    assert_eq!(
        response_frames(Ok(vec![1]), b"hello".to_vec()),
        [
            Frame::Chunk(vec![1]),
            Frame::Marker,
            Frame::Chunk(b"hello".to_vec()),
            Frame::Complete
        ]
    );
    match response_frames(Err("bad".into()), Vec::new()).as_slice() {
        [Frame::Error(e)] => {
            assert_eq!(e.code, ErrorCode::Internal);
            assert_eq!(e.message, "encoding network response header: bad");
        }
        other => panic!("{other:?}"),
    }
}

#[test]
fn unknown_operation_is_unimplemented() {
    match handle_message("network.bogus", Body::Unknown) {
        Next::Refuse(e) => {
            assert_eq!(e.code, ErrorCode::Unimplemented);
            assert_eq!(e.message, "unknown network operation: network.bogus");
        }
        other => panic!("{other:?}"),
    }
}

#[test]
fn a_stream_is_authorized_as_a_whole_response_is() {
    let request = || Request {
        method: "GET".into(),
        url: "https://example.com/a".into(),
        headers: vec![],
        body: None,
    };
    let whole = handle_message("network.do", Body::Request(request()));
    let stream = handle_message("network.do_stream", Body::Request(request()));
    assert_eq!(format!("{whole:?}"), format!("{stream:?}"));
    assert!(matches!(
        stream,
        Next::Ask(NetworkAsk::Authorize { url }, _) if url == "https://example.com/a"
    ));
}
