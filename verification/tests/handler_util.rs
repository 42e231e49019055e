use wafer_core::error::{ErrorCode, WaferError};
use wafer_core::handler_util::{
    decode_and_authorize, item_encoded, stream_body, stream_sent, stream_with_header, to_output,
    BodyRead, Reply, StreamAction, StreamEvent, StreamStage,
};

#[test]
fn allow_ctx_returns_decoded_request() {
    let gate = decode_and_authorize(Ok(("widgets".to_string(), 7)), "test.op").unwrap();
    assert_eq!(gate.peek().0, "widgets");
    assert_eq!(gate.authorize(Ok(())).unwrap(), ("widgets".to_string(), 7));
}

#[test]
fn deny_ctx_returns_permission_denied() {
    let gate = decode_and_authorize(Ok(7), "test.op").unwrap();
    let denied = WaferError::new(ErrorCode::PermissionDenied, "denied by test ctx".into());
    let e = gate.authorize(Err(denied)).unwrap_err();
    assert_eq!(e.code, ErrorCode::PermissionDenied);
    assert_eq!(e.message, "denied by test ctx");
}

#[test]
fn malformed_body_errors_before_the_resource_closure_runs() {
    let e = decode_and_authorize::<i32>(Err("not valid msgpack".into()), "test.op").unwrap_err();
    assert_eq!(e.code, ErrorCode::InvalidArgument);
    assert_eq!(e.message, "invalid test.op request: not valid msgpack");
}

/// Everything a stream does with a body of these events.
fn run(header: Result<Vec<u8>, String>, body: Vec<StreamEvent<u8>>) -> Vec<StreamAction<u8>> {
    let mut done = Vec::new();
    let mut body = body.into_iter();
    let mut stage = StreamStage::SendingHeader;
    let mut action: StreamAction<u8> = stream_with_header(header, "test.op");
    loop {
        let next = match &action {
            StreamAction::SendChunk(_) | StreamAction::SendMarker | StreamAction::SendMeta(_) => {
                let next = stream_sent(stage, true);
                stage = match stage {
                    StreamStage::SendingHeader => StreamStage::SendingMarker,
                    _ => StreamStage::SendingBody,
                };
                next
            }
            StreamAction::ReadBody => stream_body(
                match body.next() {
                    Some(event) => BodyRead::Event(event),
                    None => BodyRead::Ended,
                },
                "test.op",
            ),
            _ => {
                done.push(action);
                return done;
            }
        };
        if !matches!(action, StreamAction::ReadBody) {
            done.push(action);
        }
        action = next;
    }
}

#[test]
fn forwards_header_then_body_chunks_verbatim_then_complete() {
    let events = run(
        Ok(vec![7]),
        vec![
            StreamEvent::Chunk(b"a".to_vec()),
            StreamEvent::Chunk(b"b".to_vec()),
            StreamEvent::Complete { meta: vec![9] },
        ],
    );
    let chunks: Vec<&[u8]> = events
        .iter()
        .filter_map(|e| match e {
            StreamAction::SendChunk(b) => Some(b.as_slice()),
            _ => None,
        })
        .collect();
    assert_eq!(chunks, [&[7][..], b"a", b"b"]);
    assert!(matches!(events.last(), Some(StreamAction::Complete { meta }) if meta == &[9]));
}

#[test]
fn marks_the_frames_after_the_header_as_raw() {
    let events = run(
        Ok(vec![7]),
        vec![StreamEvent::Chunk(b"a".to_vec()), StreamEvent::Complete { meta: vec![] }],
    );
    assert!(matches!(events[0], StreamAction::SendChunk(_)));
    assert!(matches!(events[1], StreamAction::SendMarker));
    assert!(matches!(&events[2], StreamAction::SendChunk(b) if b == b"a"));
    let marks = events.iter().filter(|e| matches!(e, StreamAction::SendMarker)).count();
    assert_eq!(marks, 1, "exactly one marker per stream");
}

#[test]
fn propagates_body_error_terminal_after_partial_chunks() {
    let events = run(
        Ok(vec![7]),
        vec![
            StreamEvent::Chunk(b"partial".to_vec()),
            StreamEvent::Error(WaferError::new(ErrorCode::Unavailable, "upstream boom".into())),
        ],
    );
    match events.last() {
        Some(StreamAction::Error(e)) => {
            assert_eq!(e.code, ErrorCode::Unavailable);
            assert_eq!(e.message, "upstream boom");
        }
        other => panic!("{other:?}"),
    }
}

#[test]
fn non_body_terminal_after_header_becomes_internal_error() {
    for event in [StreamEvent::Drop, StreamEvent::Continue, StreamEvent::Halt] {
        match run(Ok(vec![7]), vec![event]).last() {
            Some(StreamAction::Error(e)) => {
                assert_eq!(e.code, ErrorCode::Internal);
                assert_eq!(
                    e.message,
                    "test.op: body producer emitted a non-body terminal after the header frame"
                );
            }
            other => panic!("{other:?}"),
        }
    }
    match run(Ok(vec![7]), vec![]).last() {
        Some(StreamAction::Error(e)) => assert_eq!(
            e.message,
            "test.op: body stream ended without a terminal event"
        ),
        other => panic!("{other:?}"),
    }
}

#[test]
fn a_stream_stops_where_no_one_reads_it() {
    assert!(matches!(stream_sent::<u8>(StreamStage::SendingHeader, false), StreamAction::Stop));
    assert!(matches!(stream_body::<u8>(BodyRead::Cancelled, "c"), StreamAction::Stop));
    match stream_with_header::<u8>(Err("bad".into()), "c") {
        StreamAction::Error(e) => assert_eq!(e.message, "c: encoding header frame: bad"),
        other => panic!("{other:?}"),
    }
}

#[test]
fn replies_and_items_are_encoded_or_fail() {
    assert!(matches!(to_output(Ok(vec![1])), Reply::Respond(b) if b == [1]));
    let e = WaferError::new(ErrorCode::Internal, "x".into());
    assert!(matches!(to_output(Err(e)), Reply::Error(e) if e.message == "x"));
    assert_eq!(item_encoded(Ok(vec![1]), "chat chunk").unwrap(), [1]);
    assert_eq!(
        item_encoded(Err("why".into()), "chat chunk").unwrap_err().message,
        "encoding chat chunk: why"
    );
}

#[test]
fn a_stream_goes_from_its_header_to_its_body() {
    let marker = StreamStage::SendingHeader.following();
    assert_eq!(marker, StreamStage::SendingMarker);
    assert_eq!(marker.following(), StreamStage::SendingBody);
    assert_eq!(marker.following().following(), StreamStage::SendingBody);
}
