//! What the handlers of all interfaces share: a request is read and its caller
//! authorized before anything else, and a reply is one value or a stream with
//! a header in front.

use vstd::prelude::*;

use crate::error::{invalid, ErrorCode, WaferError};
use crate::text;

verus! {

/// What a caller may do to a resource.
#[derive(Clone, Copy, Debug, PartialEq, Eq, Structural)]
pub enum ResourceAccess {
    Read,
    /// Add to it, and no more.
    Append,
    Write,
}

/// What a message holds, after its bytes have been read.
#[derive(Debug)]
pub enum Body<T> {
    /// No such operation is known.
    Unknown,
    /// The bytes of a request for `op` could not be read; why not.
    Malformed { op: String, why: String },
    Request(T),
}

/// What comes next in handling a message: ask for `Q` and wait in `W`, answer
/// with `R`, or refuse.
#[derive(Debug)]
pub enum Next<Q, W, R> {
    Ask(Q, W),
    Respond(R),
    Refuse(WaferError),
}

/// The refusal of a request for `op` whose bytes could not be read.
pub open spec fn refuses_malformed(e: WaferError, op: Seq<char>, why: Seq<char>) -> bool {
    e.says(ErrorCode::InvalidArgument, "invalid "@ + op + " request: "@ + why)
}

/// The refusal of a request for `op` whose bytes could not be read.
pub fn malformed(op: &str, why: &str) -> (r: WaferError)
    ensures
        refuses_malformed(r, op@, why@),
{
    invalid(text::join4("invalid ", op, " request: ", why))
}

/// An answer that was not asked for.
pub open spec fn is_misfit(e: WaferError) -> bool {
    e.says(ErrorCode::Internal, "the answer does not fit what was asked"@)
}

/// The refusal of an answer that was not asked for.
pub fn misfit() -> (r: WaferError)
    ensures
        is_misfit(r),
{
    WaferError::new(ErrorCode::Internal, "the answer does not fit what was asked".to_owned())
}

/// A request that was read but whose caller is not authorized yet. It is
/// handed out only for a verdict that lets it pass.
#[derive(Debug)]
pub struct Gate<T> {
    request: T,
}

impl<T> Gate<T> {
    /// The request behind this gate.
    pub closed spec fn behind(self) -> T {
        self.request
    }

    /// The request, to find out which resource it targets.
    pub fn peek(&self) -> (r: &T)
        ensures
            *r == self.behind(),
    {
        &self.request
    }

    /// The request itself, where the caller is authorized.
    pub fn authorize(self, verdict: Result<(), WaferError>) -> (r: Result<T, WaferError>)
        ensures
            r == match verdict {
                Ok(()) => Ok::<T, WaferError>(self.behind()),
                Err(e) => Err::<T, WaferError>(e),
            },
    {
        match verdict {
            Ok(()) => Ok(self.request),
            Err(e) => Err(e),
        }
    }
}

/// Puts a request that was read behind a [`Gate`], so that no one obtains it
/// without a verdict on its caller. A request that could not be read is
/// refused, and no resource is ever looked at.
pub fn decode_and_authorize<T>(decoded: Result<T, String>, op_name: &str) -> (r: Result<
    Gate<T>,
    WaferError,
>)
    ensures
        match decoded {
            Ok(request) => r is Ok && r->Ok_0.behind() == request,
            Err(why) => r is Err && refuses_malformed(r->Err_0, op_name@, why@),
        },
{
    match decoded {
        Ok(request) => Ok(Gate { request }),
        Err(why) => Err(malformed(op_name, why.as_str())),
    }
}

/// A reply as it is sent.
#[derive(Debug)]
pub enum Reply {
    Respond(Vec<u8>),
    Error(WaferError),
}

/// The reply to a request, from what it was encoded to.
pub fn to_output(encoded: Result<Vec<u8>, WaferError>) -> (r: Reply)
    ensures
        r == match encoded {
            Ok(bytes) => Reply::Respond(bytes),
            Err(e) => Reply::Error(e),
        },
{
    match encoded {
        Ok(bytes) => Reply::Respond(bytes),
        Err(e) => Reply::Error(e),
    }
}

// ---------------------------------------------------------------------------
// Streams with a header
// ---------------------------------------------------------------------------

/// One event of a stream; `M` stands for an entry of its meta data.
#[derive(Debug)]
pub enum StreamEvent<M> {
    Chunk(Vec<u8>),
    Meta(M),
    /// The stream is complete.
    Complete { meta: Vec<M> },
    /// The stream failed.
    Error(WaferError),
    /// The request is dropped, passed on or halted: no stream of bytes ends so.
    Drop,
    Continue,
    Halt,
}

/// What is read next.
#[derive(Debug)]
pub enum BodyRead<M> {
    /// Whoever reads the stream is gone.
    Cancelled,
    /// The body ended without saying how.
    Ended,
    Event(StreamEvent<M>),
}

/// What a stream does next.
#[derive(Debug)]
pub enum StreamAction<M> {
    /// Send these bytes.
    SendChunk(Vec<u8>),
    /// Send the mark that all chunks from here on are bytes as they are.
    SendMarker,
    SendMeta(M),
    /// Read the next event of the body.
    ReadBody,
    /// End the stream, complete.
    Complete { meta: Vec<M> },
    /// End the stream with an error.
    Error(WaferError),
    /// End the stream without another word: no one reads it.
    Stop,
}

/// Where a stream with a header stands.
#[derive(Clone, Copy, Debug, PartialEq, Eq, Structural)]
pub enum StreamStage {
    SendingHeader,
    SendingMarker,
    /// Part of the body is being sent.
    SendingBody,
}

/// How a stream with a header starts: with the header, or with the error where
/// the header could not be encoded.
pub fn stream_with_header<M>(header: Result<Vec<u8>, String>, context: &str) -> (r: StreamAction<M>)
    ensures
        match header {
            Ok(bytes) => r == StreamAction::<M>::SendChunk(bytes),
            Err(why) => r matches StreamAction::Error(e) && e.says(
                ErrorCode::Internal,
                context@ + ": encoding header frame: "@ + why@,
            ),
        },
{
    match header {
        Ok(bytes) => StreamAction::SendChunk(bytes),
        Err(why) => StreamAction::Error(
            WaferError::new(
                ErrorCode::Internal,
                text::join3(context, ": encoding header frame: ", why.as_str()),
            ),
        ),
    }
}

/// What follows what was sent: the mark comes right behind the header, and then
/// the body is read. Where no one reads the stream, it stops.
pub fn stream_sent<M>(stage: StreamStage, arrived: bool) -> (r: StreamAction<M>)
    ensures
        r == if !arrived {
            StreamAction::<M>::Stop
        } else {
            match stage {
                StreamStage::SendingHeader => StreamAction::<M>::SendMarker,
                StreamStage::SendingMarker => StreamAction::<M>::ReadBody,
                StreamStage::SendingBody => StreamAction::<M>::ReadBody,
            }
        },
{
    if !arrived {
        return StreamAction::Stop;
    }
    match stage {
        StreamStage::SendingHeader => StreamAction::SendMarker,
        StreamStage::SendingMarker => StreamAction::ReadBody,
        StreamStage::SendingBody => StreamAction::ReadBody,
    }
}

impl StreamStage {
    /// The stage that follows this one.
    pub fn following(self) -> (r: StreamStage)
        ensures
            r == match self {
                StreamStage::SendingHeader => StreamStage::SendingMarker,
                _ => StreamStage::SendingBody,
            },
    {
        match self {
            StreamStage::SendingHeader => StreamStage::SendingMarker,
            _ => StreamStage::SendingBody,
        }
    }
}

/// What an event of the body leads to.
pub open spec fn forwards<M>(read: BodyRead<M>, context: Seq<char>, r: StreamAction<M>) -> bool {
    match read {
        BodyRead::Cancelled => r == StreamAction::<M>::Stop,
        BodyRead::Ended => r matches StreamAction::Error(e) && e.says(
            ErrorCode::Internal,
            context + ": body stream ended without a terminal event"@,
        ),
        BodyRead::Event(StreamEvent::Chunk(bytes)) => r == StreamAction::<M>::SendChunk(bytes),
        BodyRead::Event(StreamEvent::Meta(entry)) => r == StreamAction::<M>::SendMeta(entry),
        BodyRead::Event(StreamEvent::Complete { meta }) => r == (StreamAction::<M>::Complete {
            meta,
        }),
        BodyRead::Event(StreamEvent::Error(e)) => r == StreamAction::<M>::Error(e),
        _ => r matches StreamAction::Error(e) && e.says(
            ErrorCode::Internal,
            context + ": body producer emitted a non-body terminal after the header frame"@,
        ),
    }
}

/// Forwards one event of the body: bytes, meta data and how it ends, each as it
/// is. The header has been sent by then, so a body that ends without saying
/// how, or in a way that no body does, is an error.
pub fn stream_body<M>(read: BodyRead<M>, context: &str) -> (r: StreamAction<M>)
    ensures
        forwards(read, context@, r),
{
    match read {
        BodyRead::Cancelled => StreamAction::Stop,
        BodyRead::Ended => StreamAction::Error(
            WaferError::new(
                ErrorCode::Internal,
                text::join2(context, ": body stream ended without a terminal event"),
            ),
        ),
        BodyRead::Event(StreamEvent::Chunk(bytes)) => StreamAction::SendChunk(bytes),
        BodyRead::Event(StreamEvent::Meta(entry)) => StreamAction::SendMeta(entry),
        BodyRead::Event(StreamEvent::Complete { meta }) => StreamAction::Complete { meta },
        BodyRead::Event(StreamEvent::Error(e)) => StreamAction::Error(e),
        _ => StreamAction::Error(
            WaferError::new(
                ErrorCode::Internal,
                text::join2(
                    context,
                    ": body producer emitted a non-body terminal after the header frame",
                ),
            ),
        ),
    }
}

/// The body is forwarded verbatim: a chunk that is read is sent with the very
/// bytes it was read with, and nothing else is ever sent as a chunk.
pub proof fn chunks_are_forwarded_verbatim<M>(
    read: BodyRead<M>,
    context: Seq<char>,
    r: StreamAction<M>,
    bytes: Vec<u8>,
)
    requires
        forwards(read, context, r),
    ensures
        read == BodyRead::Event(StreamEvent::<M>::Chunk(bytes)) <==> r == StreamAction::<M>::SendChunk(
            bytes,
        ),
{
}

/// A body that has been read to its end ends the stream, whatever its end.
pub proof fn every_body_end_ends_the_stream<M>(
    read: BodyRead<M>,
    context: Seq<char>,
    r: StreamAction<M>,
)
    requires
        forwards(read, context, r),
        !(read is Event && (read->Event_0 is Chunk || read->Event_0 is Meta)),
    ensures
        r is Complete || r is Error || r is Stop,
{
}

// ---------------------------------------------------------------------------
// Streams of values
// ---------------------------------------------------------------------------

/// What a stream of values does next.
#[derive(Debug)]
pub enum ItemAction<C> {
    /// Encode this value and send it.
    Send(C),
    /// End the stream with an error.
    Error(WaferError),
    /// End the stream: the values are all sent.
    End,
}

/// What the encoding of a value leads to.
pub fn item_encoded(encoded: Result<Vec<u8>, String>, what: &str) -> (r: Result<
    Vec<u8>,
    WaferError,
>)
    ensures
        match encoded {
            Ok(bytes) => r == Ok::<Vec<u8>, WaferError>(bytes),
            Err(why) => r is Err && r->Err_0.says(
                ErrorCode::Internal,
                "encoding "@ + what@ + ": "@ + why@,
            ),
        },
{
    match encoded {
        Ok(bytes) => Ok(bytes),
        Err(why) => Err(
            WaferError::new(
                ErrorCode::Internal,
                text::join4("encoding ", what, ": ", why.as_str()),
            ),
        ),
    }
}

/// A stream with a header starts with the header's bytes; once they arrived it
/// sends the mark, and after the mark it reads the body. The mark is never sent
/// again. Where nothing arrives it stops.
pub proof fn the_header_and_the_mark_come_first<M>(
    header: Vec<u8>,
    context: &str,
    stage: StreamStage,
    first: StreamAction<M>,
    second: StreamAction<M>,
    third: StreamAction<M>,
    later: StreamAction<M>,
    next: StreamStage,
)
    requires
        call_ensures(stream_with_header::<M>, (Ok::<Vec<u8>, String>(header), context), first),
        call_ensures(stream_sent::<M>, (StreamStage::SendingHeader, true), second),
        call_ensures(StreamStage::following, (StreamStage::SendingHeader,), next),
        call_ensures(stream_sent::<M>, (next, true), third),
        call_ensures(stream_sent::<M>, (stage, false), later),
    ensures
        first == StreamAction::<M>::SendChunk(header),
        second is SendMarker,
        third is ReadBody,
        later is Stop,
{
}

/// Once the mark is sent, only the body is read, to whatever stage it goes on.
pub proof fn the_mark_is_sent_once<M>(
    stage: StreamStage,
    next: StreamStage,
    action: StreamAction<M>,
)
    requires
        call_ensures(StreamStage::following, (stage,), next),
        call_ensures(stream_sent::<M>, (next, true), action),
    ensures
        action is ReadBody,
{
}

/// A request is handed out only for a verdict that lets it pass, and then as it
/// was read; otherwise the verdict's own refusal is.
pub proof fn a_gate_opens_for_the_authorized<T>(
    decoded: T,
    op: &str,
    gate: Gate<T>,
    verdict: Result<(), WaferError>,
    r: Result<T, WaferError>,
)
    requires
        call_ensures(decode_and_authorize::<T>, (Ok::<T, String>(decoded), op), Ok(gate)),
        call_ensures(Gate::<T>::authorize, (gate, verdict), r),
    ensures
        r is Ok <==> verdict is Ok,
        r matches Ok(request) ==> request == decoded,
        r matches Err(e) ==> verdict == Err::<(), WaferError>(e),
{
}

} // verus!
