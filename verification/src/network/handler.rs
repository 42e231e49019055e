//! Handling a network message: every URL, that of each redirect too, is
//! authorized before it is requested.
//!
//! The service follows no redirect itself. Each one comes back here, and the
//! request it leads to is authorized as the first was, so a URL that a caller
//! may reach cannot lead the caller to one that it may not.

use vstd::prelude::*;

use crate::error::{ErrorCode, WaferError};
use crate::handler_util;
use crate::handler_util::{malformed, misfit, Body, Next};
use crate::network::redirect;
use crate::network::redirect::redirect_request;
use crate::network::service::{NetworkError, Request, ResponseHead};
use crate::text;

verus! {

/// How many redirects are followed for one request.
pub const MAX_REDIRECT_HOPS: usize = 10;

/// What to ask for.
#[derive(Debug)]
pub enum NetworkAsk {
    /// May the caller read this URL?
    Authorize { url: String },
    /// Make the request that is waited for.
    Issue,
}

/// What is waited for. The request stands beside it; `hops` redirects have been
/// followed to it.
#[derive(Debug)]
pub enum NetworkWaiting {
    /// The caller's authorization to read the request's URL.
    Authorizing { request: Request, hops: usize },
    /// The response to the request.
    Issuing { request: Request, hops: usize },
}

/// What was answered.
#[derive(Debug)]
pub enum NetworkTold {
    Authorized(Result<(), WaferError>),
    /// The head of the response; its body is kept where it was received.
    Responded(Result<ResponseHead, NetworkError>),
    /// The time for the whole exchange is over.
    TimedOut,
}

/// What a message is answered with: the last response that was received.
#[derive(Debug)]
pub struct Final {
    pub head: ResponseHead,
}

/// The class and the words of an error's answer.
pub open spec fn error_answer(e: NetworkError) -> (ErrorCode, Seq<char>) {
    match e {
        NetworkError::RequestError(m) => (ErrorCode::Unavailable, m@),
        NetworkError::Other(m) => (ErrorCode::Internal, m@),
    }
}

/// The answer to an error.
pub fn network_error_to_wafer(e: NetworkError) -> (r: WaferError)
    ensures
        r.says(error_answer(e).0, error_answer(e).1),
{
    match e {
        NetworkError::RequestError(m) => WaferError::new(ErrorCode::Unavailable, m),
        NetworkError::Other(m) => WaferError::new(ErrorCode::Internal, m),
    }
}

/// It is asked whether the caller may read the request's URL.
pub open spec fn asks_leave(
    request: Request,
    hops: int,
    r: Next<NetworkAsk, NetworkWaiting, Final>,
) -> bool {
    &&& r matches Next::Ask(NetworkAsk::Authorize { url }, w)
    &&& url@ == request.url@
    &&& w matches NetworkWaiting::Authorizing { request: q, hops: n }
    &&& q == request
    &&& n == hops
}

/// How a message starts: with the caller's authorization to read the URL.
pub open spec fn network_starts(
    kind: Seq<char>,
    body: Body<Request>,
    r: Next<NetworkAsk, NetworkWaiting, Final>,
) -> bool {
    match body {
        Body::Unknown => r matches Next::Refuse(e) && e.says(
            ErrorCode::Unimplemented,
            "unknown network operation: "@ + kind,
        ),
        Body::Malformed { op, why } => r matches Next::Refuse(e)
            && handler_util::refuses_malformed(e, op@, why@),
        Body::Request(request) => asks_leave(request, 0, r),
    }
}

/// Starts to handle a network message, for a whole response or for a stream.
pub fn handle_message(kind: &str, body: Body<Request>) -> (r: Next<
    NetworkAsk,
    NetworkWaiting,
    Final,
>)
    ensures
        network_starts(kind@, body, r),
{
    match body {
        Body::Unknown => Next::Refuse(
            WaferError::new(
                ErrorCode::Unimplemented,
                text::join2("unknown network operation: ", kind),
            ),
        ),
        Body::Malformed { op, why } => Next::Refuse(malformed(op.as_str(), why.as_str())),
        Body::Request(request) => Next::Ask(
            NetworkAsk::Authorize { url: request.url.clone() },
            NetworkWaiting::Authorizing { request, hops: 0 },
        ),
    }
}

/// What an answer leads to.
pub open spec fn network_goes_on(
    waiting: NetworkWaiting,
    told: NetworkTold,
    r: Next<NetworkAsk, NetworkWaiting, Final>,
) -> bool {
    match (waiting, told) {
        (_, NetworkTold::TimedOut) => r matches Next::Refuse(e) && e.says(
            ErrorCode::Unavailable,
            "request timed out (the total covers every redirect hop)"@,
        ),
        (NetworkWaiting::Authorizing { .. }, NetworkTold::Authorized(Err(e))) => r == Next::<
            NetworkAsk,
            NetworkWaiting,
            Final,
        >::Refuse(e),
        (NetworkWaiting::Authorizing { request, hops }, NetworkTold::Authorized(Ok(_))) => r
            == Next::<NetworkAsk, NetworkWaiting, Final>::Ask(
            NetworkAsk::Issue,
            NetworkWaiting::Issuing { request, hops },
        ),
        (NetworkWaiting::Issuing { .. }, NetworkTold::Responded(Err(e))) => {
            r matches Next::Refuse(w) && w.says(error_answer(e).0, error_answer(e).1)
        },
        (NetworkWaiting::Issuing { request, hops }, NetworkTold::Responded(Ok(head))) => {
            match redirect::redirects_to(request.url@, head.status_code, head.headers@) {
                None => r == Next::<NetworkAsk, NetworkWaiting, Final>::Respond(Final { head }),
                Some(url) => if hops >= MAX_REDIRECT_HOPS {
                    r matches Next::Refuse(e) && e.says(
                        ErrorCode::Unavailable,
                        "too many redirects (limit "@ + text::decimal(MAX_REDIRECT_HOPS as int)
                            + ")"@,
                    )
                } else {
                    &&& r matches Next::Ask(_, NetworkWaiting::Authorizing { request: next, .. })
                    &&& asks_leave(next, hops + 1, r)
                    &&& redirect::follows(
                        request,
                        head.status_code,
                        redirect::locations(head.headers@)[0],
                        url,
                        next,
                    )
                },
            }
        },
        _ => r matches Next::Refuse(e) && handler_util::is_misfit(e),
    }
}

impl NetworkWaiting {
    /// Goes on with the answer to what was asked.
    pub fn resume(self, told: NetworkTold) -> (r: Next<NetworkAsk, NetworkWaiting, Final>)
        ensures
            network_goes_on(self, told, r),
    {
        match (self, told) {
            (_, NetworkTold::TimedOut) => Next::Refuse(
                WaferError::new(
                    ErrorCode::Unavailable,
                    "request timed out (the total covers every redirect hop)".to_owned(),
                ),
            ),
            (NetworkWaiting::Authorizing { .. }, NetworkTold::Authorized(Err(e))) => Next::Refuse(
                e,
            ),
            (NetworkWaiting::Authorizing { request, hops }, NetworkTold::Authorized(Ok(_))) => {
                Next::Ask(NetworkAsk::Issue, NetworkWaiting::Issuing { request, hops })
            },
            (NetworkWaiting::Issuing { .. }, NetworkTold::Responded(Err(e))) => Next::Refuse(
                network_error_to_wafer(e),
            ),
            (NetworkWaiting::Issuing { request, hops }, NetworkTold::Responded(Ok(head))) => {
                match redirect_request(&request, head.status_code, &head.headers) {
                    None => Next::Respond(Final { head }),
                    Some(next) => {
                        if hops >= MAX_REDIRECT_HOPS {
                            return Next::Refuse(
                                WaferError::new(
                                    ErrorCode::Unavailable,
                                    text::join3(
                                        "too many redirects (limit ",
                                        text::usize_text(MAX_REDIRECT_HOPS).as_str(),
                                        ")",
                                    ),
                                ),
                            );
                        }
                        Next::Ask(
                            NetworkAsk::Authorize { url: next.url.clone() },
                            NetworkWaiting::Authorizing { request: next, hops: hops + 1 },
                        )
                    },
                }
            },
            _ => Next::Refuse(misfit()),
        }
    }
}

/// How many redirects were followed to what is waited for.
pub open spec fn hops_of(w: NetworkWaiting) -> int {
    match w {
        NetworkWaiting::Authorizing { hops, .. } => hops as int,
        NetworkWaiting::Issuing { hops, .. } => hops as int,
    }
}

/// No request is made that was not authorized: what is issued is the very
/// request whose URL the caller was just authorized to read.
pub proof fn every_hop_is_authorized(
    waiting: NetworkWaiting,
    told: NetworkTold,
    r: Next<NetworkAsk, NetworkWaiting, Final>,
)
    requires
        network_goes_on(waiting, told, r),
        r is Ask,
        r->Ask_0 is Issue,
    ensures
        told is Authorized && told->Authorized_0 is Ok,
        waiting matches NetworkWaiting::Authorizing { request, hops } && r->Ask_1
            == (NetworkWaiting::Issuing { request, hops }),
{
}

/// A refused hop fails the message with the refusal itself; nothing more is
/// requested.
pub proof fn a_refused_hop_ends_the_chain(
    waiting: NetworkWaiting,
    e: WaferError,
    r: Next<NetworkAsk, NetworkWaiting, Final>,
)
    requires
        waiting is Authorizing,
        network_goes_on(waiting, NetworkTold::Authorized(Err(e)), r),
    ensures
        r == Next::<NetworkAsk, NetworkWaiting, Final>::Refuse(e),
{
}

/// A chain of redirects ends: no more than [`MAX_REDIRECT_HOPS`] are followed,
/// so no more than one request beyond that is ever made.
pub proof fn chains_are_bounded(
    waiting: NetworkWaiting,
    told: NetworkTold,
    r: Next<NetworkAsk, NetworkWaiting, Final>,
)
    requires
        hops_of(waiting) <= MAX_REDIRECT_HOPS,
        network_goes_on(waiting, told, r),
        r is Ask,
    ensures
        hops_of(r->Ask_1) <= MAX_REDIRECT_HOPS,
        waiting is Issuing ==> hops_of(r->Ask_1) == hops_of(waiting) + 1,
        waiting is Authorizing ==> r->Ask_1 is Issuing && hops_of(r->Ask_1) == hops_of(waiting),
{
}

// ---------------------------------------------------------------------------
// The response as it is sent
// ---------------------------------------------------------------------------

/// One event of a response as it is sent.
#[derive(Debug, PartialEq, Eq)]
pub enum Frame {
    Chunk(Vec<u8>),
    /// All chunks from here on are bytes as they are.
    Marker,
    Complete,
    Error(WaferError),
}

/// The events of a whole response: the header, the mark, the body where it is
/// not empty, and the end.
pub fn response_frames(header: Result<Vec<u8>, String>, body: Vec<u8>) -> (r: Vec<Frame>)
    ensures
        match header {
            Err(why) => r@.len() == 1 && (r@[0] matches Frame::Error(e) && e.says(
                ErrorCode::Internal,
                "encoding network response header: "@ + why@,
            )),
            Ok(bytes) => r@ == if body@.len() == 0 {
                seq![Frame::Chunk(bytes), Frame::Marker, Frame::Complete]
            } else {
                seq![Frame::Chunk(bytes), Frame::Marker, Frame::Chunk(body), Frame::Complete]
            },
        },
{
    let mut frames: Vec<Frame> = Vec::new();
    match header {
        Err(why) => {
            frames.push(
                Frame::Error(
                    WaferError::new(
                        ErrorCode::Internal,
                        text::join2("encoding network response header: ", why.as_str()),
                    ),
                ),
            );
        },
        Ok(bytes) => {
            frames.push(Frame::Chunk(bytes));
            frames.push(Frame::Marker);
            if body.len() > 0 {
                frames.push(Frame::Chunk(body));
            }
            frames.push(Frame::Complete);
        },
    }
    frames
}

/// A response that is streamed is asked for under the grant that a response
/// read whole is: the two kinds of message start alike.
pub proof fn streams_need_the_same_grant(
    kind: Seq<char>,
    other: Seq<char>,
    request: Request,
    r: Next<NetworkAsk, NetworkWaiting, Final>,
    s: Next<NetworkAsk, NetworkWaiting, Final>,
)
    requires
        network_starts(kind, Body::Request(request), r),
        network_starts(other, Body::Request(request), s),
    ensures
        r->Ask_0->Authorize_url@ == s->Ask_0->Authorize_url@,
        r is Ask && r->Ask_0 is Authorize && s is Ask && s->Ask_0 is Authorize,
        r->Ask_1 == s->Ask_1,
{
}

/// A response that is no redirect to be followed is the answer, as it came; a
/// failure to get one is answered as a fault that may clear on its own, where
/// the exchange itself failed.
pub proof fn the_answer_is_the_last_response(
    waiting: NetworkWaiting,
    told: NetworkTold,
    r: Next<NetworkAsk, NetworkWaiting, Final>,
)
    requires
        network_goes_on(waiting, told, r),
    ensures
        r matches Next::Respond(f) ==> waiting is Issuing && told == NetworkTold::Responded(
            Ok(f.head),
        ),
        waiting is Issuing && (told matches NetworkTold::Responded(Ok(head)) && !(head.status_code
            == 301 || head.status_code == 302 || head.status_code == 303 || head.status_code == 307
            || head.status_code == 308)) ==> r is Respond,
        waiting is Issuing && (told matches NetworkTold::Responded(Err(e)) && e is RequestError)
            ==> r is Refuse && r->Refuse_0.code == ErrorCode::Unavailable,
        waiting is Issuing && (told matches NetworkTold::Responded(Err(e)) && e is Other)
            ==> r is Refuse && r->Refuse_0.code == ErrorCode::Internal,
        told is TimedOut ==> r is Refuse && r->Refuse_0.code == ErrorCode::Unavailable,
{
}

/// Ten redirects are followed, and an eleventh is not.
pub proof fn ten_redirects_are_followed(
    request: Request,
    hops: usize,
    head: ResponseHead,
    r: Next<NetworkAsk, NetworkWaiting, Final>,
)
    requires
        network_goes_on(
            NetworkWaiting::Issuing { request, hops },
            NetworkTold::Responded(Ok(head)),
            r,
        ),
        redirect::redirects_to(request.url@, head.status_code, head.headers@) is Some,
    ensures
        hops < 10 ==> r is Ask && (r->Ask_0 matches NetworkAsk::Authorize { url } && Some(url@)
            == redirect::redirects_to(request.url@, head.status_code, head.headers@)),
        hops >= 10 ==> r is Refuse && r->Refuse_0.code == ErrorCode::Unavailable,
{
}

/// The bytes that frames carry, in order.
pub open spec fn carried(frames: Seq<Frame>) -> Seq<u8>
    decreases frames.len(),
{
    if frames.len() == 0 {
        Seq::empty()
    } else {
        match frames.last() {
            Frame::Chunk(bytes) => carried(frames.drop_last()) + bytes@,
            _ => carried(frames.drop_last()),
        }
    }
}

/// A whole response is sent as its header in one chunk, the mark, its body, and
/// the end: nothing is lost, and no chunk is empty but for the header's.
pub proof fn a_whole_response_is_sent(header: Vec<u8>, body: Vec<u8>, frames: Vec<Frame>)
    requires
        call_ensures(response_frames, (Ok::<Vec<u8>, String>(header), body), frames),
    ensures
        frames@.len() >= 3,
        frames@[0] == Frame::Chunk(header),
        frames@[1] is Marker,
        frames@.last() is Complete,
        carried(frames@) == header@ + body@,
        carried(frames@.skip(2)) == body@,
        forall|i: int| 2 <= i < frames@.len() - 1 ==> #[trigger] frames@[i] is Chunk,
{
    reveal_with_fuel(carried, 6);
    let f = frames@;
    if body@.len() == 0 {
        assert(f.drop_last() =~= seq![f[0], f[1]]);
        assert(f.drop_last().drop_last() =~= seq![f[0]]);
        assert(f.drop_last().drop_last().drop_last() =~= Seq::empty());
        assert(f.skip(2) =~= seq![f[2]]);
        assert(f.skip(2).drop_last() =~= Seq::empty());
        assert(carried(f) =~= header@ + body@);
        assert(carried(f.skip(2)) =~= body@);
    } else {
        assert(f.drop_last() =~= seq![f[0], f[1], f[2]]);
        assert(f.drop_last().drop_last() =~= seq![f[0], f[1]]);
        assert(f.drop_last().drop_last().drop_last() =~= seq![f[0]]);
        assert(f.drop_last().drop_last().drop_last().drop_last() =~= Seq::empty());
        assert(f.skip(2) =~= seq![f[2], f[3]]);
        assert(f.skip(2).drop_last() =~= seq![f[2]]);
        assert(f.skip(2).drop_last().drop_last() =~= Seq::empty());
        assert(carried(f) =~= header@ + body@);
        assert(carried(f.skip(2)) =~= body@);
    }
}

} // verus!
