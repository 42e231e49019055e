//! Handling a language-model message: the caller is authorized for the model
//! or the operation, and the service does it.

use vstd::prelude::*;

use crate::error::{invalid, ErrorCode, WaferError};
use crate::handler_util;
use crate::handler_util::{malformed, misfit, Body, ItemAction, Next, ResourceAccess};
use crate::llm::service::LlmError;
use crate::text;

verus! {

/// A request that names a model; `T` stands for what else it holds.
#[derive(Debug)]
pub struct ModelRequest<T> {
    pub backend_id: String,
    pub model_id: String,
    pub rest: T,
}

/// What a message asks for; `T` stands for what a chat holds besides its model.
#[derive(Debug)]
pub enum LlmRequest<T> {
    Chat(ModelRequest<T>),
    ListModels,
    Status(ModelRequest<()>),
    LoadModel(ModelRequest<()>),
    UnloadModel(ModelRequest<()>),
}

/// What the caller must be authorized for, in the namespace of the block that
/// serves the call.
#[derive(Debug)]
pub enum LlmResource {
    Model { backend_id: String, model_id: String },
    /// The listing of all models.
    ListModels,
}

/// What to ask for.
#[derive(Debug)]
pub enum LlmAsk<T> {
    Authorize { resource: LlmResource, access: ResourceAccess },
    Call(LlmRequest<T>),
}

/// What is waited for.
#[derive(Debug)]
pub enum LlmWaiting<T> {
    Authorizing(LlmRequest<T>),
    Listing,
    Status,
    Unloading,
    /// The reply is a stream, item by item.
    Chatting,
    Loading,
}

/// What was answered; `M` stands for a list of models, `S` for a status.
#[derive(Debug)]
pub enum LlmTold<M, S> {
    Authorized(Result<(), WaferError>),
    Models(Result<M, LlmError>),
    Status(Result<S, LlmError>),
    Unloaded(Result<(), LlmError>),
}

/// What a message is answered with.
#[derive(Debug)]
pub enum LlmResponse<M, S> {
    Models(M),
    Status(S),
    Empty,
}

/// The class and the words of an error's answer.
pub open spec fn error_answer(e: LlmError) -> (ErrorCode, Seq<char>) {
    match e {
        LlmError::NotSupported => (ErrorCode::Unimplemented, "not supported"@),
        LlmError::InvalidRequest(m) => (ErrorCode::InvalidArgument, m@),
        LlmError::BackendError(m) => (ErrorCode::Internal, m@),
        LlmError::ModelNotFound(m) => (ErrorCode::NotFound, m@),
        LlmError::RateLimited => (ErrorCode::Unavailable, "rate limited"@),
        LlmError::Unauthorized => (ErrorCode::Unauthenticated, "unauthorized"@),
        LlmError::Network(m) => (ErrorCode::Unavailable, "network: "@ + m@),
        LlmError::Cancelled => (ErrorCode::Cancelled, "cancelled"@),
    }
}

/// The class and the words of an error's answer.
pub fn llm_error_to_block_error(e: LlmError) -> (r: (ErrorCode, String))
    ensures
        (r.0, r.1@) == error_answer(e),
{
    match e {
        LlmError::NotSupported => (ErrorCode::Unimplemented, "not supported".to_owned()),
        LlmError::InvalidRequest(m) => (ErrorCode::InvalidArgument, m),
        LlmError::BackendError(m) => (ErrorCode::Internal, m),
        LlmError::ModelNotFound(m) => (ErrorCode::NotFound, m),
        LlmError::RateLimited => (ErrorCode::Unavailable, "rate limited".to_owned()),
        LlmError::Unauthorized => (ErrorCode::Unauthenticated, "unauthorized".to_owned()),
        LlmError::Network(m) => (ErrorCode::Unavailable, text::join2("network: ", m.as_str())),
        LlmError::Cancelled => (ErrorCode::Cancelled, "cancelled".to_owned()),
    }
}

/// The answer to an error in doing `op`.
pub open spec fn answers(e: LlmError, op: Seq<char>, w: WaferError) -> bool {
    w.says(error_answer(e).0, op + ": "@ + error_answer(e).1)
}

fn refusal(e: LlmError, op: &str) -> (r: WaferError)
    ensures
        answers(e, op@, r),
{
    let (code, message) = llm_error_to_block_error(e);
    WaferError::new(code, text::join3(op, ": ", message.as_str()))
}

/// What a request must be authorized for: to use a model is to read it, to load
/// or unload it is to write it, as every caller finds it so.
pub open spec fn needs<T>(request: LlmRequest<T>, resource: LlmResource, access: ResourceAccess) -> bool {
    match request {
        LlmRequest::Chat(m) => names_model(m, resource) && access == ResourceAccess::Read,
        LlmRequest::ListModels => resource is ListModels && access == ResourceAccess::Read,
        LlmRequest::Status(m) => names_model(m, resource) && access == ResourceAccess::Read,
        LlmRequest::LoadModel(m) => names_model(m, resource) && access == ResourceAccess::Write,
        LlmRequest::UnloadModel(m) => names_model(m, resource) && access == ResourceAccess::Write,
    }
}

/// The resource is the model that the request names.
pub open spec fn names_model<T>(m: ModelRequest<T>, resource: LlmResource) -> bool {
    resource matches LlmResource::Model { backend_id, model_id } && backend_id@ == m.backend_id@
        && model_id@ == m.model_id@
}

fn model_resource<T>(m: &ModelRequest<T>) -> (r: LlmResource)
    ensures
        names_model(*m, r),
{
    LlmResource::Model { backend_id: m.backend_id.clone(), model_id: m.model_id.clone() }
}

/// How a message starts: with the caller's authorization.
pub open spec fn llm_starts<T, M, S>(
    kind: Seq<char>,
    body: Body<LlmRequest<T>>,
    r: Next<LlmAsk<T>, LlmWaiting<T>, LlmResponse<M, S>>,
) -> bool {
    match body {
        Body::Unknown => r matches Next::Refuse(e) && e.says(
            ErrorCode::InvalidArgument,
            "unknown llm operation: "@ + kind,
        ),
        Body::Malformed { op, why } => r matches Next::Refuse(e)
            && handler_util::refuses_malformed(e, op@, why@),
        Body::Request(request) => r matches Next::Ask(
            LlmAsk::Authorize { resource, access },
            w,
        ) && needs(request, resource, access) && w == LlmWaiting::Authorizing(request),
    }
}

/// Starts to handle a message.
pub fn handle_message<T, M, S>(kind: &str, body: Body<LlmRequest<T>>) -> (r: Next<
    LlmAsk<T>,
    LlmWaiting<T>,
    LlmResponse<M, S>,
>)
    ensures
        llm_starts(kind@, body, r),
{
    match body {
        Body::Unknown => Next::Refuse(invalid(text::join2("unknown llm operation: ", kind))),
        Body::Malformed { op, why } => Next::Refuse(malformed(op.as_str(), why.as_str())),
        Body::Request(request) => {
            let (resource, access) = match &request {
                LlmRequest::Chat(m) => (model_resource(m), ResourceAccess::Read),
                LlmRequest::ListModels => (LlmResource::ListModels, ResourceAccess::Read),
                LlmRequest::Status(m) => (model_resource(m), ResourceAccess::Read),
                LlmRequest::LoadModel(m) => (model_resource(m), ResourceAccess::Write),
                LlmRequest::UnloadModel(m) => (model_resource(m), ResourceAccess::Write),
            };
            Next::Ask(
                LlmAsk::Authorize { resource, access },
                LlmWaiting::Authorizing(request),
            )
        },
    }
}

/// What is waited for while a request is served.
pub open spec fn serving<T>(request: LlmRequest<T>) -> LlmWaiting<T> {
    match request {
        LlmRequest::Chat(_) => LlmWaiting::Chatting,
        LlmRequest::ListModels => LlmWaiting::Listing,
        LlmRequest::Status(_) => LlmWaiting::Status,
        LlmRequest::LoadModel(_) => LlmWaiting::Loading,
        LlmRequest::UnloadModel(_) => LlmWaiting::Unloading,
    }
}

/// What an answer leads to.
pub open spec fn llm_goes_on<T, M, S>(
    waiting: LlmWaiting<T>,
    told: LlmTold<M, S>,
    r: Next<LlmAsk<T>, LlmWaiting<T>, LlmResponse<M, S>>,
) -> bool {
    match (waiting, told) {
        (LlmWaiting::Authorizing(_), LlmTold::Authorized(Err(e))) => r == Next::<
            LlmAsk<T>,
            LlmWaiting<T>,
            LlmResponse<M, S>,
        >::Refuse(e),
        (LlmWaiting::Authorizing(request), LlmTold::Authorized(Ok(_))) => r == Next::<
            LlmAsk<T>,
            LlmWaiting<T>,
            LlmResponse<M, S>,
        >::Ask(LlmAsk::Call(request), serving(request)),
        (LlmWaiting::Listing, LlmTold::Models(Ok(models))) => r == Next::<
            LlmAsk<T>,
            LlmWaiting<T>,
            LlmResponse<M, S>,
        >::Respond(LlmResponse::Models(models)),
        (LlmWaiting::Listing, LlmTold::Models(Err(e))) => r matches Next::Refuse(w) && answers(
            e,
            "list_models"@,
            w,
        ),
        (LlmWaiting::Status, LlmTold::Status(Ok(status))) => r == Next::<
            LlmAsk<T>,
            LlmWaiting<T>,
            LlmResponse<M, S>,
        >::Respond(LlmResponse::Status(status)),
        (LlmWaiting::Status, LlmTold::Status(Err(e))) => r matches Next::Refuse(w) && answers(
            e,
            "status"@,
            w,
        ),
        (LlmWaiting::Unloading, LlmTold::Unloaded(Ok(_))) => r == Next::<
            LlmAsk<T>,
            LlmWaiting<T>,
            LlmResponse<M, S>,
        >::Respond(LlmResponse::Empty),
        (LlmWaiting::Unloading, LlmTold::Unloaded(Err(e))) => r matches Next::Refuse(w) && answers(
            e,
            "unload_model"@,
            w,
        ),
        _ => r matches Next::Refuse(e) && handler_util::is_misfit(e),
    }
}

impl<T> LlmWaiting<T> {
    /// Goes on with the answer to what was asked.
    pub fn resume<M, S>(self, told: LlmTold<M, S>) -> (r: Next<
        LlmAsk<T>,
        LlmWaiting<T>,
        LlmResponse<M, S>,
    >)
        ensures
            llm_goes_on(self, told, r),
    {
        match (self, told) {
            (LlmWaiting::Authorizing(_), LlmTold::Authorized(Err(e))) => Next::Refuse(e),
            (LlmWaiting::Authorizing(request), LlmTold::Authorized(Ok(_))) => {
                let waiting: LlmWaiting<T> = match &request {
                    LlmRequest::Chat(_) => LlmWaiting::Chatting,
                    LlmRequest::ListModels => LlmWaiting::Listing,
                    LlmRequest::Status(_) => LlmWaiting::Status,
                    LlmRequest::LoadModel(_) => LlmWaiting::Loading,
                    LlmRequest::UnloadModel(_) => LlmWaiting::Unloading,
                };
                Next::Ask(LlmAsk::Call(request), waiting)
            },
            (LlmWaiting::Listing, LlmTold::Models(Ok(models))) => Next::Respond(
                LlmResponse::Models(models),
            ),
            (LlmWaiting::Listing, LlmTold::Models(Err(e))) => Next::Refuse(
                refusal(e, "list_models"),
            ),
            (LlmWaiting::Status, LlmTold::Status(Ok(status))) => Next::Respond(
                LlmResponse::Status(status),
            ),
            (LlmWaiting::Status, LlmTold::Status(Err(e))) => Next::Refuse(refusal(e, "status")),
            (LlmWaiting::Unloading, LlmTold::Unloaded(Ok(_))) => Next::Respond(LlmResponse::Empty),
            (LlmWaiting::Unloading, LlmTold::Unloaded(Err(e))) => Next::Refuse(
                refusal(e, "unload_model"),
            ),
            _ => Next::Refuse(misfit()),
        }
    }
}

/// What an item of a stream leads to: it is sent as it is, a failure ends the
/// stream, and where there are no more the stream is over.
pub open spec fn forwards<C>(
    item: Option<Result<C, LlmError>>,
    op: Seq<char>,
    r: ItemAction<C>,
) -> bool {
    match item {
        None => r == ItemAction::<C>::End,
        Some(Ok(c)) => r == ItemAction::Send(c),
        Some(Err(e)) => r matches ItemAction::Error(w) && answers(e, op, w),
    }
}

/// Forwards one item of a chat.
pub fn chat<C>(item: Option<Result<C, LlmError>>) -> (r: ItemAction<C>)
    ensures
        forwards(item, "llm.chat"@, r),
{
    match item {
        None => ItemAction::End,
        Some(Ok(c)) => ItemAction::Send(c),
        Some(Err(e)) => ItemAction::Error(refusal(e, "llm.chat")),
    }
}

/// Forwards what is told while a model is loaded.
pub fn load_model<C>(item: Option<Result<C, LlmError>>) -> (r: ItemAction<C>)
    ensures
        forwards(item, "llm.load_model"@, r),
{
    match item {
        None => ItemAction::End,
        Some(Ok(c)) => ItemAction::Send(c),
        Some(Err(e)) => ItemAction::Error(refusal(e, "llm.load_model")),
    }
}

/// The service is touched only for a caller who is authorized for the very
/// model the request names, or for the listing.
pub proof fn no_call_without_authorization<T, M, S>(
    request: LlmRequest<T>,
    told: LlmTold<M, S>,
    r: Next<LlmAsk<T>, LlmWaiting<T>, LlmResponse<M, S>>,
)
    requires
        llm_goes_on(LlmWaiting::Authorizing(request), told, r),
    ensures
        r is Ask ==> told is Authorized && told->Authorized_0 is Ok && r->Ask_0 == LlmAsk::Call(
            request,
        ),
        !(r is Respond),
{
}

/// To use a model, or to ask how it is doing, is to read that very model; to load
/// or unload it is to write it; to list models is to read the listing.
pub proof fn using_reads_and_loading_writes<T, M, S>(
    kind: Seq<char>,
    request: LlmRequest<T>,
    r: Next<LlmAsk<T>, LlmWaiting<T>, LlmResponse<M, S>>,
)
    requires
        llm_starts(kind, Body::Request(request), r),
    ensures
        r is Ask && r->Ask_0 is Authorize,
        r->Ask_0->access == ResourceAccess::Write <==> request is LoadModel || request is UnloadModel,
        r->Ask_0->access == ResourceAccess::Read <==> request is Chat || request is Status || request is ListModels,
        r->Ask_0->resource is ListModels <==> request is ListModels,
        match request {
            LlmRequest::Chat(m) => r->Ask_0->resource->backend_id@ == m.backend_id@
                && r->Ask_0->resource->model_id@ == m.model_id@,
            LlmRequest::Status(m) => r->Ask_0->resource->backend_id@ == m.backend_id@
                && r->Ask_0->resource->model_id@ == m.model_id@,
            LlmRequest::LoadModel(m) => r->Ask_0->resource->backend_id@ == m.backend_id@
                && r->Ask_0->resource->model_id@ == m.model_id@,
            LlmRequest::UnloadModel(m) => r->Ask_0->resource->backend_id@ == m.backend_id@
                && r->Ask_0->resource->model_id@ == m.model_id@,
            LlmRequest::ListModels => true,
        },
{
}

/// A request that is authorized is answered with what the service tells of it,
/// as it tells it.
pub proof fn a_request_is_answered_with_what_was_told<T, M, S>(
    request: LlmRequest<T>,
    second: Next<LlmAsk<T>, LlmWaiting<T>, LlmResponse<M, S>>,
    told: LlmTold<M, S>,
    third: Next<LlmAsk<T>, LlmWaiting<T>, LlmResponse<M, S>>,
)
    requires
        llm_goes_on(LlmWaiting::Authorizing(request), LlmTold::<M, S>::Authorized(Ok(())), second),
        second is Ask,
        llm_goes_on(second->Ask_1, told, third),
    ensures
        second->Ask_0 == LlmAsk::Call(request),
        match request {
            LlmRequest::ListModels => told matches LlmTold::Models(Ok(models)) ==> third == Next::<
                LlmAsk<T>,
                LlmWaiting<T>,
                LlmResponse<M, S>,
            >::Respond(LlmResponse::Models(models)),
            LlmRequest::Status(_) => told matches LlmTold::Status(Ok(status)) ==> third == Next::<
                LlmAsk<T>,
                LlmWaiting<T>,
                LlmResponse<M, S>,
            >::Respond(LlmResponse::Status(status)),
            LlmRequest::UnloadModel(_) => told matches LlmTold::Unloaded(Ok(_)) ==> third
                == Next::<LlmAsk<T>, LlmWaiting<T>, LlmResponse<M, S>>::Respond(LlmResponse::Empty),
            
            _ => third is Refuse,
        },
        request is ListModels && told is Models && told->Models_0 is Err ==> third is Refuse,
        request is Status && told is Status && told->Status_0 is Err ==> third is Refuse,
        request is UnloadModel && told is Unloaded && told->Unloaded_0 is Err ==> third is Refuse,
{
}

/// Each failure is told by a code of its own kind: what is not supported, what
/// the request got wrong, a model that is not known, credentials that are not
/// taken, a fault that may
/// clear on its own, what was cancelled, and the rest.
pub proof fn failures_are_told_apart(e: LlmError, op: Seq<char>, w: WaferError)
    requires
        answers(e, op, w),
    ensures
        w.code == ErrorCode::Unimplemented <==> e is NotSupported,
        w.code == ErrorCode::InvalidArgument <==> e is InvalidRequest,
        w.code == ErrorCode::Internal <==> e is BackendError,
        w.code == ErrorCode::NotFound <==> e is ModelNotFound,
        w.code == ErrorCode::Unavailable <==> e is RateLimited || e is Network,
        w.code == ErrorCode::Unauthenticated <==> e is Unauthorized,
        w.code == ErrorCode::Cancelled <==> e is Cancelled,
        w.detail is None,
        op.is_prefix_of(w.message@),
{
    assert((op + ": "@ + error_answer(e).1).take(op.len() as int) =~= op);
    assert(w.message@.take(op.len() as int) =~= op);
}

/// Every item of a stream is sent as it came, and nothing is sent that did not.
pub proof fn items_are_forwarded<C>(
    item: Option<Result<C, LlmError>>,
    op: Seq<char>,
    r: ItemAction<C>,
    c: C,
)
    requires
        forwards(item, op, r),
    ensures
        r == ItemAction::Send(c) <==> item == Some(Ok::<C, LlmError>(c)),
        r is End <==> item is None,
        r is Error <==> item is Some && item->0 is Err,
{
}

} // verus!
