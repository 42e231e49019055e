//! Handling an image message: the caller is authorized for the model
//! or the operation, and the service does it.

use vstd::prelude::*;

use crate::error::{invalid, ErrorCode, WaferError};
use crate::handler_util;
use crate::handler_util::{malformed, misfit, Body, ItemAction, Next, ResourceAccess};
use crate::image::service::ImageError;
use crate::text;

verus! {

/// A request that names a model; `T` stands for what else it holds.
#[derive(Debug)]
pub struct ModelRequest<T> {
    pub backend_id: String,
    pub model_id: String,
    pub rest: T,
}

/// What a message asks for; `T` stands for what it takes to generate
/// images, besides the model.
#[derive(Debug)]
pub enum ImageRequest<T> {
    Generate(ModelRequest<T>),
    ListModels,
    Status(ModelRequest<()>),
    LoadModel(ModelRequest<()>),
    UnloadModel(ModelRequest<()>),
}

/// What the caller must be authorized for, in the namespace of the block that
/// serves the call.
#[derive(Debug)]
pub enum ImageResource {
    Model { backend_id: String, model_id: String },
    /// The listing of all models.
    ListModels,
}

/// What to ask for.
#[derive(Debug)]
pub enum ImageAsk<T> {
    Authorize { resource: ImageResource, access: ResourceAccess },
    Call(ImageRequest<T>),
}

/// What is waited for.
#[derive(Debug)]
pub enum ImageWaiting<T> {
    Authorizing(ImageRequest<T>),
    Listing,
    Status,
    Unloading,
    Generating,
    /// The reply is a stream, item by item.
    Loading,
}

/// What was answered; `G` stands for images, `M` for a list of models, `S` for a
/// status.
#[derive(Debug)]
pub enum ImageTold<G, M, S> {
    Authorized(Result<(), WaferError>),
    Generated(Result<G, ImageError>),
    Models(Result<M, ImageError>),
    Status(Result<S, ImageError>),
    Unloaded(Result<(), ImageError>),
}

/// What a message is answered with.
#[derive(Debug)]
pub enum ImageResponse<G, M, S> {
    Generated(G),
    Models(M),
    Status(S),
    Empty,
}

/// The class and the words of an error's answer.
pub open spec fn error_answer(e: ImageError) -> (ErrorCode, Seq<char>) {
    match e {
        ImageError::NotSupported => (ErrorCode::Unimplemented, "not supported"@),
        ImageError::InvalidRequest(m) => (ErrorCode::InvalidArgument, m@),
        ImageError::BackendError(m) => (ErrorCode::Internal, m@),
        ImageError::ModelNotFound(m) => (ErrorCode::NotFound, m@),
        ImageError::Network(m) => (ErrorCode::Unavailable, "network: "@ + m@),
        ImageError::Cancelled => (ErrorCode::Cancelled, "cancelled"@),
    }
}

/// The class and the words of an error's answer.
pub fn image_error_to_block_error(e: ImageError) -> (r: (ErrorCode, String))
    ensures
        (r.0, r.1@) == error_answer(e),
{
    match e {
        ImageError::NotSupported => (ErrorCode::Unimplemented, "not supported".to_owned()),
        ImageError::InvalidRequest(m) => (ErrorCode::InvalidArgument, m),
        ImageError::BackendError(m) => (ErrorCode::Internal, m),
        ImageError::ModelNotFound(m) => (ErrorCode::NotFound, m),
        ImageError::Network(m) => (ErrorCode::Unavailable, text::join2("network: ", m.as_str())),
        ImageError::Cancelled => (ErrorCode::Cancelled, "cancelled".to_owned()),
    }
}

/// The answer to an error in doing `op`.
pub open spec fn answers(e: ImageError, op: Seq<char>, w: WaferError) -> bool {
    w.says(error_answer(e).0, op + ": "@ + error_answer(e).1)
}

fn refusal(e: ImageError, op: &str) -> (r: WaferError)
    ensures
        answers(e, op@, r),
{
    let (code, message) = image_error_to_block_error(e);
    WaferError::new(code, text::join3(op, ": ", message.as_str()))
}

/// What a request must be authorized for: to use a model is to read it, to load
/// or unload it is to write it, as every caller finds it so.
pub open spec fn needs<T>(request: ImageRequest<T>, resource: ImageResource, access: ResourceAccess) -> bool {
    match request {
        ImageRequest::Generate(m) => names_model(m, resource) && access == ResourceAccess::Read,
        ImageRequest::ListModels => resource is ListModels && access == ResourceAccess::Read,
        ImageRequest::Status(m) => names_model(m, resource) && access == ResourceAccess::Read,
        ImageRequest::LoadModel(m) => names_model(m, resource) && access == ResourceAccess::Write,
        ImageRequest::UnloadModel(m) => names_model(m, resource) && access == ResourceAccess::Write,
    }
}

/// The resource is the model that the request names.
pub open spec fn names_model<T>(m: ModelRequest<T>, resource: ImageResource) -> bool {
    resource matches ImageResource::Model { backend_id, model_id } && backend_id@ == m.backend_id@
        && model_id@ == m.model_id@
}

fn model_resource<T>(m: &ModelRequest<T>) -> (r: ImageResource)
    ensures
        names_model(*m, r),
{
    ImageResource::Model { backend_id: m.backend_id.clone(), model_id: m.model_id.clone() }
}

/// How a message starts: with the caller's authorization.
pub open spec fn image_starts<T, G, M, S>(
    kind: Seq<char>,
    body: Body<ImageRequest<T>>,
    r: Next<ImageAsk<T>, ImageWaiting<T>, ImageResponse<G, M, S>>,
) -> bool {
    match body {
        Body::Unknown => r matches Next::Refuse(e) && e.says(
            ErrorCode::InvalidArgument,
            "unknown image operation: "@ + kind,
        ),
        Body::Malformed { op, why } => r matches Next::Refuse(e)
            && handler_util::refuses_malformed(e, op@, why@),
        Body::Request(request) => r matches Next::Ask(
            ImageAsk::Authorize { resource, access },
            w,
        ) && needs(request, resource, access) && w == ImageWaiting::Authorizing(request),
    }
}

/// Starts to handle a message.
pub fn handle_message<T, G, M, S>(kind: &str, body: Body<ImageRequest<T>>) -> (r: Next<
    ImageAsk<T>,
    ImageWaiting<T>,
    ImageResponse<G, M, S>,
>)
    ensures
        image_starts(kind@, body, r),
{
    match body {
        Body::Unknown => Next::Refuse(invalid(text::join2("unknown image operation: ", kind))),
        Body::Malformed { op, why } => Next::Refuse(malformed(op.as_str(), why.as_str())),
        Body::Request(request) => {
            let (resource, access) = match &request {
                ImageRequest::Generate(m) => (model_resource(m), ResourceAccess::Read),
                ImageRequest::ListModels => (ImageResource::ListModels, ResourceAccess::Read),
                ImageRequest::Status(m) => (model_resource(m), ResourceAccess::Read),
                ImageRequest::LoadModel(m) => (model_resource(m), ResourceAccess::Write),
                ImageRequest::UnloadModel(m) => (model_resource(m), ResourceAccess::Write),
            };
            Next::Ask(
                ImageAsk::Authorize { resource, access },
                ImageWaiting::Authorizing(request),
            )
        },
    }
}

/// What is waited for while a request is served.
pub open spec fn serving<T>(request: ImageRequest<T>) -> ImageWaiting<T> {
    match request {
        ImageRequest::Generate(_) => ImageWaiting::Generating,
        ImageRequest::ListModels => ImageWaiting::Listing,
        ImageRequest::Status(_) => ImageWaiting::Status,
        ImageRequest::LoadModel(_) => ImageWaiting::Loading,
        ImageRequest::UnloadModel(_) => ImageWaiting::Unloading,
    }
}

/// What an answer leads to.
pub open spec fn image_goes_on<T, G, M, S>(
    waiting: ImageWaiting<T>,
    told: ImageTold<G, M, S>,
    r: Next<ImageAsk<T>, ImageWaiting<T>, ImageResponse<G, M, S>>,
) -> bool {
    match (waiting, told) {
        (ImageWaiting::Authorizing(_), ImageTold::Authorized(Err(e))) => r == Next::<
            ImageAsk<T>,
            ImageWaiting<T>,
            ImageResponse<G, M, S>,
        >::Refuse(e),
        (ImageWaiting::Authorizing(request), ImageTold::Authorized(Ok(_))) => r == Next::<
            ImageAsk<T>,
            ImageWaiting<T>,
            ImageResponse<G, M, S>,
        >::Ask(ImageAsk::Call(request), serving(request)),
        (ImageWaiting::Generating, ImageTold::Generated(Ok(images))) => r == Next::<
            ImageAsk<T>,
            ImageWaiting<T>,
            ImageResponse<G, M, S>,
        >::Respond(ImageResponse::Generated(images)),
        (ImageWaiting::Generating, ImageTold::Generated(Err(e))) => r matches Next::Refuse(w)
            && answers(e, "image.generate"@, w),
        (ImageWaiting::Listing, ImageTold::Models(Ok(models))) => r == Next::<
            ImageAsk<T>,
            ImageWaiting<T>,
            ImageResponse<G, M, S>,
        >::Respond(ImageResponse::Models(models)),
        (ImageWaiting::Listing, ImageTold::Models(Err(e))) => r matches Next::Refuse(w) && answers(
            e,
            "image.list_models"@,
            w,
        ),
        (ImageWaiting::Status, ImageTold::Status(Ok(status))) => r == Next::<
            ImageAsk<T>,
            ImageWaiting<T>,
            ImageResponse<G, M, S>,
        >::Respond(ImageResponse::Status(status)),
        (ImageWaiting::Status, ImageTold::Status(Err(e))) => r matches Next::Refuse(w) && answers(
            e,
            "image.status"@,
            w,
        ),
        (ImageWaiting::Unloading, ImageTold::Unloaded(Ok(_))) => r == Next::<
            ImageAsk<T>,
            ImageWaiting<T>,
            ImageResponse<G, M, S>,
        >::Respond(ImageResponse::Empty),
        (ImageWaiting::Unloading, ImageTold::Unloaded(Err(e))) => r matches Next::Refuse(w) && answers(
            e,
            "image.unload_model"@,
            w,
        ),
        _ => r matches Next::Refuse(e) && handler_util::is_misfit(e),
    }
}

impl<T> ImageWaiting<T> {
    /// Goes on with the answer to what was asked.
    pub fn resume<G, M, S>(self, told: ImageTold<G, M, S>) -> (r: Next<
        ImageAsk<T>,
        ImageWaiting<T>,
        ImageResponse<G, M, S>,
    >)
        ensures
            image_goes_on(self, told, r),
    {
        match (self, told) {
            (ImageWaiting::Authorizing(_), ImageTold::Authorized(Err(e))) => Next::Refuse(e),
            (ImageWaiting::Authorizing(request), ImageTold::Authorized(Ok(_))) => {
                let waiting: ImageWaiting<T> = match &request {
                    ImageRequest::Generate(_) => ImageWaiting::Generating,
                    ImageRequest::ListModels => ImageWaiting::Listing,
                    ImageRequest::Status(_) => ImageWaiting::Status,
                    ImageRequest::LoadModel(_) => ImageWaiting::Loading,
                    ImageRequest::UnloadModel(_) => ImageWaiting::Unloading,
                };
                Next::Ask(ImageAsk::Call(request), waiting)
            },
            (ImageWaiting::Generating, ImageTold::Generated(Ok(images))) => Next::Respond(
                ImageResponse::Generated(images),
            ),
            (ImageWaiting::Generating, ImageTold::Generated(Err(e))) => Next::Refuse(
                refusal(e, "image.generate"),
            ),
            (ImageWaiting::Listing, ImageTold::Models(Ok(models))) => Next::Respond(
                ImageResponse::Models(models),
            ),
            (ImageWaiting::Listing, ImageTold::Models(Err(e))) => Next::Refuse(
                refusal(e, "image.list_models"),
            ),
            (ImageWaiting::Status, ImageTold::Status(Ok(status))) => Next::Respond(
                ImageResponse::Status(status),
            ),
            (ImageWaiting::Status, ImageTold::Status(Err(e))) => Next::Refuse(refusal(e, "image.status")),
            (ImageWaiting::Unloading, ImageTold::Unloaded(Ok(_))) => Next::Respond(ImageResponse::Empty),
            (ImageWaiting::Unloading, ImageTold::Unloaded(Err(e))) => Next::Refuse(
                refusal(e, "image.unload_model"),
            ),
            _ => Next::Refuse(misfit()),
        }
    }
}

/// What an item of a stream leads to: it is sent as it is, a failure ends the
/// stream, and where there are no more the stream is over.
pub open spec fn forwards<C>(
    item: Option<Result<C, ImageError>>,
    op: Seq<char>,
    r: ItemAction<C>,
) -> bool {
    match item {
        None => r == ItemAction::<C>::End,
        Some(Ok(c)) => r == ItemAction::Send(c),
        Some(Err(e)) => r matches ItemAction::Error(w) && answers(e, op, w),
    }
}

/// Forwards what is told while a model is loaded.
pub fn load_model<C>(item: Option<Result<C, ImageError>>) -> (r: ItemAction<C>)
    ensures
        forwards(item, "image.load_model"@, r),
{
    match item {
        None => ItemAction::End,
        Some(Ok(c)) => ItemAction::Send(c),
        Some(Err(e)) => ItemAction::Error(refusal(e, "image.load_model")),
    }
}

/// The service is touched only for a caller who is authorized for the very
/// model the request names, or for the listing.
pub proof fn no_call_without_authorization<T, G, M, S>(
    request: ImageRequest<T>,
    told: ImageTold<G, M, S>,
    r: Next<ImageAsk<T>, ImageWaiting<T>, ImageResponse<G, M, S>>,
)
    requires
        image_goes_on(ImageWaiting::Authorizing(request), told, r),
    ensures
        r is Ask ==> told is Authorized && told->Authorized_0 is Ok && r->Ask_0 == ImageAsk::Call(
            request,
        ),
        !(r is Respond),
{
}

/// To use a model, or to ask how it is doing, is to read that very model; to load
/// or unload it is to write it; to list models is to read the listing.
pub proof fn using_reads_and_loading_writes<T, G, M, S>(
    kind: Seq<char>,
    request: ImageRequest<T>,
    r: Next<ImageAsk<T>, ImageWaiting<T>, ImageResponse<G, M, S>>,
)
    requires
        image_starts(kind, Body::Request(request), r),
    ensures
        r is Ask && r->Ask_0 is Authorize,
        r->Ask_0->access == ResourceAccess::Write <==> request is LoadModel || request is UnloadModel,
        r->Ask_0->access == ResourceAccess::Read <==> request is Generate || request is Status || request is ListModels,
        r->Ask_0->resource is ListModels <==> request is ListModels,
        match request {
            ImageRequest::Generate(m) => r->Ask_0->resource->backend_id@ == m.backend_id@
                && r->Ask_0->resource->model_id@ == m.model_id@,
            ImageRequest::Status(m) => r->Ask_0->resource->backend_id@ == m.backend_id@
                && r->Ask_0->resource->model_id@ == m.model_id@,
            ImageRequest::LoadModel(m) => r->Ask_0->resource->backend_id@ == m.backend_id@
                && r->Ask_0->resource->model_id@ == m.model_id@,
            ImageRequest::UnloadModel(m) => r->Ask_0->resource->backend_id@ == m.backend_id@
                && r->Ask_0->resource->model_id@ == m.model_id@,
            ImageRequest::ListModels => true,
        },
{
}

/// A request that is authorized is answered with what the service tells of it,
/// as it tells it.
pub proof fn a_request_is_answered_with_what_was_told<T, G, M, S>(
    request: ImageRequest<T>,
    second: Next<ImageAsk<T>, ImageWaiting<T>, ImageResponse<G, M, S>>,
    told: ImageTold<G, M, S>,
    third: Next<ImageAsk<T>, ImageWaiting<T>, ImageResponse<G, M, S>>,
)
    requires
        image_goes_on(ImageWaiting::Authorizing(request), ImageTold::<G, M, S>::Authorized(Ok(())), second),
        second is Ask,
        image_goes_on(second->Ask_1, told, third),
    ensures
        second->Ask_0 == ImageAsk::Call(request),
        match request {
            ImageRequest::ListModels => told matches ImageTold::Models(Ok(models)) ==> third == Next::<
                ImageAsk<T>,
                ImageWaiting<T>,
                ImageResponse<G, M, S>,
            >::Respond(ImageResponse::Models(models)),
            ImageRequest::Status(_) => told matches ImageTold::Status(Ok(status)) ==> third == Next::<
                ImageAsk<T>,
                ImageWaiting<T>,
                ImageResponse<G, M, S>,
            >::Respond(ImageResponse::Status(status)),
            ImageRequest::UnloadModel(_) => told matches ImageTold::Unloaded(Ok(_)) ==> third
                == Next::<ImageAsk<T>, ImageWaiting<T>, ImageResponse<G, M, S>>::Respond(ImageResponse::Empty),
            ImageRequest::Generate(_) => told matches ImageTold::Generated(Ok(images)) ==> third == Next::<
                ImageAsk<T>,
                ImageWaiting<T>,
                ImageResponse<G, M, S>,
            >::Respond(ImageResponse::Generated(images)),
            _ => third is Refuse,
        },
        request is ListModels && told is Models && told->Models_0 is Err ==> third is Refuse,
        request is Status && told is Status && told->Status_0 is Err ==> third is Refuse,
        request is UnloadModel && told is Unloaded && told->Unloaded_0 is Err ==> third is Refuse,
{
}

/// Each failure is told by a code of its own kind: what is not supported, what
/// the request got wrong, a model that is not known, a fault that may
/// clear on its own, what was cancelled, and the rest.
pub proof fn failures_are_told_apart(e: ImageError, op: Seq<char>, w: WaferError)
    requires
        answers(e, op, w),
    ensures
        w.code == ErrorCode::Unimplemented <==> e is NotSupported,
        w.code == ErrorCode::InvalidArgument <==> e is InvalidRequest,
        w.code == ErrorCode::Internal <==> e is BackendError,
        w.code == ErrorCode::NotFound <==> e is ModelNotFound,
        w.code == ErrorCode::Unavailable <==> e is Network,
        w.code == ErrorCode::Cancelled <==> e is Cancelled,
        w.detail is None,
        op.is_prefix_of(w.message@),
{
    assert((op + ": "@ + error_answer(e).1).take(op.len() as int) =~= op);
    assert(w.message@.take(op.len() as int) =~= op);
}

/// Every item of a stream is sent as it came, and nothing is sent that did not.
pub proof fn items_are_forwarded<C>(
    item: Option<Result<C, ImageError>>,
    op: Seq<char>,
    r: ItemAction<C>,
    c: C,
)
    requires
        forwards(item, op, r),
    ensures
        r == ItemAction::Send(c) <==> item == Some(Ok::<C, ImageError>(c)),
        r is End <==> item is None,
        r is Error <==> item is Some && item->0 is Err,
{
}

} // verus!
