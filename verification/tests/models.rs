use wafer_core::error::{ErrorCode, WaferError};
use wafer_core::handler_util::{Body, ItemAction, Next, ResourceAccess};
use wafer_core::image::handler as image;
use wafer_core::image::handler::{image_error_to_block_error, ImageAsk, ImageRequest, ImageTold};
use wafer_core::image::router::MultiBackendImageService;
use wafer_core::image::service::{ImageError, ImageService};
use wafer_core::llm::handler as llm;
use wafer_core::llm::handler::{
    llm_error_to_block_error, LlmAsk, LlmRequest, LlmResource, LlmResponse, LlmTold, LlmWaiting,
    ModelRequest,
};
use wafer_core::llm::router::MultiBackendLlmService;
use wafer_core::llm::service::{
    load_model_unsupported, unload_model_unsupported, LlmError, LlmService,
};
use wafer_core::model_common::{LoadProgress, ModelState, ModelStatus};
use wafer_core::model_listing::{ListingStep, ModelListing};

#[test]
fn model_status_constructors_set_expected_state() {
    assert_eq!(ModelStatus::<f32>::ready().state, ModelState::Ready);
    assert!(matches!(
        ModelStatus::loading(0.5f32),
        ModelStatus {
            state: ModelState::Loading,
            progress: Some(p)
        } if (p - 0.5).abs() < f32::EPSILON
    ));
    assert_eq!(ModelStatus::<f32>::unloaded().state, ModelState::Unloaded);
    assert!(matches!(
        ModelStatus::<f32>::error("boom").state,
        ModelState::Error { message } if message == "boom"
    ));
}

#[test]
fn load_progress_new_defaults_byte_counts() {
    let p = LoadProgress::new("downloading");
    assert_eq!(p.stage, "downloading");
    assert!(p.bytes_downloaded.is_none());
    assert!(p.bytes_total.is_none());
}

#[test]
fn a_network_error_is_unavailable() {
    let (code, msg) = llm_error_to_block_error(LlmError::Network("connection refused".into()));
    assert_eq!(code, ErrorCode::Unavailable);
    assert_eq!(msg, "network: connection refused");
}

#[test]
fn handler_a_network_error_is_unavailable() {
    let (code, msg) = image_error_to_block_error(ImageError::Network("connection refused".into()));
    assert_eq!(code, ErrorCode::Unavailable);
    assert_eq!(msg, "network: connection refused");
}

#[test]
fn llm_errors_say_and_answer() {
    for (error, said, code, message) in [
        (
            LlmError::NotSupported,
            "not supported by this backend",
            ErrorCode::Unimplemented,
            "not supported",
        ),
        (
            LlmError::InvalidRequest("missing model".into()),
            "invalid request: missing model",
            ErrorCode::InvalidArgument,
            "missing model",
        ),
        (LlmError::BackendError("b".into()), "backend error: b", ErrorCode::Internal, "b"),
        (LlmError::ModelNotFound("m".into()), "model not found: m", ErrorCode::NotFound, "m"),
        (LlmError::RateLimited, "rate limited", ErrorCode::Unavailable, "rate limited"),
        (LlmError::Unauthorized, "unauthorized", ErrorCode::Unauthenticated, "unauthorized"),
        (LlmError::Network("n".into()), "network error: n", ErrorCode::Unavailable, "network: n"),
        (LlmError::Cancelled, "cancelled", ErrorCode::Cancelled, "cancelled"),
    ] {
        assert_eq!(error.to_string(), said);
        assert_eq!(llm_error_to_block_error(error), (code, message.to_string()));
    }
}

#[test]
fn image_errors_say_and_answer() {
    for (error, said, code, message) in [
        (
            ImageError::NotSupported,
            "not supported by this backend",
            ErrorCode::Unimplemented,
            "not supported",
        ),
        (
            ImageError::InvalidRequest("missing prompt".into()),
            "invalid request: missing prompt",
            ErrorCode::InvalidArgument,
            "missing prompt",
        ),
        (ImageError::BackendError("b".into()), "backend error: b", ErrorCode::Internal, "b"),
        (ImageError::ModelNotFound("m".into()), "model not found: m", ErrorCode::NotFound, "m"),
        (ImageError::Network("n".into()), "network error: n", ErrorCode::Unavailable, "network: n"),
        (ImageError::Cancelled, "cancelled", ErrorCode::Cancelled, "cancelled"),
    ] {
        assert_eq!(error.to_string(), said);
        assert_eq!(image_error_to_block_error(error), (code, message.to_string()));
    }
}

struct MinimalLlm;

impl LlmService for MinimalLlm {}

struct MinimalImage;

impl ImageService for MinimalImage {}

#[test]
fn default_claims_backend_returns_false() {
    assert!(!MinimalLlm.claims_backend("anything"));
}

#[test]
fn service_default_claims_backend_returns_false() {
    assert!(!MinimalImage.claims_backend("anything"));
}

#[test]
fn default_load_model_returns_not_supported() {
    assert!(matches!(load_model_unsupported(), LlmError::NotSupported));
}

#[test]
fn default_unload_model_returns_not_supported() {
    assert!(matches!(unload_model_unsupported(), LlmError::NotSupported));
}

#[test]
fn service_default_load_model_returns_not_supported() {
    assert!(matches!(
        wafer_core::image::service::load_model_unsupported(),
        ImageError::NotSupported
    ));
}

#[test]
fn service_default_unload_model_returns_not_supported() {
    assert!(matches!(
        wafer_core::image::service::unload_model_unsupported(),
        ImageError::NotSupported
    ));
}

struct Claiming {
    backend: &'static str,
    text: &'static str,
}

impl LlmService for Claiming {
    fn claims_backend(&self, backend_id: &str) -> bool {
        backend_id == self.backend
    }
}

impl ImageService for Claiming {
    fn claims_backend(&self, backend_id: &str) -> bool {
        backend_id == self.backend
    }
}

#[test]
fn router_dispatches_by_backend_id() {
    let mut router = MultiBackendLlmService::new();
    router
        .register("a", Claiming { backend: "a", text: "from-a" })
        .register("b", Claiming { backend: "b", text: "from-b" });
    assert_eq!(router.route_chat("b").map(|s| s.text), Ok("from-b"));
}

#[test]
fn router_unknown_backend_yields_invalid_request() {
    let router: MultiBackendLlmService<Claiming> = MultiBackendLlmService::new();
    assert_eq!(
        router.route_chat("nope").map(|s| s.text),
        Err(LlmError::InvalidRequest("unknown backend_id: nope".into()))
    );
}

#[test]
fn router_list_models_aggregates_across_backends() {
    let ListingStep::Ask(0, listing) = ModelListing::<&str>::start(2) else {
        panic!("the first service is asked first")
    };
    let ListingStep::Ask(1, listing) = listing.resume(Ok::<_, LlmError>(vec!["m1"])) else {
        panic!("then the second")
    };
    match listing.resume(Ok::<_, LlmError>(vec!["m2"])) {
        ListingStep::Done(models) => assert_eq!(models, ["m1", "m2"]),
        other => panic!("{other:?}"),
    }
}

#[test]
fn router_list_models_tolerates_per_backend_failure() {
    let ListingStep::Ask(0, listing) = ModelListing::<&str>::start(2) else {
        panic!("the first service is asked first")
    };
    let failed: Result<Vec<&str>, LlmError> = Err(LlmError::BackendError("offline".into()));
    let ListingStep::Ask(1, listing) = listing.resume(failed) else {
        panic!("a failing service ends nothing")
    };
    match listing.resume(Ok::<_, LlmError>(vec!["m1"])) {
        ListingStep::Done(models) => assert_eq!(models, ["m1"]),
        other => panic!("{other:?}"),
    }
    assert!(matches!(ModelListing::<&str>::start(0), ListingStep::Done(m) if m.is_empty()));
}

#[test]
fn router_claims_backend_reflects_registrations() {
    let mut router = MultiBackendLlmService::new();
    router.register("a", Claiming { backend: "alpha", text: "" });
    assert!(router.claims_backend("alpha"));
    assert!(!router.claims_backend("beta"));
}

#[test]
fn router_status_dispatches_to_claiming_backend() {
    let mut router = MultiBackendLlmService::new();
    router.register("a", Claiming { backend: "alpha", text: "t" });
    assert_eq!(router.route("alpha").map(|s| s.text), Ok("t"));
    assert_eq!(
        router.route("unknown").map(|s| s.text),
        Err(LlmError::InvalidRequest("unknown backend: unknown".into()))
    );
}

#[test]
fn generate_dispatches_to_claiming_backend() {
    let mut router = MultiBackendImageService::new();
    router.register("a", Claiming { backend: "alpha", text: "image/alpha" });
    router.register("b", Claiming { backend: "bravo", text: "image/bravo" });
    assert_eq!(router.route("bravo").map(|s| s.text), Ok("image/bravo"));
}

#[test]
fn generate_unknown_backend_returns_invalid_request() {
    let router: MultiBackendImageService<Claiming> = MultiBackendImageService::new();
    assert_eq!(
        router.route("nope").map(|s| s.text),
        Err(ImageError::InvalidRequest("unknown backend_id: nope".into()))
    );
}

#[test]
fn first_registered_claims_backend_wins() {
    let mut router = MultiBackendImageService::new();
    router.register("a", Claiming { backend: "x", text: "first" });
    router.register("b", Claiming { backend: "x", text: "second" });
    assert_eq!(router.route("x").map(|s| s.text), Ok("first"));
    assert_eq!(router.find("x"), Some(0));
}

fn model(backend: &str, id: &str) -> ModelRequest<()> {
    ModelRequest { backend_id: backend.into(), model_id: id.into(), rest: () }
}

#[test]
fn llm_operations_are_authorized_on_their_model() {
    for (request, write) in [
        (LlmRequest::Chat(model("b", "m")), false),
        (LlmRequest::Status(model("b", "m")), false),
        (LlmRequest::LoadModel(model("b", "m")), true),
        (LlmRequest::UnloadModel(model("b", "m")), true),
    ] {
        match llm::handle_message::<(), (), ()>("k", Body::Request(request)) {
            Next::Ask(
                LlmAsk::Authorize { resource: LlmResource::Model { backend_id, model_id }, access },
                w,
            ) => {
                assert_eq!((backend_id.as_str(), model_id.as_str()), ("b", "m"));
                let wanted = if write { ResourceAccess::Write } else { ResourceAccess::Read };
                assert_eq!(access, wanted);
                let denied = WaferError::new(ErrorCode::PermissionDenied, "no".into());
                match w.resume::<(), ()>(LlmTold::Authorized(Err(denied))) {
                    Next::Refuse(e) => assert_eq!(e.code, ErrorCode::PermissionDenied),
                    other => panic!("{other:?}"),
                }
            }
            other => panic!("{other:?}"),
        }
    }
    assert!(matches!(
        llm::handle_message::<(), (), ()>("k", Body::Request(LlmRequest::ListModels)),
        Next::Ask(
            LlmAsk::Authorize { resource: LlmResource::ListModels, access: ResourceAccess::Read },
            _
        )
    ));
}

#[test]
fn llm_replies_and_streams() {
    match LlmWaiting::<()>::Listing.resume::<i32, ()>(LlmTold::Models(Ok(3))) {
        Next::Respond(LlmResponse::Models(3)) => {}
        other => panic!("{other:?}"),
    }
    match LlmWaiting::<()>::Status.resume::<i32, ()>(LlmTold::Status(Err(LlmError::RateLimited))) {
        Next::Refuse(e) => assert_eq!(e.message, "status: rate limited"),
        other => panic!("{other:?}"),
    }
    assert!(matches!(llm::chat(Some(Ok(5))), ItemAction::Send(5)));
    assert!(matches!(llm::chat::<i32>(None), ItemAction::End));
    match llm::chat::<i32>(Some(Err(LlmError::Cancelled))) {
        ItemAction::Error(e) => {
            assert_eq!(e.code, ErrorCode::Cancelled);
            assert_eq!(e.message, "llm.chat: cancelled");
        }
        other => panic!("{other:?}"),
    }
    match llm::handle_message::<(), (), ()>("llm.x", Body::Unknown) {
        Next::Refuse(e) => {
            assert_eq!(e.code, ErrorCode::InvalidArgument);
            assert_eq!(e.message, "unknown llm operation: llm.x");
        }
        other => panic!("{other:?}"),
    }
}

#[test]
fn image_generation_is_answered_whole() {
    let request = image::ModelRequest { backend_id: "b".into(), model_id: "m".into(), rest: "cat" };
    let w = match image::handle_message::<&str, i32, (), ()>(
        "image.generate",
        Body::Request(ImageRequest::Generate(request)),
    ) {
        Next::Ask(ImageAsk::Authorize { .. }, w) => w,
        other => panic!("{other:?}"),
    };
    let w = match w.resume::<i32, (), ()>(ImageTold::Authorized(Ok(()))) {
        Next::Ask(ImageAsk::Call(ImageRequest::Generate(m)), w) => {
            assert_eq!(m.rest, "cat");
            w
        }
        other => panic!("{other:?}"),
    };
    match w.resume::<i32, (), ()>(ImageTold::Generated(Err(ImageError::NotSupported))) {
        Next::Refuse(e) => {
            assert_eq!(e.code, ErrorCode::Unimplemented);
            assert_eq!(e.message, "image.generate: not supported");
        }
        other => panic!("{other:?}"),
    }
    match image::load_model::<i32>(Some(Err(ImageError::Network("n".into())))) {
        ItemAction::Error(e) => assert_eq!(e.message, "image.load_model: network: n"),
        other => panic!("{other:?}"),
    }
}

#[test]
fn list_models_aggregates_across_impls() {
    let ListingStep::Ask(0, listing) = ModelListing::<&str>::start(2) else {
        panic!("the first service is asked first")
    };
    let ListingStep::Ask(1, listing) = listing.resume(Ok::<_, ImageError>(vec!["m1"])) else {
        panic!("then the second")
    };
    match listing.resume(Ok::<_, ImageError>(vec!["m2"])) {
        ListingStep::Done(models) => assert_eq!(models.len(), 2),
        other => panic!("{other:?}"),
    }
}

#[test]
fn router_load_model_unknown_backend_yields_error() {
    let router: MultiBackendLlmService<Claiming> = MultiBackendLlmService::new();
    assert!(matches!(
        router.route("nope").map(|s| s.text),
        Err(LlmError::InvalidRequest(_))
    ));
}

#[test]
fn llm_error_display() {
    let e = LlmError::InvalidRequest("missing model".into());
    assert_eq!(e.to_string(), "invalid request: missing model");
}

#[test]
fn image_error_display() {
    let e = ImageError::InvalidRequest("missing prompt".into());
    assert_eq!(e.to_string(), "invalid request: missing prompt");
}
