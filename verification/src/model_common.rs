//! How models are doing, for every interface that has models.

use vstd::prelude::*;

verus! {

/// How a model on a backend is doing; `P` stands for a fraction between zero
/// and one.
#[derive(Debug, Clone, PartialEq)]
pub struct ModelStatus<P> {
    pub state: ModelState,
    /// How far it is loaded, while it is.
    pub progress: Option<P>,
}

/// What a model on a backend is doing.
#[derive(Debug, Clone, PartialEq, Eq)]
pub enum ModelState {
    /// It can be used.
    Ready,
    /// It is being loaded.
    Loading,
    /// It is known but not loaded.
    Unloaded,
    /// It failed.
    Error { message: String },
}

/// What is told while a model is loaded.
#[derive(Debug, Clone, PartialEq, Eq)]
pub struct LoadProgress {
    /// What is being done.
    pub stage: String,
    /// How many bytes came in, where that is known.
    pub bytes_downloaded: Option<u64>,
    /// How many there are, where that is known.
    pub bytes_total: Option<u64>,
}

impl<P> ModelStatus<P> {
    /// The status of a model that can be used.
    pub fn ready() -> (r: Self)
        ensures
            r.state == ModelState::Ready,
            r.progress is None,
    {
        ModelStatus { state: ModelState::Ready, progress: None }
    }

    /// The status of a model that is loaded so far.
    pub fn loading(progress: P) -> (r: Self)
        ensures
            r.state == ModelState::Loading,
            r.progress == Some(progress),
    {
        ModelStatus { state: ModelState::Loading, progress: Some(progress) }
    }

    /// The status of a model that is known but not loaded.
    pub fn unloaded() -> (r: Self)
        ensures
            r.state == ModelState::Unloaded,
            r.progress is None,
    {
        ModelStatus { state: ModelState::Unloaded, progress: None }
    }

    /// The status of a model that failed.
    pub fn error(message: &str) -> (r: Self)
        ensures
            r.state matches ModelState::Error { message: m } && m@ == message@,
            r.progress is None,
    {
        ModelStatus { state: ModelState::Error { message: message.to_owned() }, progress: None }
    }
}

impl LoadProgress {
    /// What is told of a stage; nothing is known of its bytes.
    pub fn new(stage: &str) -> (r: Self)
        ensures
            r.stage@ == stage@,
            r.bytes_downloaded is None,
            r.bytes_total is None,
    {
        LoadProgress { stage: stage.to_owned(), bytes_downloaded: None, bytes_total: None }
    }
}

} // verus!
