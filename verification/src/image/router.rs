//! Several services of images behind one: the first that claims a
//! backend serves it.

use vstd::prelude::*;

use crate::image::service::{ImageError, ImageService};
use crate::text;

verus! {

/// Services of images, each under a label, in the order in which they
/// were registered.
pub struct MultiBackendImageService<S: ImageService> {
    pub impls: Vec<(String, S)>,
}

/// The service at `i` is the first that claims the backend.
pub open spec fn first_claims<S: ImageService>(impls: Seq<(String, S)>, id: &str, i: int) -> bool {
    &&& 0 <= i < impls.len()
    &&& call_ensures(S::claims_backend, (&impls[i].1, id), true)
    &&& forall|j: int|
        0 <= j < i ==> call_ensures(S::claims_backend, (&(#[trigger] impls[j]).1, id), false)
}

/// No service claims the backend.
pub open spec fn none_claims<S: ImageService>(impls: Seq<(String, S)>, id: &str) -> bool {
    forall|j: int|
        0 <= j < impls.len() ==> call_ensures(
            S::claims_backend,
            (&(#[trigger] impls[j]).1, id),
            false,
        )
}

impl<S: ImageService> MultiBackendImageService<S> {
    /// A router without services.
    pub fn new() -> (r: Self)
        ensures
            r.impls@.len() == 0,
    {
        MultiBackendImageService { impls: Vec::new() }
    }

    /// Registers a service under a label. Where several claim a backend, the
    /// one registered first serves it.
    pub fn register(&mut self, label: &str, service: S) -> (r: &mut Self)
        ensures
            r.impls@.len() == old(self).impls@.len() + 1,
            r.impls@.drop_last() == old(self).impls@,
            r.impls@.last().0@ == label@,
            r.impls@.last().1 == service,
            *final(self) == *final(r),
    {
        self.impls.push((label.to_owned(), service));
        proof {
            assert(self.impls@.drop_last() =~= old(self).impls@);
        }
        self
    }

    /// Where the first service stands that claims the backend.
    pub fn find(&self, backend_id: &str) -> (r: Option<usize>)
        ensures
            match r {
                Some(i) => first_claims(self.impls@, backend_id, i as int),
                None => none_claims(self.impls@, backend_id),
            },
    {
        for i in 0..self.impls.len()
            invariant
                forall|j: int|
                    0 <= j < i ==> call_ensures(
                        S::claims_backend,
                        (&(#[trigger] self.impls@[j]).1, backend_id),
                        false,
                    ),
        {
            if self.impls[i].1.claims_backend(backend_id) {
                return Some(i);
            }
        }
        None
    }

    /// The service that serves the backend of a request: to generate images, or
    /// to tell the status of a model, to load it or to unload it.
    pub fn route(&self, backend_id: &str) -> (r: Result<&S, ImageError>)
        ensures
            match r {
                Ok(s) => exists|i: int| #[trigger]
                    first_claims(self.impls@, backend_id, i) && *s == self.impls@[i].1,
                Err(e) => none_claims(self.impls@, backend_id) && (e matches
                    ImageError::InvalidRequest(m) && m@ == "unknown backend_id: "@ + backend_id@),
            },
    {
        match self.find(backend_id) {
            Some(i) => {
                proof {
                    assert(first_claims(self.impls@, backend_id, i as int));
                }
                Ok(&self.impls[i].1)
            },
            None => Err(ImageError::InvalidRequest(text::join2("unknown backend_id: ", backend_id))),
        }
    }
}

/// A router claims the backends that one of its services claims.
impl<S: ImageService> ImageService for MultiBackendImageService<S> {
    fn claims_backend(&self, backend_id: &str) -> (r: bool)
        ensures
            r ==> exists|i: int| #[trigger] first_claims(self.impls@, backend_id, i),
            !r ==> none_claims(self.impls@, backend_id),
    {
        match self.find(backend_id) {
            Some(i) => {
                proof {
                    assert(first_claims(self.impls@, backend_id, i as int));
                }
                true
            },
            None => false,
        }
    }
}

/// A later registration takes no backend from an earlier service: whoever
/// served it still does.
pub proof fn earlier_services_win<S: ImageService>(
    before: Seq<(String, S)>,
    after: Seq<(String, S)>,
    id: &str,
    i: int,
)
    requires
        after.len() > 0,
        after.drop_last() == before,
        first_claims(before, id, i),
    ensures
        first_claims(after, id, i),
{
    assert(after[i] == before[i]);
    assert forall|j: int| 0 <= j < i implies call_ensures(
        S::claims_backend,
        (&(#[trigger] after[j]).1, id),
        false,
    ) by {
        assert(after[j] == before[j]);
    }
}

} // verus!
