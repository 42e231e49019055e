//! Listing the models of several services.

use vstd::prelude::*;

verus! {

/// The models of several services being listed; `M` stands for a model.
#[derive(Debug)]
pub struct ModelListing<M> {
    /// How many services there are.
    pub services: usize,
    /// How many have been asked.
    pub asked: usize,
    pub models: Vec<M>,
}

/// What comes next.
#[derive(Debug)]
pub enum ListingStep<M> {
    /// Ask the service at this place.
    Ask(usize, ModelListing<M>),
    Done(Vec<M>),
}

/// The models of those services that answered, in the order of the services.
/// One that fails costs only its own.
pub open spec fn all_models<M, E>(answers: Seq<Result<Vec<M>, E>>) -> Seq<M>
    decreases answers.len(),
{
    if answers.len() == 0 {
        Seq::empty()
    } else {
        let before = all_models(answers.drop_last());
        match answers.last() {
            Ok(models) => before + models@,
            Err(_) => before,
        }
    }
}

/// The listing goes on after `asked` services.
pub open spec fn listing_goes_on<M>(
    services: usize,
    asked: int,
    models: Seq<M>,
    step: ListingStep<M>,
) -> bool {
    if asked < services {
        step matches ListingStep::Ask(i, l) && i == asked && l.services == services && l.asked
            == asked && l.models@ == models
    } else {
        step matches ListingStep::Done(all) && all@ == models
    }
}

impl<M> ModelListing<M> {
    /// Starts to list the models of so many services.
    pub fn start(services: usize) -> (r: ListingStep<M>)
        ensures
            listing_goes_on(services, 0, Seq::empty(), r),
    {
        let models: Vec<M> = Vec::new();
        if services > 0 {
            ListingStep::Ask(0, ModelListing { services, asked: 0, models })
        } else {
            ListingStep::Done(models)
        }
    }

    /// Goes on with what the service answered.
    pub fn resume<E>(self, answer: Result<Vec<M>, E>) -> (r: ListingStep<M>)
        ensures
            listing_goes_on(
                self.services,
                self.asked + 1,
                match answer {
                    Ok(models) => self.models@ + models@,
                    Err(_) => self.models@,
                },
                r,
            ),
    {
        let mut models = self.models;
        if let Ok(more) = answer {
            let mut more = more;
            models.append(&mut more);
        }
        if self.asked < self.services && self.asked + 1 < self.services {
            let asked: usize = self.asked + 1;
            ListingStep::Ask(asked, ModelListing { services: self.services, asked, models })
        } else {
            ListingStep::Done(models)
        }
    }
}

/// A listing gives the models of every service that answered: what each step
/// keeps is what the answers so far amount to.
pub proof fn a_listing_adds_up<M, E>(
    answers: Seq<Result<Vec<M>, E>>,
    listing: ModelListing<M>,
    answer: Result<Vec<M>, E>,
    step: ListingStep<M>,
)
    requires
        listing.asked == answers.len(),
        listing.models@ == all_models(answers),
        listing_goes_on(
            listing.services,
            listing.asked + 1,
            match answer {
                Ok(models) => listing.models@ + models@,
                Err(_) => listing.models@,
            },
            step,
        ),
    ensures
        match step {
            ListingStep::Ask(_, next) => next.asked == answers.push(answer).len()
                && next.models@ == all_models(answers.push(answer)),
            ListingStep::Done(all) => all@ == all_models(answers.push(answer)),
        },
{
    assert(answers.push(answer).drop_last() =~= answers);
}

/// The step at `k` asks a service, and its answer leads to the next.
pub open spec fn asks_on<M, E>(
    steps: Seq<ListingStep<M>>,
    answers: Seq<Result<Vec<M>, E>>,
    k: int,
) -> bool {
    steps[k] is Ask && call_ensures(
        ModelListing::<M>::resume::<E>,
        (steps[k]->Ask_1, answers[k]),
        steps[k + 1],
    )
}

/// Every service is asked, each once, in order, whatever the others answer; the
/// listing then gives the models of all that answered.
pub proof fn every_service_is_asked<M, E>(
    services: usize,
    steps: Seq<ListingStep<M>>,
    answers: Seq<Result<Vec<M>, E>>,
    k: int,
)
    requires
        answers.len() == services,
        steps.len() == services + 1,
        call_ensures(ModelListing::<M>::start, (services,), steps[0]),
        forall|k: int| 0 <= k < services ==> #[trigger] asks_on(steps, answers, k),
        0 <= k <= services,
    ensures
        k < services ==> steps[k] is Ask && steps[k]->Ask_0 == k && steps[k]->Ask_1.models@
            == all_models(answers.take(k)),
        k == services ==> steps[k] is Done && steps[k]->Done_0@ == all_models(answers),
        k < services ==> steps[k]->Ask_1.services == services && steps[k]->Ask_1.asked == k,
    decreases k,
{
    if k == 0 {
        assert(answers.take(0) =~= Seq::empty());
        assert(services == 0 ==> answers =~= Seq::empty());
    } else {
        every_service_is_asked(services, steps, answers, k - 1);
        assert(asks_on(steps, answers, k - 1));
        assert(answers.take(k).drop_last() =~= answers.take(k - 1));
        assert(answers.take(k).last() == answers[k - 1]);
        if k == services {
            assert(answers.take(k) =~= answers);
        }
    }
}

/// The models of a service that answered are all given, in their order, and
/// none of another is lost: what is given holds each of them.
pub proof fn no_model_is_lost<M, E>(answers: Seq<Result<Vec<M>, E>>, i: int, j: int)
    requires
        0 <= i < answers.len(),
        answers[i] is Ok,
        0 <= j < answers[i]->Ok_0@.len(),
    ensures
        all_models(answers).contains(answers[i]->Ok_0@[j]),
    decreases answers.len(),
{
    let before = all_models(answers.drop_last());
    let all = all_models(answers);
    if i == answers.len() - 1 {
        assert(all[before.len() + j] == answers[i]->Ok_0@[j]);
    } else {
        no_model_is_lost(answers.drop_last(), i, j);
        let k = before.index_of(answers[i]->Ok_0@[j]);
        assert(all[k] == answers[i]->Ok_0@[j]);
    }
}

} // verus!
