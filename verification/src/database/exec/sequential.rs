//! Running the statements of a batch one after the other, for a backend that
//! cannot run them together: one result for each statement, in order, and the
//! first that fails ends the batch.

use vstd::prelude::*;

use crate::database::exec::statement::BatchResult;
use crate::database::service::DatabaseError;

verus! {

/// A batch of which some statements have run; `F` stands for a real number.
#[derive(Debug)]
pub struct SequentialBatch<F> {
    pub statements: usize,
    pub results: Vec<BatchResult<F>>,
}

/// What comes next.
#[derive(Debug)]
pub enum SequentialStep<F> {
    /// Run the statement at this place.
    Run(usize, SequentialBatch<F>),
    Done(Vec<BatchResult<F>>),
    Fail(DatabaseError),
}

/// The batch goes on after the results it has.
pub open spec fn runs_next<F>(b: SequentialBatch<F>, step: SequentialStep<F>) -> bool {
    if b.results@.len() < b.statements {
        step matches SequentialStep::Run(i, next) && i == b.results@.len() && next == b
    } else {
        step matches SequentialStep::Done(results) && results == b.results
    }
}

impl<F> SequentialBatch<F> {
    fn next(self) -> (r: SequentialStep<F>)
        ensures
            runs_next(self, r),
    {
        let i: usize = self.results.len();
        if i < self.statements {
            SequentialStep::Run(i, self)
        } else {
            SequentialStep::Done(self.results)
        }
    }

    /// Starts a batch of so many statements.
    pub fn start(statements: usize) -> (r: SequentialStep<F>)
        ensures
            if statements == 0 {
                r matches SequentialStep::Done(results) && results@.len() == 0
            } else {
                r matches SequentialStep::Run(i, b) && i == 0 && b.statements == statements
                    && b.results@.len() == 0
            },
    {
        SequentialBatch { statements, results: Vec::new() }.next()
    }

    /// Goes on with what the statement gave.
    pub fn resume(self, outcome: Result<BatchResult<F>, DatabaseError>) -> (r: SequentialStep<F>)
        ensures
            match outcome {
                Err(e) => r == SequentialStep::<F>::Fail(e),
                Ok(result) => exists|b: SequentialBatch<F>|
                    b.statements == self.statements && b.results@ == self.results@.push(result)
                        && #[trigger] runs_next(b, r),
            },
    {
        match outcome {
            Err(e) => SequentialStep::Fail(e),
            Ok(result) => {
                let mut b = self;
                b.results.push(result);
                let ghost after = b;
                let r = b.next();
                proof {
                    assert(runs_next(after, r));
                }
                r
            },
        }
    }
}

/// The step at `k` runs a statement, and what it gave leads to the next.
pub open spec fn runs_on<F>(
    steps: Seq<SequentialStep<F>>,
    given: Seq<BatchResult<F>>,
    k: int,
) -> bool {
    steps[k] is Run && call_ensures(
        SequentialBatch::<F>::resume,
        (steps[k]->Run_1, Ok::<BatchResult<F>, DatabaseError>(given[k])),
        steps[k + 1],
    )
}

/// Every statement of a batch is run, each once, in order, and the batch ends
/// with what each of them gave, in that order.
pub proof fn every_statement_is_run<F>(
    statements: usize,
    steps: Seq<SequentialStep<F>>,
    given: Seq<BatchResult<F>>,
    k: int,
)
    requires
        given.len() == statements,
        steps.len() == statements + 1,
        call_ensures(SequentialBatch::<F>::start, (statements,), steps[0]),
        forall|k: int| 0 <= k < statements ==> #[trigger] runs_on(steps, given, k),
        0 <= k <= statements,
    ensures
        k < statements ==> steps[k] is Run && steps[k]->Run_0 == k && steps[k]->Run_1.statements
            == statements && steps[k]->Run_1.results@ == given.take(k),
        k == statements ==> steps[k] is Done && steps[k]->Done_0@ == given,
    decreases k,
{
    if k == 0 {
        assert(given.take(0) =~= Seq::empty());
        if statements == 0 {
            assert(given =~= Seq::empty());
            assert(steps[0]->Done_0@ =~= given);
        } else {
            assert(steps[0]->Run_1.results@ =~= given.take(0));
        }
    } else {
        every_statement_is_run(statements, steps, given, k - 1);
        assert(runs_on(steps, given, k - 1));
        assert(given.take(k - 1).push(given[k - 1]) =~= given.take(k));
        if k == statements {
            assert(given.take(k) =~= given);
        }
    }
}

/// The first statement that fails ends the batch with its own error.
pub proof fn a_failed_statement_ends_the_batch<F>(
    b: SequentialBatch<F>,
    e: DatabaseError,
    step: SequentialStep<F>,
)
    requires
        call_ensures(
            SequentialBatch::<F>::resume,
            (b, Err::<BatchResult<F>, DatabaseError>(e)),
            step,
        ),
    ensures
        step == SequentialStep::<F>::Fail(e),
{
}

} // verus!
