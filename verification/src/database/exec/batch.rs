//! A batch: several writes as one transaction.
//!
//! Every write is planned first, in order, with what it needs of the schema;
//! then all statements run as one transaction, and each result becomes the
//! outcome of its write. A filtered write to a table that is not there needs
//! no statement: it changes nothing. Every other failure ends the batch before
//! anything runs.

use vstd::prelude::*;

use crate::database::exec::guarded;
use crate::database::exec::ops;
use crate::database::exec::ops::{Outcome, Pending, Plan, Request, Settled, Work};
use crate::database::exec::prepare;
use crate::database::exec::prepare::{
    Answer, Need, Policy, Preparation, Prepared, PrepStep, Question,
};
use crate::database::exec::rows;
use crate::database::exec::rows::{push_filter_columns, sorted_columns, sql_name};
use crate::database::exec::statement;
use crate::database::exec::statement::{
    show_tx, BatchStatement, Statement, TxResult, TxStatement,
};
use crate::database::exec::upsert;
use crate::database::exec::upsert::upsert_statement;
use crate::database::filter;
use crate::database::filter::Filter;
use crate::database::schema_cache::{CacheView, SchemaCache};
use crate::database::service::{DatabaseError, WriteOp, WriteOutcome};
use crate::ident;
use crate::json;
use crate::row::Row;
use crate::text;

verus! {

/// How a write's result becomes its outcome, or the outcome of a write that
/// needs no statement.
#[derive(Debug)]
pub enum Planned {
    Created,
    Updated,
    Deleted,
    UpdatedWhere,
    DeletedWhere,
    Upserted,
    Settled(WriteOutcome),
}

/// What is kept of a write while its needs are settled.
#[derive(Debug)]
pub enum OpPending {
    Create,
    Update { id: String },
    UpdateWhere { filters: Vec<Filter> },
    DeleteWhere { filters: Vec<Filter> },
}

/// How a write starts.
#[derive(Debug)]
pub enum OpPlan {
    Prepare(Need, OpPending),
    Statement(Planned, TxStatement),
    Fail(DatabaseError),
}

// ---------------------------------------------------------------------------
// One write
// ---------------------------------------------------------------------------

/// The needs of a write that sets a row's columns.
pub open spec fn op_needs(
    n: Need,
    table: String,
    guard: bool,
    require: Seq<Seq<char>>,
    given: Seq<Row>,
    policy: Policy,
) -> bool {
    &&& n.table == table
    &&& n.guard == guard
    &&& text::views(n.require@) == require
    &&& n.rows@ == given
    &&& n.policy == policy
    &&& n.ask_generates == (policy == Policy::Create)
    &&& !n.order
}

/// How a write starts.
pub open spec fn op_plans(op: WriteOp, plan: OpPlan) -> bool {
    if !ident::plain(op.target()) {
        plan matches OpPlan::Fail(e) && rows::refuses_sql_name(e, op.target())
    } else {
        match op {
            WriteOp::Create { collection, data } => plan matches OpPlan::Prepare(n, p) && p
                == OpPending::Create && op_needs(
                n,
                collection,
                false,
                Seq::empty(),
                seq![data],
                Policy::Create,
            ),
            WriteOp::Update { collection, id, data } => plan matches OpPlan::Prepare(n, p) && p == (
            OpPending::Update { id }) && op_needs(
                n,
                collection,
                false,
                Seq::empty(),
                seq![data],
                Policy::Stamp,
            ),
            WriteOp::Delete { collection, id } => plan == OpPlan::Statement(
                Planned::Deleted,
                TxStatement::Execute(Statement::DeleteById { table: collection, id }),
            ),
            WriteOp::UpdateWhere { collection, filters, data } => plan matches OpPlan::Prepare(n, p)
                && p == (OpPending::UpdateWhere { filters }) && op_needs(
                n,
                collection,
                true,
                filter::filter_columns(filters@),
                seq![data],
                Policy::Stamp,
            ),
            WriteOp::DeleteWhere { collection, filters } => plan matches OpPlan::Prepare(n, p) && p
                == (OpPending::DeleteWhere { filters }) && op_needs(
                n,
                collection,
                true,
                filter::filter_columns(filters@),
                Seq::empty(),
                Policy::Keep,
            ),
            WriteOp::Upsert { collection, spec } => (plan matches OpPlan::Statement(k, t) && k
                == Planned::Upserted && (t matches TxStatement::Execute(s)
                && upsert::upsert_renders(collection, spec, Ok(s)))) || (plan matches OpPlan::Fail(
                e,
            ) && upsert::upsert_renders(collection, spec, Err(e))),
        }
    }
}

/// Says how a write starts.
pub fn plan_op(op: WriteOp) -> (r: OpPlan)
    ensures
        op_plans(op, r),
{
    if let Err(e) = sql_name(op.collection()) {
        return OpPlan::Fail(e);
    }
    let mut require: Vec<String> = Vec::new();
    let mut given: Vec<Row> = Vec::new();
    proof {
        assert(text::views(require@) =~= Seq::empty());
    }
    match op {
        WriteOp::Create { collection, data } => {
            given.push(data);
            proof {
                assert(given@ =~= seq![data]);
            }
            OpPlan::Prepare(
                Need {
                    table: collection,
                    guard: false,
                    require,
                    rows: given,
                    policy: Policy::Create,
                    ask_generates: true,
                    order: false,
                },
                OpPending::Create,
            )
        },
        WriteOp::Update { collection, id, data } => {
            given.push(data);
            proof {
                assert(given@ =~= seq![data]);
            }
            OpPlan::Prepare(
                Need {
                    table: collection,
                    guard: false,
                    require,
                    rows: given,
                    policy: Policy::Stamp,
                    ask_generates: false,
                    order: false,
                },
                OpPending::Update { id },
            )
        },
        WriteOp::Delete { collection, id } => OpPlan::Statement(
            Planned::Deleted,
            TxStatement::Execute(Statement::DeleteById { table: collection, id }),
        ),
        WriteOp::UpdateWhere { collection, filters, data } => {
            push_filter_columns(&filters, &mut require);
            given.push(data);
            proof {
                assert(given@ =~= seq![data]);
                assert(text::views(require@) =~= filter::filter_columns(filters@));
            }
            OpPlan::Prepare(
                Need {
                    table: collection,
                    guard: true,
                    require,
                    rows: given,
                    policy: Policy::Stamp,
                    ask_generates: false,
                    order: false,
                },
                OpPending::UpdateWhere { filters },
            )
        },
        WriteOp::DeleteWhere { collection, filters } => {
            push_filter_columns(&filters, &mut require);
            proof {
                assert(given@ =~= Seq::empty());
                assert(text::views(require@) =~= filter::filter_columns(filters@));
            }
            OpPlan::Prepare(
                Need {
                    table: collection,
                    guard: true,
                    require,
                    rows: given,
                    policy: Policy::Keep,
                    ask_generates: false,
                    order: false,
                },
                OpPending::DeleteWhere { filters },
            )
        },
        WriteOp::Upsert { collection, spec } => match upsert_statement(collection, spec) {
            Ok(s) => OpPlan::Statement(Planned::Upserted, TxStatement::Execute(s)),
            Err(e) => OpPlan::Fail(e),
        },
    }
}

/// What a write adds to the batch: how it is read, and its statement if it has
/// one.
pub open spec fn op_settles(
    pending: OpPending,
    p: Prepared,
    r: Result<(Planned, Option<TxStatement>), DatabaseError>,
) -> bool {
    if !p.present {
        match pending {
            OpPending::UpdateWhere { .. } => r matches Ok(pair) && pair.0 == Planned::Settled(
                WriteOutcome::UpdatedWhere { rows_affected: 0 },
            ) && pair.1 is None,
            OpPending::DeleteWhere { .. } => r matches Ok(pair) && pair.0 == Planned::Settled(
                WriteOutcome::DeletedWhere { rows_affected: 0 },
            ) && pair.1 is None,
            _ => r matches Err(e) && e == DatabaseError::NotFound,
        }
    } else if !(pending is DeleteWhere) && p.rows@.len() != 1 {
        r matches Err(DatabaseError::Internal(m)) && m@
            == "the settled rows do not fit the operation"@
    } else {
        match pending {
            OpPending::Create => r matches Ok(pair) && pair.0 == Planned::Created && (
            pair.1 matches Some(TxStatement::Returning(Statement::InsertReturning { table, pairs }))
                && table == p.table && rows::pairs_of(p.rows@[0]@, pairs@)),
            OpPending::Update { id } => r matches Ok(pair) && pair.0 == Planned::Updated && (
            pair.1 matches Some(
                TxStatement::Returning(Statement::UpdateByIdReturning { table, id: i, pairs }),
            ) && table == p.table && i == id && rows::pairs_of(p.rows@[0]@, pairs@)),
            OpPending::UpdateWhere { filters } => r matches Ok(pair) && pair.0
                == Planned::UpdatedWhere && (pair.1 matches Some(
                TxStatement::Execute(Statement::UpdateWhere { table, pairs, filters: f }),
            ) && table == p.table && f == filters && rows::pairs_of(p.rows@[0]@, pairs@)),
            OpPending::DeleteWhere { filters } => r matches Ok(pair) && pair.0
                == Planned::DeletedWhere && pair.1 == Some(
                TxStatement::Execute(Statement::DeleteWhere { table: p.table, filters }),
            ),
        }
    }
}

/// Says what a write adds to the batch once its needs are settled.
pub fn settle_op(pending: OpPending, prepared: Prepared) -> (r: Result<
    (Planned, Option<TxStatement>),
    DatabaseError,
>)
    ensures
        op_settles(pending, prepared, r),
{
    if !prepared.present {
        return match pending {
            OpPending::UpdateWhere { .. } => Ok(
                (Planned::Settled(WriteOutcome::UpdatedWhere { rows_affected: 0 }), None),
            ),
            OpPending::DeleteWhere { .. } => Ok(
                (Planned::Settled(WriteOutcome::DeletedWhere { rows_affected: 0 }), None),
            ),
            _ => Err(DatabaseError::NotFound),
        };
    }
    let table = prepared.table;
    if let OpPending::DeleteWhere { filters } = pending {
        return Ok(
            (
                Planned::DeletedWhere,
                Some(TxStatement::Execute(Statement::DeleteWhere { table, filters })),
            ),
        );
    }
    if prepared.rows.len() != 1 {
        return Err(
            DatabaseError::Internal("the settled rows do not fit the operation".to_owned()),
        );
    }
    let pairs = sorted_columns(&prepared.rows[0]);
    match pending {
        OpPending::Create => Ok(
            (
                Planned::Created,
                Some(TxStatement::Returning(Statement::InsertReturning { table, pairs })),
            ),
        ),
        OpPending::Update { id } => Ok(
            (
                Planned::Updated,
                Some(TxStatement::Returning(Statement::UpdateByIdReturning { table, id, pairs })),
            ),
        ),
        OpPending::UpdateWhere { filters } => Ok(
            (
                Planned::UpdatedWhere,
                Some(TxStatement::Execute(Statement::UpdateWhere { table, pairs, filters })),
            ),
        ),
        OpPending::DeleteWhere { filters } => Ok(
            (
                Planned::DeletedWhere,
                Some(TxStatement::Execute(Statement::DeleteWhere { table, filters })),
            ),
        ),
    }
}

// ---------------------------------------------------------------------------
// All writes, in order
// ---------------------------------------------------------------------------

/// A batch that waits for an answer about the schema. The writes still to be
/// planned stand in `waiting`, the next one last.
#[derive(Debug)]
pub struct BatchRun {
    pub waiting: Vec<WriteOp>,
    pub planned: Vec<Planned>,
    pub statements: Vec<TxStatement>,
    pub pending: OpPending,
    pub preparation: Preparation,
}

/// What comes next in a batch.
#[derive(Debug)]
pub enum BatchStep {
    /// Ask this of the database.
    Ask(Question, BatchRun),
    /// Run these as one transaction; the results are read by
    /// [`read_batch`](read_batch) with how each write is read.
    Run(Vec<TxStatement>, Vec<Planned>),
    /// No write needs a statement.
    Done(Vec<WriteOutcome>),
    Fail(DatabaseError),
}

/// Every write is planned.
pub open spec fn finished(
    planned: Seq<Planned>,
    statements: Seq<TxStatement>,
    step: BatchStep,
) -> bool {
    if statements.len() == 0 {
        step matches BatchStep::Done(out) && out@ == settled_outcomes(planned)
    } else {
        step matches BatchStep::Run(s, k) && s@ == statements && k@ == planned
    }
}

/// The outcomes of the writes that need no statement, in order.
pub open spec fn settled_outcomes(planned: Seq<Planned>) -> Seq<WriteOutcome>
    decreases planned.len(),
{
    if planned.len() == 0 {
        Seq::empty()
    } else {
        match planned.last() {
            Planned::Settled(o) => settled_outcomes(planned.drop_last()).push(o),
            _ => settled_outcomes(planned.drop_last()),
        }
    }
}

/// The next write is planned, and those after it.
pub open spec fn advances(
    waiting: Seq<WriteOp>,
    planned: Seq<Planned>,
    statements: Seq<TxStatement>,
    strict: bool,
    c: Option<CacheView>,
    step: BatchStep,
    c2: Option<CacheView>,
) -> bool
    decreases waiting.len(), 1int,
{
    if waiting.len() == 0 {
        c2 == c && finished(planned, statements, step)
    } else {
        exists|plan: OpPlan|
            #[trigger] op_plans(waiting.last(), plan) && match plan {
                OpPlan::Fail(e) => c2 == c && step == BatchStep::Fail(e),
                OpPlan::Statement(k, t) => advances(
                    waiting.drop_last(),
                    planned.push(k),
                    statements.push(t),
                    strict,
                    c,
                    step,
                    c2,
                ),
                OpPlan::Prepare(n, p) => exists|ps: PrepStep, c1: Option<CacheView>|
                    #[trigger] prepare::start_step(n, strict, c, ps, c1) && continues(
                        ps,
                        p,
                        waiting.drop_last(),
                        planned,
                        statements,
                        strict,
                        c1,
                        step,
                        c2,
                    ),
            }
    }
}

/// A write's needs came one step further.
pub open spec fn continues(
    ps: PrepStep,
    pending: OpPending,
    waiting: Seq<WriteOp>,
    planned: Seq<Planned>,
    statements: Seq<TxStatement>,
    strict: bool,
    c: Option<CacheView>,
    step: BatchStep,
    c2: Option<CacheView>,
) -> bool
    decreases waiting.len(), 2int,
{
    match ps {
        PrepStep::Fail(e) => c2 == c && step == BatchStep::Fail(e),
        PrepStep::Ask(q, p) => c2 == c && (step matches BatchStep::Ask(q2, run) && q2 == q
            && run.preparation == p && run.pending == pending && run.waiting@ == waiting
            && run.planned@ == planned && run.statements@ == statements),
        PrepStep::Ready(p) => exists|s: Result<(Planned, Option<TxStatement>), DatabaseError>|
            #[trigger] op_settles(pending, p, s) && match s {
                Err(e) => c2 == c && step == BatchStep::Fail(e),
                Ok(pair) => advances(
                    waiting,
                    planned.push(pair.0),
                    match pair.1 {
                        Some(t) => statements.push(t),
                        None => statements,
                    },
                    strict,
                    c,
                    step,
                    c2,
                ),
            },
    }
}

fn finish(planned: Vec<Planned>, statements: Vec<TxStatement>) -> (r: BatchStep)
    ensures
        finished(planned@, statements@, r),
{
    if statements.len() > 0 {
        return BatchStep::Run(statements, planned);
    }
    let ghost all = planned@;
    let mut out: Vec<WriteOutcome> = Vec::new();
    proof {
        assert(all.take(0) =~= Seq::empty());
    }
    for k in it: planned
        invariant
            it.seq() == all,
            out@ == settled_outcomes(all.take(it.index())),
    {
        proof {
            assert(all.take(it.index() + 1).drop_last() =~= all.take(it.index()));
        }
        if let Planned::Settled(o) = k {
            out.push(o);
        }
    }
    proof {
        assert(all.take(all.len() as int) =~= all);
    }
    BatchStep::Done(out)
}

fn advance(
    waiting: Vec<WriteOp>,
    planned: Vec<Planned>,
    statements: Vec<TxStatement>,
    strict: bool,
    cache: &mut Option<SchemaCache>,
) -> (r: BatchStep)
    ensures
        advances(
            waiting@,
            planned@,
            statements@,
            strict,
            text::opt_view(*old(cache)),
            r,
            text::opt_view(*final(cache)),
        ),
    decreases waiting@.len(), 1int,
{
    let ghost given = waiting@;
    let mut waiting = waiting;
    let mut planned = planned;
    let mut statements = statements;
    match waiting.pop() {
        None => finish(planned, statements),
        Some(op) => {
            proof {
                assert(given.last() == op);
                assert(waiting@ =~= given.drop_last());
            }
            let plan = plan_op(op);
            proof {
                assert(op_plans(given.last(), plan));
            }
            match plan {
                OpPlan::Fail(e) => BatchStep::Fail(e),
                OpPlan::Statement(k, t) => {
                    planned.push(k);
                    statements.push(t);
                    advance(waiting, planned, statements, strict, cache)
                },
                OpPlan::Prepare(n, p) => {
                    let ghost c = text::opt_view(*cache);
                    let ps = Preparation::start(n, strict, cache);
                    proof {
                        assert(prepare::start_step(n, strict, c, ps, text::opt_view(*cache)));
                    }
                    go_on(ps, p, waiting, planned, statements, strict, cache)
                },
            }
        },
    }
}

fn go_on(
    ps: PrepStep,
    pending: OpPending,
    waiting: Vec<WriteOp>,
    planned: Vec<Planned>,
    statements: Vec<TxStatement>,
    strict: bool,
    cache: &mut Option<SchemaCache>,
) -> (r: BatchStep)
    ensures
        continues(
            ps,
            pending,
            waiting@,
            planned@,
            statements@,
            strict,
            text::opt_view(*old(cache)),
            r,
            text::opt_view(*final(cache)),
        ),
    decreases waiting@.len(), 2int,
{
    match ps {
        PrepStep::Fail(e) => BatchStep::Fail(e),
        PrepStep::Ask(q, preparation) => BatchStep::Ask(
            q,
            BatchRun { waiting, planned, statements, pending, preparation },
        ),
        PrepStep::Ready(p) => {
            let s = settle_op(pending, p);
            proof {
                assert(op_settles(pending, p, s));
            }
            match s {
                Err(e) => BatchStep::Fail(e),
                Ok((k, t)) => {
                    let mut planned = planned;
                    let mut statements = statements;
                    planned.push(k);
                    match t {
                        Some(t) => statements.push(t),
                        None => {},
                    }
                    advance(waiting, planned, statements, strict, cache)
                },
            }
        },
    }
}

impl BatchRun {
    /// Starts a batch of the writes `ops`, in order.
    pub fn start(ops: Vec<WriteOp>, strict: bool, cache: &mut Option<SchemaCache>) -> (r: BatchStep)
        ensures
            advances(
                ops@.reverse(),
                Seq::empty(),
                Seq::empty(),
                strict,
                text::opt_view(*old(cache)),
                r,
                text::opt_view(*final(cache)),
            ),
    {
        let ghost all = ops@;
        let mut ops = ops;
        let mut waiting: Vec<WriteOp> = Vec::new();
        while ops.len() > 0
            invariant
                ops@.len() + waiting@.len() == all.len(),
                ops@ == all.take(ops@.len() as int),
                waiting@ == all.skip(ops@.len() as int).reverse(),
            decreases ops@.len(),
        {
            let ghost n = ops@.len() as int;
            let ghost before = waiting@;
            if let Some(op) = ops.pop() {
                waiting.push(op);
                proof {
                    assert(ops@ =~= all.take(n - 1));
                    assert(op == all[n - 1]);
                    assert(waiting@ =~= all.skip(n - 1).reverse()) by {
                        assert(all.skip(n - 1).len() == before.len() + 1);
                        assert forall|i: int| 0 <= i < waiting@.len() implies waiting@[i]
                            == all.skip(n - 1).reverse()[i] by {
                            if i < before.len() {
                                assert(before[i] == all.skip(n).reverse()[i]);
                            }
                        }
                    }
                }
            }
        }
        proof {
            assert(all.skip(0) =~= all);
        }
        let planned: Vec<Planned> = Vec::new();
        let statements: Vec<TxStatement> = Vec::new();
        proof {
            assert(planned@ =~= Seq::empty());
            assert(statements@ =~= Seq::empty());
        }
        advance(waiting, planned, statements, strict, cache)
    }

    /// Goes on with the answer to the question that was asked.
    pub fn resume(self, answer: Answer, strict: bool, cache: &mut Option<SchemaCache>) -> (r:
        BatchStep)
        ensures
            resumes(
                self,
                answer,
                strict,
                text::opt_view(*old(cache)),
                r,
                text::opt_view(*final(cache)),
            ),
    {
        let ghost c = text::opt_view(*cache);
        let ghost given = self.preparation;
        let ps = self.preparation.resume(answer, strict, cache);
        proof {
            assert(prepare::answer_step(given, answer, strict, c, ps, text::opt_view(*cache)));
        }
        go_on(ps, self.pending, self.waiting, self.planned, self.statements, strict, cache)
    }
}

/// A batch goes on with an answer.
pub open spec fn resumes(
    run: BatchRun,
    answer: Answer,
    strict: bool,
    c: Option<CacheView>,
    step: BatchStep,
    c2: Option<CacheView>,
) -> bool {
    exists|ps: PrepStep, c1: Option<CacheView>|
        #[trigger] prepare::answer_step(run.preparation, answer, strict, c, ps, c1) && continues(
            ps,
            run.pending,
            run.waiting@,
            run.planned@,
            run.statements@,
            strict,
            c1,
            step,
            c2,
        )
}

// ---------------------------------------------------------------------------
// Reading the results
// ---------------------------------------------------------------------------

/// How many of the writes have a statement.
pub open spec fn with_statement(planned: Seq<Planned>) -> int
    decreases planned.len(),
{
    if planned.len() == 0 {
        0
    } else {
        with_statement(planned.drop_last()) + if planned.last() is Settled {
            0int
        } else {
            1
        }
    }
}

/// Why a result is none for its write; `None` where it is one.
pub open spec fn op_failure(kind: Planned, result: TxResult) -> Option<Seq<char>> {
    match (kind, result) {
        (Planned::Created, TxResult::Returning(rows)) => if rows@.len() == 0 {
            Some("INSERT … RETURNING returned no row"@)
        } else {
            None
        },
        (Planned::Updated, TxResult::Returning(_)) => None,
        (Planned::Deleted, TxResult::Execute(_)) => None,
        (Planned::UpdatedWhere, TxResult::Execute(_)) => None,
        (Planned::DeletedWhere, TxResult::Execute(_)) => None,
        (Planned::Upserted, TxResult::Execute(_)) => None,
        _ => Some(
            "run_transaction returned "@ + statement::tx_shown(result)
                + " for a statement of the other kind"@,
        ),
    }
}

/// The outcome of a write from its result.
pub open spec fn op_outcome(kind: Planned, result: TxResult) -> WriteOutcome {
    match (kind, result) {
        (Planned::Created, TxResult::Returning(rows)) => WriteOutcome::Created(rows@[0]),
        (Planned::Updated, TxResult::Returning(rows)) => WriteOutcome::Updated(
            if rows@.len() == 0 {
                None
            } else {
                Some(rows@[0])
            },
        ),
        (Planned::Deleted, TxResult::Execute(rows_affected)) => WriteOutcome::Deleted {
            rows_affected,
        },
        (Planned::UpdatedWhere, TxResult::Execute(rows_affected)) => WriteOutcome::UpdatedWhere {
            rows_affected,
        },
        (Planned::DeletedWhere, TxResult::Execute(rows_affected)) => WriteOutcome::DeletedWhere {
            rows_affected,
        },
        (Planned::Upserted, TxResult::Execute(rows_affected)) => WriteOutcome::Upserted {
            rows_affected,
        },
        _ => arbitrary(),
    }
}

/// What is said of the first result that is none for its write.
pub open spec fn first_op_failure(planned: Seq<Planned>, results: Seq<TxResult>) -> Option<
    Seq<char>,
>
    decreases planned.len(),
{
    if planned.len() == 0 {
        None
    } else {
        match first_op_failure(planned.drop_last(), results) {
            Some(m) => Some(m),
            None => if planned.last() is Settled {
                None
            } else {
                op_failure(planned.last(), results[with_statement(planned.drop_last())])
            },
        }
    }
}

/// The outcome of the write at `i`: its own where it needed no statement, the
/// one its result makes otherwise.
pub open spec fn outcome_at(planned: Seq<Planned>, results: Seq<TxResult>, i: int) -> WriteOutcome {
    match planned[i] {
        Planned::Settled(o) => o,
        kind => op_outcome(kind, results[with_statement(planned.take(i))]),
    }
}

/// What the results of a batch amount to: one outcome for each write, in the
/// order of the writes.
pub open spec fn batch_reads(
    planned: Seq<Planned>,
    results: Seq<TxResult>,
    r: Result<Vec<WriteOutcome>, DatabaseError>,
) -> bool {
    if results.len() != with_statement(planned) {
        r matches Err(DatabaseError::Internal(m)) && m@ == guarded::wrong_count(
            results.len() as int,
            with_statement(planned),
        )
    } else {
        match first_op_failure(planned, results) {
            Some(m) => r matches Err(DatabaseError::Internal(n)) && n@ == m,
            None => r matches Ok(out) && out@.len() == planned.len() && (forall|i: int|
                0 <= i < planned.len() ==> (#[trigger] out@[i]) == outcome_at(
                    planned,
                    results,
                    i,
                )),
        }
    }
}

fn read_op(kind: Planned, result: TxResult) -> (r: Result<WriteOutcome, DatabaseError>)
    requires
        !(kind is Settled),
    ensures
        match r {
            Ok(o) => op_failure(kind, result) is None && o == op_outcome(kind, result),
            Err(e) => op_failure(kind, result) is Some && (e matches DatabaseError::Internal(m)
                && m@ == op_failure(kind, result)->0),
        },
{
    match (kind, result) {
        (Planned::Created, TxResult::Returning(found)) => {
            let mut found = found;
            if found.len() == 0 {
                Err(DatabaseError::Internal("INSERT … RETURNING returned no row".to_owned()))
            } else {
                Ok(WriteOutcome::Created(found.swap_remove(0)))
            }
        },
        (Planned::Updated, TxResult::Returning(found)) => {
            let mut found = found;
            if found.len() == 0 {
                Ok(WriteOutcome::Updated(None))
            } else {
                Ok(WriteOutcome::Updated(Some(found.swap_remove(0))))
            }
        },
        (Planned::Deleted, TxResult::Execute(rows_affected)) => Ok(
            WriteOutcome::Deleted { rows_affected },
        ),
        (Planned::UpdatedWhere, TxResult::Execute(rows_affected)) => Ok(
            WriteOutcome::UpdatedWhere { rows_affected },
        ),
        (Planned::DeletedWhere, TxResult::Execute(rows_affected)) => Ok(
            WriteOutcome::DeletedWhere { rows_affected },
        ),
        (Planned::Upserted, TxResult::Execute(rows_affected)) => Ok(
            WriteOutcome::Upserted { rows_affected },
        ),
        (_, other) => Err(
            DatabaseError::Internal(
                text::join3(
                    "run_transaction returned ",
                    show_tx(&other).as_str(),
                    " for a statement of the other kind",
                ),
            ),
        ),
    }
}

fn count_statements(planned: &Vec<Planned>) -> (r: usize)
    ensures
        r == with_statement(planned@),
{
    let mut n: usize = 0;
    proof {
        assert(planned@.take(0) =~= Seq::empty());
    }
    for i in 0..planned.len()
        invariant
            n == with_statement(planned@.take(i as int)),
            n <= i,
    {
        proof {
            assert(planned@.take(i + 1).drop_last() =~= planned@.take(i as int));
        }
        match &planned[i] {
            Planned::Settled(_) => {},
            _ => {
                n += 1;
            },
        }
    }
    proof {
        assert(planned@.take(planned@.len() as int) =~= planned@);
    }
    n
}

proof fn lemma_with_statement(planned: Seq<Planned>, i: int)
    requires
        0 <= i <= planned.len(),
    ensures
        0 <= with_statement(planned.take(i)) <= with_statement(planned),
        i < planned.len() && !(planned[i] is Settled) ==> with_statement(planned.take(i))
            < with_statement(planned),
    decreases planned.len() - i,
{
    if i == planned.len() {
        assert(planned.take(i) =~= planned);
        lemma_with_statement_bound(planned);
    } else {
        assert(planned.take(i + 1).drop_last() =~= planned.take(i));
        lemma_with_statement(planned, i + 1);
        lemma_with_statement_bound(planned.take(i));
    }
}

proof fn lemma_with_statement_bound(planned: Seq<Planned>)
    ensures
        0 <= with_statement(planned) <= planned.len(),
    decreases planned.len(),
{
    if planned.len() > 0 {
        lemma_with_statement_bound(planned.drop_last());
    }
}

proof fn lemma_failure_stops(planned: Seq<Planned>, results: Seq<TxResult>, n: int)
    requires
        0 <= n <= planned.len(),
        first_op_failure(planned.take(n), results) is Some,
    ensures
        first_op_failure(planned, results) == first_op_failure(planned.take(n), results),
    decreases planned.len() - n,
{
    if n == planned.len() {
        assert(planned.take(n) =~= planned);
    } else {
        assert(planned.take(n + 1).drop_last() =~= planned.take(n));
        lemma_failure_stops(planned, results, n + 1);
    }
}

/// Reads the results of a batch's transaction.
pub fn read_batch(planned: Vec<Planned>, results: Vec<TxResult>) -> (r: Result<
    Vec<WriteOutcome>,
    DatabaseError,
>)
    ensures
        batch_reads(planned@, results@, r),
{
    let want: usize = count_statements(&planned);
    let got: usize = results.len();
    if got != want {
        return Err(
            DatabaseError::Internal(
                text::join5(
                    "run_transaction returned ",
                    text::usize_text(got).as_str(),
                    " results for ",
                    text::usize_text(want).as_str(),
                    " statements",
                ),
            ),
        );
    }
    let ghost all = planned@;
    let ghost given = results@;
    // The next result stands last.
    let mut left: Vec<TxResult> = Vec::new();
    let mut queue = results;
    while queue.len() > 0
        invariant
            queue@.len() + left@.len() == given.len(),
            queue@ == given.take(queue@.len() as int),
            left@ == given.skip(queue@.len() as int).reverse(),
        decreases queue@.len(),
    {
        let ghost n = queue@.len() as int;
        let ghost before = left@;
        if let Some(x) = queue.pop() {
            left.push(x);
            proof {
                assert(queue@ =~= given.take(n - 1));
                assert(x == given[n - 1]);
                assert(left@ =~= given.skip(n - 1).reverse()) by {
                    assert forall|i: int| 0 <= i < left@.len() implies left@[i] == given.skip(
                        n - 1,
                    ).reverse()[i] by {
                        if i < before.len() {
                            assert(before[i] == given.skip(n).reverse()[i]);
                        }
                    }
                }
            }
        }
    }
    let mut out: Vec<WriteOutcome> = Vec::new();
    proof {
        assert(all.take(0) =~= Seq::empty());
        assert(given.skip(0) =~= given);
    }
    for kind in it: planned
        invariant
            it.seq() == all,
            planned@ == all,
            given.len() == with_statement(all),
            results@ == given,
            out@.len() == it.index(),
            first_op_failure(all.take(it.index()), given) is None,
            left@ == given.skip(with_statement(all.take(it.index()))).reverse(),
            forall|i: int|
                0 <= i < it.index() ==> (#[trigger] out@[i]) == outcome_at(all, given, i),
    {
        let ghost at = it.index();
        let ghost done = with_statement(all.take(at));
        proof {
            assert(all.take(at + 1).drop_last() =~= all.take(at));
            assert(all.take(at + 1).last() == kind);
            lemma_with_statement(all, at);
            if first_op_failure(all.take(at + 1), given) is Some {
                lemma_failure_stops(all, given, at + 1);
            }
        }
        match kind {
            Planned::Settled(o) => {
                out.push(o);
            },
            kind => {
                match left.pop() {
                    Some(result) => {
                        proof {
                            assert(result == given[done]);
                            assert(left@ =~= given.skip(done + 1).reverse());
                        }
                        match read_op(kind, result) {
                            Ok(o) => out.push(o),
                            Err(e) => {
                                return Err(e);
                            },
                        }
                    },
                    None => {
                        proof {
                            assert(given.skip(done).len() > 0);
                        }
                        return Err(
                            DatabaseError::Internal(
                                "run_transaction returned too few results".to_owned(),
                            ),
                        );
                    },
                }
            },
        }
    }
    proof {
        assert(all.take(all.len() as int) =~= all);
    }
    Ok(out)
}

// ---------------------------------------------------------------------------
// What holds of every batch
// ---------------------------------------------------------------------------

/// A step of a batch of `writes` writes: none is lost and none comes twice,
/// and each has a statement or is settled without one.
pub open spec fn accounts_for(step: BatchStep, writes: int) -> bool {
    match step {
        BatchStep::Ask(_, run) => run.planned@.len() + 1 + run.waiting@.len() == writes
            && run.statements@.len() == with_statement(run.planned@),
        BatchStep::Run(statements, planned) => planned@.len() == writes && statements@.len()
            == with_statement(planned@),
        BatchStep::Done(out) => out@.len() == writes,
        BatchStep::Fail(_) => true,
    }
}

proof fn lemma_all_settled(planned: Seq<Planned>)
    requires
        with_statement(planned) == 0,
    ensures
        settled_outcomes(planned).len() == planned.len(),
    decreases planned.len(),
{
    if planned.len() > 0 {
        lemma_with_statement_bound(planned.drop_last());
        lemma_all_settled(planned.drop_last());
    }
}

proof fn lemma_advances(
    waiting: Seq<WriteOp>,
    planned: Seq<Planned>,
    statements: Seq<TxStatement>,
    strict: bool,
    c: Option<CacheView>,
    step: BatchStep,
    c2: Option<CacheView>,
)
    requires
        advances(waiting, planned, statements, strict, c, step, c2),
        statements.len() == with_statement(planned),
    ensures
        accounts_for(step, (planned.len() + waiting.len()) as int),
    decreases waiting.len(), 1int,
{
    if waiting.len() == 0 {
        if statements.len() == 0 {
            lemma_all_settled(planned);
        }
    } else {
        let plan = choose|plan: OpPlan|
            #[trigger] op_plans(waiting.last(), plan) && match plan {
                OpPlan::Fail(e) => c2 == c && step == BatchStep::Fail(e),
                OpPlan::Statement(k, t) => advances(
                    waiting.drop_last(),
                    planned.push(k),
                    statements.push(t),
                    strict,
                    c,
                    step,
                    c2,
                ),
                OpPlan::Prepare(n, p) => exists|ps: PrepStep, c1: Option<CacheView>|
                    #[trigger] prepare::start_step(n, strict, c, ps, c1) && continues(
                        ps,
                        p,
                        waiting.drop_last(),
                        planned,
                        statements,
                        strict,
                        c1,
                        step,
                        c2,
                    ),
            };
        match plan {
            OpPlan::Fail(_) => {},
            OpPlan::Statement(k, t) => {
                assert(planned.push(k).drop_last() =~= planned);
                lemma_advances(
                    waiting.drop_last(),
                    planned.push(k),
                    statements.push(t),
                    strict,
                    c,
                    step,
                    c2,
                );
            },
            OpPlan::Prepare(n, p) => {
                let (ps, c1) = choose|ps: PrepStep, c1: Option<CacheView>|
                    #[trigger] prepare::start_step(n, strict, c, ps, c1) && continues(
                        ps,
                        p,
                        waiting.drop_last(),
                        planned,
                        statements,
                        strict,
                        c1,
                        step,
                        c2,
                    );
                lemma_continues(
                    ps,
                    p,
                    waiting.drop_last(),
                    planned,
                    statements,
                    strict,
                    c1,
                    step,
                    c2,
                );
            },
        }
    }
}

proof fn lemma_continues(
    ps: PrepStep,
    pending: OpPending,
    waiting: Seq<WriteOp>,
    planned: Seq<Planned>,
    statements: Seq<TxStatement>,
    strict: bool,
    c: Option<CacheView>,
    step: BatchStep,
    c2: Option<CacheView>,
)
    requires
        continues(ps, pending, waiting, planned, statements, strict, c, step, c2),
        statements.len() == with_statement(planned),
    ensures
        accounts_for(step, (planned.len() + 1 + waiting.len()) as int),
    decreases waiting.len(), 2int,
{
    if let PrepStep::Ready(p) = ps {
        let s = choose|s: Result<(Planned, Option<TxStatement>), DatabaseError>|
            #[trigger] op_settles(pending, p, s) && match s {
                Err(e) => c2 == c && step == BatchStep::Fail(e),
                Ok(pair) => advances(
                    waiting,
                    planned.push(pair.0),
                    match pair.1 {
                        Some(t) => statements.push(t),
                        None => statements,
                    },
                    strict,
                    c,
                    step,
                    c2,
                ),
            };
        if let Ok(pair) = s {
            assert(planned.push(pair.0).drop_last() =~= planned);
            lemma_advances(
                waiting,
                planned.push(pair.0),
                match pair.1 {
                    Some(t) => statements.push(t),
                    None => statements,
                },
                strict,
                c,
                step,
                c2,
            );
        }
    }
}

/// Whatever the database answers, a batch plans each of its writes exactly
/// once; a batch that started with `writes` writes runs one transaction whose
/// results, read by [`read_batch`], are that many outcomes.
pub proof fn every_write_is_planned_once(
    ops: Seq<WriteOp>,
    run: BatchRun,
    writes: int,
    answer: Answer,
    strict: bool,
    c: Option<CacheView>,
    step: BatchStep,
    c2: Option<CacheView>,
)
    ensures
        advances(ops.reverse(), Seq::empty(), Seq::empty(), strict, c, step, c2) ==> accounts_for(
            step,
            ops.len() as int,
        ),
        accounts_for(BatchStep::Ask(arbitrary(), run), writes) && resumes(
            run,
            answer,
            strict,
            c,
            step,
            c2,
        ) ==> accounts_for(step, writes),
{
    if advances(ops.reverse(), Seq::empty(), Seq::empty(), strict, c, step, c2) {
        lemma_advances(ops.reverse(), Seq::empty(), Seq::empty(), strict, c, step, c2);
    }
    if accounts_for(BatchStep::Ask(arbitrary(), run), writes) && resumes(
        run,
        answer,
        strict,
        c,
        step,
        c2,
    ) {
        let (ps, c1) = choose|ps: PrepStep, c1: Option<CacheView>|
            #[trigger] prepare::answer_step(run.preparation, answer, strict, c, ps, c1)
                && continues(
                ps,
                run.pending,
                run.waiting@,
                run.planned@,
                run.statements@,
                strict,
                c1,
                step,
                c2,
            );
        lemma_continues(
            ps,
            run.pending,
            run.waiting@,
            run.planned@,
            run.statements@,
            strict,
            c1,
            step,
            c2,
        );
    }
}

/// The outcomes of a batch stand in the order of its writes: the outcome at
/// each place is settled there, or made of the result of that write's own
/// statement.
pub proof fn outcomes_stand_in_the_order_of_the_writes(
    planned: Seq<Planned>,
    results: Seq<TxResult>,
    out: Vec<WriteOutcome>,
    i: int,
)
    requires
        batch_reads(planned, results, Ok(out)),
        0 <= i < planned.len(),
    ensures
        out@.len() == planned.len(),
        planned[i] matches Planned::Settled(o) ==> out@[i] == o,
        planned[i] is Created ==> out@[i] is Created,
        planned[i] is Updated ==> out@[i] is Updated,
        planned[i] is Deleted ==> out@[i] is Deleted,
        planned[i] is UpdatedWhere ==> out@[i] is UpdatedWhere,
        planned[i] is DeletedWhere ==> out@[i] is DeletedWhere,
        planned[i] is Upserted ==> out@[i] is Upserted,
{
    assert(out@[i] == outcome_at(planned, results, i));
    if !(planned[i] is Settled) {
        lemma_no_failure_at(planned, results, i);
    }
}

/// How many of the first `i` writes run a statement.
pub open spec fn run_before(planned: Seq<Planned>, i: int) -> int {
    planned.take(i).filter(|k: Planned| !(k is Settled)).len() as int
}

proof fn lemma_run_before(planned: Seq<Planned>, i: int)
    requires
        0 <= i <= planned.len(),
    ensures
        run_before(planned, i) == with_statement(planned.take(i)),
    decreases i,
{
    reveal(Seq::filter);
    if i > 0 {
        assert(planned.take(i).drop_last() =~= planned.take(i - 1));
        lemma_run_before(planned, i - 1);
    }
}

/// Each outcome of a batch says what its own statement did: a write that is
/// counted reports the count that its statement gave, a created row is the row
/// that came back, and an updated one too, where one did. The statement of a
/// write is the one behind those of the writes before it.
pub proof fn outcomes_tell_what_the_statements_did(
    planned: Seq<Planned>,
    results: Seq<TxResult>,
    out: Vec<WriteOutcome>,
    i: int,
)
    requires
        batch_reads(planned, results, Ok(out)),
        0 <= i < planned.len(),
    ensures
        results.len() == run_before(planned, planned.len() as int),
        !(planned[i] is Settled) ==> 0 <= run_before(planned, i) < results.len(),
        match planned[i] {
            Planned::Settled(o) => out@[i] == o,
            Planned::Created => {
                &&& results[run_before(planned, i)] matches TxResult::Returning(rows)
                &&& rows@.len() > 0
                &&& out@[i] matches WriteOutcome::Created(record)
                &&& record == rows@[0]
            },
            Planned::Updated => {
                &&& results[run_before(planned, i)] matches TxResult::Returning(rows)
                &&& out@[i] matches WriteOutcome::Updated(found)
                &&& found is Some <==> rows@.len() > 0
                &&& found is Some ==> found->0 == rows@[0]
            },
            Planned::Deleted => {
                &&& results[run_before(planned, i)] matches TxResult::Execute(n)
                &&& out@[i] matches WriteOutcome::Deleted { rows_affected }
                &&& rows_affected == n
            },
            Planned::UpdatedWhere => {
                &&& results[run_before(planned, i)] matches TxResult::Execute(n)
                &&& out@[i] matches WriteOutcome::UpdatedWhere { rows_affected }
                &&& rows_affected == n
            },
            Planned::DeletedWhere => {
                &&& results[run_before(planned, i)] matches TxResult::Execute(n)
                &&& out@[i] matches WriteOutcome::DeletedWhere { rows_affected }
                &&& rows_affected == n
            },
            Planned::Upserted => {
                &&& results[run_before(planned, i)] matches TxResult::Execute(n)
                &&& out@[i] matches WriteOutcome::Upserted { rows_affected }
                &&& rows_affected == n
            },
        },
{
    assert(out@[i] == outcome_at(planned, results, i));
    lemma_run_before(planned, i);
    lemma_run_before(planned, planned.len() as int);
    assert(planned.take(planned.len() as int) =~= planned);
    if !(planned[i] is Settled) {
        lemma_no_failure_at(planned, results, i);
        lemma_with_statement(planned, i);
        lemma_with_statement_bound(planned.take(i));
    }
}

/// The result is of the kind that a write's statement gives.
pub open spec fn is_result_of(kind: Planned, result: TxResult) -> bool {
    match kind {
        Planned::Created => result matches TxResult::Returning(rows) && rows@.len() > 0,
        Planned::Updated => result is Returning,
        _ => result is Execute,
    }
}

/// A batch whose transaction gave one result of the right kind for each
/// statement is read to its end: it never fails then.
pub proof fn a_batch_that_ran_has_outcomes(
    planned: Seq<Planned>,
    results: Seq<TxResult>,
    r: Result<Vec<WriteOutcome>, DatabaseError>,
)
    requires
        batch_reads(planned, results, r),
        results.len() == run_before(planned, planned.len() as int),
        forall|i: int|
            0 <= i < planned.len() && !(planned[i] is Settled) ==> is_result_of(
                #[trigger] planned[i],
                results[run_before(planned, i)],
            ),
    ensures
        r is Ok,
{
    lemma_run_before(planned, planned.len() as int);
    assert(planned.take(planned.len() as int) =~= planned);
    lemma_no_failure(planned, results, planned.len() as int);
}

proof fn lemma_no_failure(planned: Seq<Planned>, results: Seq<TxResult>, n: int)
    requires
        0 <= n <= planned.len(),
        forall|i: int|
            0 <= i < planned.len() && !(planned[i] is Settled) ==> is_result_of(
                #[trigger] planned[i],
                results[run_before(planned, i)],
            ),
    ensures
        first_op_failure(planned.take(n), results) is None,
    decreases n,
{
    if n > 0 {
        assert(planned.take(n).drop_last() =~= planned.take(n - 1));
        lemma_no_failure(planned, results, n - 1);
        lemma_run_before(planned, n - 1);
        assert(planned.take(n).last() == planned[n - 1]);
    }
}

// ---------------------------------------------------------------------------
// A whole batch
// ---------------------------------------------------------------------------

/// How a write is read back is how a write of its kind is.
pub open spec fn reads_back(op: WriteOp, kind: Planned) -> bool {
    match op {
        WriteOp::Create { .. } => kind is Created,
        WriteOp::Update { .. } => kind is Updated,
        WriteOp::Delete { .. } => kind is Deleted,
        WriteOp::UpdateWhere { .. } => kind is UpdatedWhere || kind == Planned::Settled(
            WriteOutcome::UpdatedWhere { rows_affected: 0 },
        ),
        WriteOp::DeleteWhere { .. } => kind is DeletedWhere || kind == Planned::Settled(
            WriteOutcome::DeletedWhere { rows_affected: 0 },
        ),
        WriteOp::Upsert { .. } => kind is Upserted,
    }
}

/// What is kept of a write is what its statement will need.
pub open spec fn kept_of(op: WriteOp, pending: OpPending) -> bool {
    match op {
        WriteOp::Create { .. } => pending is Create,
        WriteOp::Update { id, .. } => pending matches OpPending::Update { id: i } && i == id,
        WriteOp::UpdateWhere { filters, .. } => pending matches OpPending::UpdateWhere {
            filters: f,
        } && f == filters,
        WriteOp::DeleteWhere { filters, .. } => pending matches OpPending::DeleteWhere {
            filters: f,
        } && f == filters,
        _ => false,
    }
}

/// The first writes are planned, each as a write of its kind.
pub open spec fn plans_first(ops: Seq<WriteOp>, planned: Seq<Planned>) -> bool {
    planned.len() <= ops.len() && forall|i: int|
        0 <= i < planned.len() ==> reads_back(#[trigger] ops[i], planned[i])
}

/// A step of the batch of the writes `ops`: those before are planned in order,
/// those behind wait.
pub open spec fn is_step_of(ops: Seq<WriteOp>, step: BatchStep) -> bool {
    match step {
        BatchStep::Ask(_, run) => {
            &&& plans_first(ops, run.planned@)
            &&& run.planned@.len() < ops.len()
            &&& kept_of(ops[run.planned@.len() as int], run.pending)
            &&& run.waiting@ == ops.skip(run.planned@.len() as int + 1).reverse()
        },
        BatchStep::Run(_, planned) => plans_first(ops, planned@) && planned@.len() == ops.len(),
        BatchStep::Done(out) => out@.len() == ops.len() && forall|i: int|
            0 <= i < ops.len() ==> reads_back(#[trigger] ops[i], Planned::Settled(out@[i])),
        BatchStep::Fail(_) => true,
    }
}

proof fn lemma_all_settled_at(planned: Seq<Planned>, i: int)
    requires
        with_statement(planned) == 0,
        0 <= i < planned.len(),
    ensures
        settled_outcomes(planned).len() == planned.len(),
        planned[i] == Planned::Settled(settled_outcomes(planned)[i]),
    decreases planned.len(),
{
    lemma_with_statement_bound(planned.drop_last());
    lemma_all_settled(planned);
    lemma_all_settled(planned.drop_last());
    if i < planned.len() - 1 {
        lemma_all_settled_at(planned.drop_last(), i);
    }
}

proof fn lemma_steps(
    ops: Seq<WriteOp>,
    waiting: Seq<WriteOp>,
    planned: Seq<Planned>,
    statements: Seq<TxStatement>,
    strict: bool,
    c: Option<CacheView>,
    step: BatchStep,
    c2: Option<CacheView>,
)
    requires
        advances(waiting, planned, statements, strict, c, step, c2),
        statements.len() == with_statement(planned),
        plans_first(ops, planned),
        waiting == ops.skip(planned.len() as int).reverse(),
    ensures
        is_step_of(ops, step),
    decreases waiting.len(), 1int,
{
    if waiting.len() == 0 {
        assert(planned.len() == ops.len());
        if statements.len() == 0 {
            lemma_all_settled(planned);
            assert forall|i: int| 0 <= i < ops.len() implies reads_back(
                #[trigger] ops[i],
                Planned::Settled(settled_outcomes(planned)[i]),
            ) by {
                lemma_all_settled_at(planned, i);
            }
        }
    } else {
        let op = ops[planned.len() as int];
        assert(waiting.last() == op);
        assert(waiting.drop_last() =~= ops.skip(planned.len() as int + 1).reverse());
        let plan = choose|plan: OpPlan|
            #[trigger] op_plans(waiting.last(), plan) && match plan {
                OpPlan::Fail(e) => c2 == c && step == BatchStep::Fail(e),
                OpPlan::Statement(k, t) => advances(
                    waiting.drop_last(),
                    planned.push(k),
                    statements.push(t),
                    strict,
                    c,
                    step,
                    c2,
                ),
                OpPlan::Prepare(n, p) => exists|ps: PrepStep, c1: Option<CacheView>|
                    #[trigger] prepare::start_step(n, strict, c, ps, c1) && continues(
                        ps,
                        p,
                        waiting.drop_last(),
                        planned,
                        statements,
                        strict,
                        c1,
                        step,
                        c2,
                    ),
            };
        match plan {
            OpPlan::Fail(_) => {},
            OpPlan::Statement(k, t) => {
                assert(planned.push(k).drop_last() =~= planned);
                lemma_steps(
                    ops,
                    waiting.drop_last(),
                    planned.push(k),
                    statements.push(t),
                    strict,
                    c,
                    step,
                    c2,
                );
            },
            OpPlan::Prepare(n, p) => {
                let (ps, c1) = choose|ps: PrepStep, c1: Option<CacheView>|
                    #[trigger] prepare::start_step(n, strict, c, ps, c1) && continues(
                        ps,
                        p,
                        waiting.drop_last(),
                        planned,
                        statements,
                        strict,
                        c1,
                        step,
                        c2,
                    );
                lemma_more_steps(
                    ops,
                    ps,
                    p,
                    waiting.drop_last(),
                    planned,
                    statements,
                    strict,
                    c1,
                    step,
                    c2,
                );
            },
        }
    }
}

proof fn lemma_more_steps(
    ops: Seq<WriteOp>,
    ps: PrepStep,
    pending: OpPending,
    waiting: Seq<WriteOp>,
    planned: Seq<Planned>,
    statements: Seq<TxStatement>,
    strict: bool,
    c: Option<CacheView>,
    step: BatchStep,
    c2: Option<CacheView>,
)
    requires
        continues(ps, pending, waiting, planned, statements, strict, c, step, c2),
        statements.len() == with_statement(planned),
        plans_first(ops, planned),
        planned.len() < ops.len(),
        kept_of(ops[planned.len() as int], pending),
        waiting == ops.skip(planned.len() as int + 1).reverse(),
    ensures
        is_step_of(ops, step),
    decreases waiting.len(), 2int,
{
    if let PrepStep::Ready(p) = ps {
        let s = choose|s: Result<(Planned, Option<TxStatement>), DatabaseError>|
            #[trigger] op_settles(pending, p, s) && match s {
                Err(e) => c2 == c && step == BatchStep::Fail(e),
                Ok(pair) => advances(
                    waiting,
                    planned.push(pair.0),
                    match pair.1 {
                        Some(t) => statements.push(t),
                        None => statements,
                    },
                    strict,
                    c,
                    step,
                    c2,
                ),
            };
        if let Ok(pair) = s {
            assert(planned.push(pair.0).drop_last() =~= planned);
            lemma_steps(
                ops,
                waiting,
                planned.push(pair.0),
                match pair.1 {
                    Some(t) => statements.push(t),
                    None => statements,
                },
                strict,
                c,
                step,
                c2,
            );
        }
    }
}

/// Whatever the database answers, a batch reads each write back as a write of
/// its own kind, in the order in which the writes were given: from its start,
/// and from any step of it to the next.
pub proof fn every_write_is_answered_in_kind(
    ops: Seq<WriteOp>,
    run: BatchRun,
    q: Question,
    answer: Answer,
    strict: bool,
    c: Option<CacheView>,
    step: BatchStep,
    c2: Option<CacheView>,
)
    ensures
        advances(ops.reverse(), Seq::empty(), Seq::empty(), strict, c, step, c2) ==> is_step_of(
            ops,
            step,
        ),
        is_step_of(ops, BatchStep::Ask(q, run)) && run.statements@.len() == with_statement(
            run.planned@,
        ) && resumes(run, answer, strict, c, step, c2) ==> is_step_of(ops, step),
{
    if advances(ops.reverse(), Seq::empty(), Seq::empty(), strict, c, step, c2) {
        assert(ops.skip(0) =~= ops);
        lemma_steps(ops, ops.reverse(), Seq::empty(), Seq::empty(), strict, c, step, c2);
    }
    if is_step_of(ops, BatchStep::Ask(q, run)) && run.statements@.len() == with_statement(
        run.planned@,
    ) && resumes(run, answer, strict, c, step, c2) {
        let (ps, c1) = choose|ps: PrepStep, c1: Option<CacheView>|
            #[trigger] prepare::answer_step(run.preparation, answer, strict, c, ps, c1)
                && continues(
                ps,
                run.pending,
                run.waiting@,
                run.planned@,
                run.statements@,
                strict,
                c1,
                step,
                c2,
            );
        lemma_more_steps(
            ops,
            ps,
            run.pending,
            run.waiting@,
            run.planned@,
            run.statements@,
            strict,
            c1,
            step,
            c2,
        );
    }
}

proof fn lemma_no_failure_at(planned: Seq<Planned>, results: Seq<TxResult>, i: int)
    requires
        0 <= i < planned.len(),
        first_op_failure(planned, results) is None,
        !(planned[i] is Settled),
    ensures
        op_failure(planned[i], results[with_statement(planned.take(i))]) is None,
    decreases planned.len(),
{
    if i == planned.len() - 1 {
        assert(planned.take(i) =~= planned.drop_last());
    } else {
        assert(planned.drop_last().take(i) =~= planned.take(i));
        lemma_no_failure_at(planned.drop_last(), results, i);
    }
}

/// The operation that a write of a batch is on its own.
pub open spec fn alone(op: WriteOp) -> Request {
    match op {
        WriteOp::Create { collection, data } => Request::Create { collection, data },
        WriteOp::Update { collection, id, data } => Request::Update { collection, id, data },
        WriteOp::Delete { collection, id } => Request::Delete { collection, id },
        WriteOp::UpdateWhere { collection, filters, data } => Request::UpdateWhereCount {
            collection,
            filters,
            data,
        },
        WriteOp::DeleteWhere { collection, filters } => Request::DeleteWhereCount {
            collection,
            filters,
        },
        WriteOp::Upsert { collection, spec } => Request::Upsert { collection, upsert: spec },
    }
}

/// Two statements say the same, column for column.
pub open spec fn same_statement(a: Statement, b: Statement) -> bool {
    match (a, b) {
        (
            Statement::UpdateWhere { table: t, pairs: x, filters: f },
            Statement::UpdateWhere { table: u, pairs: y, filters: g },
        ) => t == u && f == g && json::entry_views(x@) == json::entry_views(y@),
        (
            Statement::WindowedCounter {
                table: t,
                conflict_column: cc,
                id: i,
                key: k,
                count_field: cf,
                window_field: wf,
                created_fields: cr,
                updated_fields: up,
                now: n,
                window_cutoff: w,
            },
            Statement::WindowedCounter {
                table: t2,
                conflict_column: cc2,
                id: i2,
                key: k2,
                count_field: cf2,
                window_field: wf2,
                created_fields: cr2,
                updated_fields: up2,
                now: n2,
                window_cutoff: w2,
            },
        ) => t == t2 && cc@ == cc2@ && i@ == i2@ && k@ == k2@ && cf == cf2 && wf == wf2 && cr == cr2
            && up == up2 && n == n2 && w == w2,
        _ => a == b,
    }
}

/// A write of a batch starts as the operation on its own does: it is refused
/// where that is, and it needs the same of the schema or runs the same
/// statement at once. Only a created row is asked about more readily: whether
/// its table generates ids is asked even where the row brings one.
pub proof fn batched_writes_start_as_on_their_own(op: WriteOp, plan: OpPlan, single: Plan)
    requires
        op_plans(op, plan),
        ops::plans(alone(op), single),
    ensures
        plan is Fail <==> single is Fail,
        plan matches OpPlan::Statement(_, t) ==> (t matches TxStatement::Execute(s) && (
        single matches Plan::Run(Work::Execute(u), _) && same_statement(s, u))),
        plan matches OpPlan::Prepare(n, _) ==> (single matches Plan::Prepare(m, _) && n.table
            == m.table && n.guard == m.guard && text::views(n.require@) == text::views(m.require@)
            && n.rows@ == m.rows@ && n.policy == m.policy && n.order == m.order && (op is Create
            || n.ask_generates == m.ask_generates)),
{
    match op {
        WriteOp::DeleteWhere { .. } => {
            if plan is Prepare && single is Prepare {
                assert(plan->Prepare_0.rows@ =~= single->Prepare_0.rows@);
            }
        },
        _ => {},
    }
}

/// Once its needs are settled, a write of a batch runs the statement that the
/// operation on its own runs; a created or updated row is returned by the
/// statement itself. Where the table is not there, a filtered write changes
/// nothing either way, and any other fails either way.
pub proof fn batched_writes_run_as_on_their_own<F>(
    op: WriteOp,
    n: Need,
    pending: OpPending,
    m: Need,
    other: Pending,
    p: Prepared,
    preamble: u8,
    r: Result<(Planned, Option<TxStatement>), DatabaseError>,
    single: Settled<F>,
)
    requires
        op_plans(op, OpPlan::Prepare(n, pending)),
        ops::plans(alone(op), Plan::Prepare(m, other)),
        op_settles(pending, p, r),
        ops::settles(other, p, preamble, single),
    ensures
        r is Err <==> single is Fail,
        !p.present && r is Ok ==> single == Settled::Done(Outcome::<F>::Count(0)) && (
        r->Ok_0.0 == Planned::Settled(WriteOutcome::UpdatedWhere { rows_affected: 0 })
            || r->Ok_0.0 == Planned::Settled(WriteOutcome::DeletedWhere { rows_affected: 0 })),
        p.present && r is Ok ==> r->Ok_0.1 is Some && match r->Ok_0.1->0 {
            TxStatement::Execute(s) => single matches Settled::Run(Work::Execute(u), _)
                && same_statement(s, u),
            TxStatement::Returning(Statement::InsertReturning { table: t, pairs: x }) => (
            single matches Settled::Run(Work::Insert(Statement::Insert { table: u, pairs: y }), _)
                && t == u && json::entry_views(x@) == json::entry_views(y@)),
            TxStatement::Returning(Statement::UpdateByIdReturning { table: t, id: i, pairs: x }) => (
            single matches Settled::Run(Work::Batch(b), _) && b@.len() == 2 && (
            b@[0] matches BatchStatement::Execute(
                Statement::UpdateById { table: u, id: j, pairs: y },
            ) && t == u && i == j && json::entry_views(x@) == json::entry_views(y@))),
            _ => false,
        },
{
    if p.present && r is Ok {
        match (r->Ok_0.1->0, single) {
            (
                TxStatement::Execute(Statement::UpdateWhere { pairs: x, .. }),
                Settled::Run(Work::Execute(Statement::UpdateWhere { pairs: y, .. }), _),
            ) => {
                rows::pairs_are_unique(p.rows@[0]@, x@, y@);
            },
            (
                TxStatement::Returning(Statement::InsertReturning { pairs: x, .. }),
                Settled::Run(Work::Insert(Statement::Insert { pairs: y, .. }), _),
            ) => {
                rows::pairs_are_unique(p.rows@[0]@, x@, y@);
            },
            (
                TxStatement::Returning(Statement::UpdateByIdReturning { pairs: x, .. }),
                Settled::Run(Work::Batch(b), _),
            ) => {
                let y = b@[0]->Execute_0->UpdateById_pairs;
                rows::pairs_are_unique(p.rows@[0]@, x@, y@);
            },
            _ => {},
        }
    }
}

} // verus!
