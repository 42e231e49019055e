//! The single operations: what each needs of the schema, the statements it
//! runs, and what their results amount to.
//!
//! An operation goes through three functions. [`plan`] says what to settle
//! first (see [`Preparation`](crate::database::exec::prepare::Preparation)),
//! [`settle`] says what to run, and [`Reading::read`] says what came of it.
//! Running is left to the backend.

use vstd::prelude::*;

use crate::database::exec::guarded;
use crate::database::exec::guarded::{
    guarded_result, guarded_transaction, insert_outcome, update_outcome,
};
use crate::database::exec::lookup;
use crate::database::exec::prepare::{Need, Policy, Prepared};
use crate::database::exec::rows;
use crate::database::exec::rows::{
    push_filter_columns, push_guard_columns, query_columns, sorted_columns, sql_name, sql_names,
};
use crate::database::exec::statement;
use crate::database::exec::statement::{
    show_batch, show_tx, BatchResult, BatchStatement, Failure, Selection, Statement, TxResult,
    TxStatement,
};
use crate::database::exec::upsert;
use crate::database::exec::upsert::upsert_statement;
use crate::database::codec;
use crate::database::codec::{holds_key, record_id};
use crate::database::filter;
use crate::database::filter::{clone_filters, clone_trees, Filter, FilterTree, SortField};
use crate::database::schema_cache::SchemaCache;
use crate::database::service::{
    AggregateSpec, CapGuard, DatabaseError, GuardedInsert, GuardedUpdate, ListOptions, Record,
    RecordList, UpsertSpec,
};
use crate::double::Double;
use crate::ident;
use crate::json::{Json, JsonView};
use crate::row::Row;
use crate::text;

verus! {

/// One operation.
#[derive(Debug)]
pub enum Request {
    Get { collection: String, id: String },
    List { collection: String, opts: ListOptions },
    Count { collection: String, filters: Vec<Filter> },
    Sum { collection: String, field: String, filters: Vec<Filter> },
    Create { collection: String, data: Row },
    CreateMany { collection: String, rows: Vec<Row> },
    InsertGuarded { collection: String, data: Row, guards: Vec<CapGuard> },
    UpdateGuarded { collection: String, filters: Vec<Filter>, data: Row, guards: Vec<CapGuard> },
    Update { collection: String, id: String, data: Row },
    Delete { collection: String, id: String },
    DeleteWhere { collection: String, filters: Vec<Filter> },
    DeleteWhereCount { collection: String, filters: Vec<Filter> },
    TakeWhere { collection: String, filters: Vec<Filter> },
    UpdateWhere { collection: String, filters: Vec<Filter>, data: Row },
    UpdateWhereCount { collection: String, filters: Vec<Filter>, data: Row },
    IncrementFieldWhere { collection: String, col: String, delta: i64, filters: Vec<Filter> },
    Upsert { collection: String, upsert: UpsertSpec },
    Aggregate { collection: String, aggregate: AggregateSpec },
    QueryRaw { query: String, args: Vec<Json> },
    ExecRaw { query: String, args: Vec<Json> },
}

/// What is kept of an operation while its needs are settled.
#[derive(Debug)]
pub enum Pending {
    List { opts: ListOptions },
    Count { filters: Vec<Filter> },
    Sum { field: String, filters: Vec<Filter> },
    Create,
    CreateMany,
    InsertGuarded { guards: Vec<CapGuard> },
    UpdateGuarded { filters: Vec<Filter>, guards: Vec<CapGuard> },
    Update { id: String },
    DeleteWhere { filters: Vec<Filter> },
    DeleteWhereCount { filters: Vec<Filter> },
    TakeWhere { filters: Vec<Filter> },
    UpdateWhere { filters: Vec<Filter> },
    UpdateWhereCount { filters: Vec<Filter> },
    Increment { col: String, delta: i64, filters: Vec<Filter> },
    Aggregate { aggregate: AggregateSpec },
}

/// What to run.
#[derive(Debug)]
pub enum Work {
    /// A read of any number of rows.
    Fetch(Statement),
    /// A read of exactly one row.
    FetchOne(Statement),
    /// A write; how many rows it changed counts.
    Execute(Statement),
    /// A write that returns rows.
    ExecuteReturning(Statement),
    /// An insert; the key the backend generated counts.
    Insert(Statement),
    /// A read of one integer.
    ScalarI64(Statement),
    /// A read of one real number.
    ScalarF64(Statement),
    /// Several statements, in order; the first that fails ends them.
    Batch(Vec<BatchStatement>),
    /// Several statements, in order, all or nothing.
    Transaction(Vec<TxStatement>),
}

/// What running gave; `F` stands for a real number.
#[derive(Debug)]
pub enum Reply<F> {
    Rows(Vec<Record>),
    Row(Record),
    Changed(i64),
    Inserted(Option<i64>),
    Int(i64),
    Real(F),
    Batch(Vec<BatchResult<F>>),
    Transaction(Vec<TxResult>),
}

/// How what running gave is read.
#[derive(Debug)]
pub enum Reading {
    /// The record itself.
    One,
    /// The records themselves.
    Many,
    /// A page of records; `counted` where the records of all pages were
    /// counted first. A page without a size is as large as that count.
    Page { page: i64, page_size: Option<i64>, counted: bool },
    /// The integer itself.
    Int,
    /// The sum itself.
    Sum,
    /// The inserted row, with the key the backend may have generated.
    Created { data: Row },
    /// How many rows were inserted, over all statements.
    InsertedMany,
    GuardedInsert { table: String, guards: usize, preamble: u8 },
    GuardedUpdate { guards: usize, preamble: u8 },
    /// The updated row; none where nothing was changed.
    Updated,
    /// Nothing, where something was changed.
    Deleted,
    /// How many rows were changed.
    Changed,
    /// Nothing, whatever was changed.
    Nothing,
    /// How many rows a raw statement changed; it may have changed any table.
    Raw,
}

/// What came of an operation.
#[derive(Debug)]
pub enum Outcome<F> {
    Record(Record),
    Records(Vec<Record>),
    List(RecordList),
    Count(i64),
    /// The sum; `None` where there is no table to sum over, which is zero.
    Sum(Option<F>),
    Inserted(GuardedInsert),
    Updated(GuardedUpdate),
    Nothing,
}

/// How an operation starts.
#[derive(Debug)]
pub enum Plan {
    /// Settle this first.
    Prepare(Need, Pending),
    /// Run this right away.
    Run(Work, Reading),
    /// There is nothing to insert: no row was.
    NoRows,
    Fail(DatabaseError),
}

/// How an operation goes on once its needs are settled; `F` stands for a real
/// number.
#[derive(Debug)]
pub enum Settled<F> {
    Run(Work, Reading),
    Done(Outcome<F>),
    Fail(DatabaseError),
}

// ---------------------------------------------------------------------------
// Planning
// ---------------------------------------------------------------------------

/// A list is ordered where it is sorted or paged.
pub open spec fn is_ordered(opts: ListOptions) -> bool {
    opts.sort@.len() > 0 || opts.limit is Some
}

/// The needs of an operation that writes no rows.
pub open spec fn reads_of(n: Need, table: String, require: Seq<Seq<char>>, order: bool) -> bool {
    &&& n.table == table
    &&& n.guard
    &&& text::views(n.require@) == require
    &&& n.rows@.len() == 0
    &&& n.policy == Policy::Keep
    &&& !n.ask_generates
    &&& n.order == order
}

/// The needs of an operation that writes rows.
pub open spec fn writes_of(
    n: Need,
    table: String,
    guard: bool,
    require: Seq<Seq<char>>,
    rows: Seq<Row>,
    policy: Policy,
    ask_generates: bool,
) -> bool {
    &&& n.table == table
    &&& n.guard == guard
    &&& text::views(n.require@) == require
    &&& n.rows@ == rows
    &&& n.policy == policy
    &&& n.ask_generates == ask_generates
    &&& !n.order
}

/// The fields of sort keys that are no aliases: the columns to order by.
pub open spec fn sort_reads(sort: Seq<SortField>, aliases: Seq<Seq<char>>) -> Seq<Seq<char>>
    decreases sort.len(),
{
    if sort.len() == 0 {
        Seq::empty()
    } else {
        let before = sort_reads(sort.drop_last(), aliases);
        if aliases.contains(sort.last().field@) {
            before
        } else {
            before.push(sort.last().field@)
        }
    }
}

/// The collection an operation is on; raw statements are on none.
pub open spec fn target(request: Request) -> Option<String> {
    match request {
        Request::Get { collection, .. } => Some(collection),
        Request::List { collection, .. } => Some(collection),
        Request::Count { collection, .. } => Some(collection),
        Request::Sum { collection, .. } => Some(collection),
        Request::Create { collection, .. } => Some(collection),
        Request::CreateMany { collection, .. } => Some(collection),
        Request::InsertGuarded { collection, .. } => Some(collection),
        Request::UpdateGuarded { collection, .. } => Some(collection),
        Request::Update { collection, .. } => Some(collection),
        Request::Delete { collection, .. } => Some(collection),
        Request::DeleteWhere { collection, .. } => Some(collection),
        Request::DeleteWhereCount { collection, .. } => Some(collection),
        Request::TakeWhere { collection, .. } => Some(collection),
        Request::UpdateWhere { collection, .. } => Some(collection),
        Request::UpdateWhereCount { collection, .. } => Some(collection),
        Request::IncrementFieldWhere { collection, .. } => Some(collection),
        Request::Upsert { collection, .. } => Some(collection),
        Request::Aggregate { collection, .. } => Some(collection),
        Request::QueryRaw { .. } => None,
        Request::ExecRaw { .. } => None,
    }
}

/// What a plan of an operation on the plainly named `table` says.
pub open spec fn plans_on(request: Request, table: String, plan: Plan) -> bool {
    match request {
        Request::Get { id, .. } => plan == Plan::Run(
            Work::FetchOne(Statement::SelectById { table, id }),
            Reading::One,
        ),
        Request::List { opts, .. } => plan matches Plan::Prepare(n, p) && p == (Pending::List {
            opts,
        }) && reads_of(
            n,
            table,
            rows::named_columns(opts.filters@, opts.sort@, opts.filter_tree, opts.columns),
            is_ordered(opts),
        ),
        Request::Count { filters, .. } => plan matches Plan::Prepare(n, p) && p == (
        Pending::Count { filters }) && reads_of(n, table, filter::filter_columns(filters@), false),
        Request::Sum { field, filters, .. } => plan matches Plan::Prepare(n, p) && p == (
        Pending::Sum { field, filters }) && reads_of(
            n,
            table,
            filter::filter_columns(filters@).push(field@),
            false,
        ),
        Request::Create { data, .. } => plan matches Plan::Prepare(n, p) && p == Pending::Create
            && writes_of(
            n,
            table,
            false,
            Seq::empty(),
            seq![data],
            Policy::Create,
            !data@.dom().contains("id"@),
        ),
        Request::CreateMany { rows, .. } => if rows@.len() == 0 {
            plan == Plan::NoRows
        } else {
            plan matches Plan::Prepare(n, p) && p == Pending::CreateMany && writes_of(
                n,
                table,
                false,
                Seq::empty(),
                rows@,
                Policy::Create,
                true,
            )
        },
        Request::InsertGuarded { data, guards, .. } => plan matches Plan::Prepare(n, p) && p == (
        Pending::InsertGuarded { guards }) && writes_of(
            n,
            table,
            false,
            rows::guards_names(guards@),
            seq![data],
            Policy::Create,
            !data@.dom().contains("id"@),
        ),
        Request::UpdateGuarded { filters, data, guards, .. } => plan matches Plan::Prepare(n, p)
            && p == (Pending::UpdateGuarded { filters, guards }) && writes_of(
            n,
            table,
            true,
            filter::filter_columns(filters@) + rows::guards_names(guards@),
            seq![data],
            Policy::Stamp,
            false,
        ),
        Request::Update { id, data, .. } => plan matches Plan::Prepare(n, p) && p == (
        Pending::Update { id }) && writes_of(
            n,
            table,
            false,
            Seq::empty(),
            seq![data],
            Policy::Stamp,
            false,
        ),
        Request::Delete { id, .. } => plan == Plan::Run(
            Work::Execute(Statement::DeleteById { table, id }),
            Reading::Deleted,
        ),
        Request::DeleteWhere { filters, .. } => plan matches Plan::Prepare(n, p) && p == (
        Pending::DeleteWhere { filters }) && reads_of(
            n,
            table,
            filter::filter_columns(filters@),
            false,
        ),
        Request::DeleteWhereCount { filters, .. } => plan matches Plan::Prepare(n, p) && p == (
        Pending::DeleteWhereCount { filters }) && reads_of(
            n,
            table,
            filter::filter_columns(filters@),
            false,
        ),
        Request::TakeWhere { filters, .. } => plan matches Plan::Prepare(n, p) && p == (
        Pending::TakeWhere { filters }) && reads_of(
            n,
            table,
            filter::filter_columns(filters@),
            false,
        ),
        Request::UpdateWhere { filters, data, .. } => plan matches Plan::Prepare(n, p) && p == (
        Pending::UpdateWhere { filters }) && writes_of(
            n,
            table,
            true,
            filter::filter_columns(filters@),
            seq![data],
            Policy::Stamp,
            false,
        ),
        Request::UpdateWhereCount { filters, data, .. } => plan matches Plan::Prepare(n, p) && p
            == (Pending::UpdateWhereCount { filters }) && writes_of(
            n,
            table,
            true,
            filter::filter_columns(filters@),
            seq![data],
            Policy::Stamp,
            false,
        ),
        Request::IncrementFieldWhere { col, delta, filters, .. } => plan matches Plan::Prepare(n, p)
            && p == (Pending::Increment { col, delta, filters }) && reads_of(
            n,
            table,
            filter::filter_columns(filters@).push(col@),
            false,
        ),
        Request::Upsert { upsert, .. } => plan matches Plan::Run(Work::Execute(s), Reading::Changed)
            && upsert::upsert_renders(table, upsert, Ok(s)) || (plan matches Plan::Fail(e)
            && upsert::upsert_renders(table, upsert, Err(e))),
        Request::Aggregate { aggregate, .. } => match rows::first_bad_name(
            aggregate.alias_names(),
        ) {
            Some(bad) => plan matches Plan::Fail(e) && rows::refuses_sql_name(e, bad),
            None => plan matches Plan::Prepare(n, p) && p == (Pending::Aggregate { aggregate })
                && reads_of(
                n,
                table,
                aggregate.reads() + sort_reads(aggregate.sort@, aggregate.alias_names()),
                false,
            ),
        },
        Request::QueryRaw { query, args } => plan == Plan::Run(
            Work::Fetch(Statement::Raw { sql: query, args }),
            Reading::Many,
        ),
        Request::ExecRaw { query, args } => plan == Plan::Run(
            Work::Execute(Statement::Raw { sql: query, args }),
            Reading::Raw,
        ),
    }
}

/// What a plan says. A collection that is not plainly named is refused, but
/// for an insert of no rows, which is nothing.
pub open spec fn plans(request: Request, plan: Plan) -> bool {
    match target(request) {
        None => plans_on(request, arbitrary(), plan),
        Some(collection) => if ident::plain(collection@) || (request matches Request::CreateMany {
            rows,
            ..
        } && rows@.len() == 0) {
            plans_on(request, collection, plan)
        } else {
            plan matches Plan::Fail(e) && rows::refuses_sql_name(e, collection@)
        },
    }
}

fn reads(table: String, require: Vec<String>, order: bool) -> (r: Need)
    ensures
        reads_of(r, table, text::views(require@), order),
{
    Need {
        table,
        guard: true,
        require,
        rows: Vec::new(),
        policy: Policy::Keep,
        ask_generates: false,
        order,
    }
}

fn writes(
    table: String,
    guard: bool,
    require: Vec<String>,
    given: Vec<Row>,
    policy: Policy,
    ask_generates: bool,
) -> (r: Need)
    ensures
        writes_of(r, table, guard, text::views(require@), given@, policy, ask_generates),
{
    Need { table, guard, require, rows: given, policy, ask_generates, order: false }
}

fn no_names() -> (r: Vec<String>)
    ensures
        text::views(r@) == Seq::<Seq<char>>::empty(),
{
    let r: Vec<String> = Vec::new();
    proof {
        assert(text::views(r@) =~= Seq::empty());
    }
    r
}

fn filter_names(filters: &Vec<Filter>) -> (r: Vec<String>)
    ensures
        text::views(r@) == filter::filter_columns(filters@),
{
    let mut r = no_names();
    push_filter_columns(filters, &mut r);
    proof {
        assert(text::views(r@) =~= filter::filter_columns(filters@));
    }
    r
}

fn filter_names_and(filters: &Vec<Filter>, more: &str) -> (r: Vec<String>)
    ensures
        text::views(r@) == filter::filter_columns(filters@).push(more@),
{
    let mut r = filter_names(filters);
    let ghost before = text::views(r@);
    r.push(more.to_owned());
    proof {
        assert(text::views(r@) =~= before.push(more@));
    }
    r
}

fn one_row(data: Row) -> (r: Vec<Row>)
    ensures
        r@ == seq![data],
{
    let mut r: Vec<Row> = Vec::new();
    r.push(data);
    proof {
        assert(r@ =~= seq![data]);
    }
    r
}

fn contains_name(names: &Vec<&str>, name: &str) -> (r: bool)
    ensures
        r == text::views(names@).contains(name@),
{
    for i in 0..names.len()
        invariant
            forall|k: int| 0 <= k < i ==> #[trigger] text::views(names@)[k] != name@,
    {
        assert(text::views(names@)[i as int] == names@[i as int]@);
        if text::same(names[i], name) {
            return true;
        }
    }
    false
}

fn owned(names: &Vec<&str>) -> (r: Vec<String>)
    ensures
        text::views(r@) == text::views(names@),
{
    let mut out: Vec<String> = Vec::new();
    for i in 0..names.len()
        invariant
            out@.len() == i,
            forall|k: int| 0 <= k < i ==> #[trigger] out@[k]@ == names@[k]@,
    {
        out.push(names[i].to_owned());
    }
    proof {
        assert(text::views(out@) =~= text::views(names@));
    }
    out
}

/// Plans a grouped aggregate: its aliases must be plain, and every column it
/// reads or orders by must exist, where it orders by no alias.
fn plan_aggregate(table: String, aggregate: AggregateSpec) -> (r: Plan)
    ensures
        match rows::first_bad_name(aggregate.alias_names()) {
            Some(bad) => r matches Plan::Fail(e) && rows::refuses_sql_name(e, bad),
            None => r matches Plan::Prepare(n, p) && p == (Pending::Aggregate { aggregate })
                && reads_of(
                n,
                table,
                aggregate.reads() + sort_reads(aggregate.sort@, aggregate.alias_names()),
                false,
            ),
        },
{
    let aliases = aggregate.aliases();
    let alias_names = owned(&aliases);
    if let Err(e) = sql_names(&alias_names) {
        return Plan::Fail(e);
    }
    let columns = aggregate.read_columns();
    let mut require = owned(&columns);
    let ghost base = aggregate.reads();
    proof {
        assert(aggregate.sort@.take(0) =~= Seq::empty());
        assert(base + sort_reads(aggregate.sort@.take(0), aggregate.alias_names()) =~= base);
    }
    for i in 0..aggregate.sort.len()
        invariant
            text::views(aliases@) == aggregate.alias_names(),
            text::views(require@) == base + sort_reads(
                aggregate.sort@.take(i as int),
                aggregate.alias_names(),
            ),
    {
        let ghost before = text::views(require@);
        proof {
            assert(aggregate.sort@.take(i + 1).drop_last() =~= aggregate.sort@.take(i as int));
        }
        if !contains_name(&aliases, aggregate.sort[i].field.as_str()) {
            require.push(aggregate.sort[i].field.clone());
            proof {
                assert(text::views(require@) =~= before.push(aggregate.sort@[i as int].field@));
            }
        }
        proof {
            assert(text::views(require@) =~= base + sort_reads(
                aggregate.sort@.take(i + 1),
                aggregate.alias_names(),
            ));
        }
    }
    proof {
        assert(aggregate.sort@.take(aggregate.sort@.len() as int) =~= aggregate.sort@);
    }
    Plan::Prepare(reads(table, require, false), Pending::Aggregate { aggregate })
}

/// Says how an operation starts.
pub fn plan(request: Request) -> (r: Plan)
    ensures
        plans(request, r),
{
    match request {
        Request::Get { collection, id } => {
            if let Err(e) = sql_name(collection.as_str()) {
                return Plan::Fail(e);
            }
            Plan::Run(
                Work::FetchOne(Statement::SelectById { table: collection, id }),
                Reading::One,
            )
        },
        Request::List { collection, opts } => {
            if let Err(e) = sql_name(collection.as_str()) {
                return Plan::Fail(e);
            }
            let require = query_columns(
                &opts.filters,
                &opts.sort,
                &opts.filter_tree,
                &opts.columns,
            );
            let order = opts.sort.len() > 0 || opts.limit.is_some();
            Plan::Prepare(reads(collection, require, order), Pending::List { opts })
        },
        Request::Count { collection, filters } => {
            if let Err(e) = sql_name(collection.as_str()) {
                return Plan::Fail(e);
            }
            let require = filter_names(&filters);
            Plan::Prepare(reads(collection, require, false), Pending::Count { filters })
        },
        Request::Sum { collection, field, filters } => {
            if let Err(e) = sql_name(collection.as_str()) {
                return Plan::Fail(e);
            }
            let require = filter_names_and(&filters, field.as_str());
            Plan::Prepare(reads(collection, require, false), Pending::Sum { field, filters })
        },
        Request::Create { collection, data } => {
            if let Err(e) = sql_name(collection.as_str()) {
                return Plan::Fail(e);
            }
            let ask = !data.contains_key("id");
            let given = one_row(data);
            Plan::Prepare(
                writes(collection, false, no_names(), given, Policy::Create, ask),
                Pending::Create,
            )
        },
        Request::CreateMany { collection, rows: given } => {
            if given.len() == 0 {
                return Plan::NoRows;
            }
            if let Err(e) = sql_name(collection.as_str()) {
                return Plan::Fail(e);
            }
            Plan::Prepare(
                writes(collection, false, no_names(), given, Policy::Create, true),
                Pending::CreateMany,
            )
        },
        Request::InsertGuarded { collection, data, guards } => {
            if let Err(e) = sql_name(collection.as_str()) {
                return Plan::Fail(e);
            }
            let mut require = no_names();
            push_guard_columns(&guards, &mut require);
            proof {
                assert(text::views(require@) =~= rows::guards_names(guards@));
            }
            let ask = !data.contains_key("id");
            let given = one_row(data);
            Plan::Prepare(
                writes(collection, false, require, given, Policy::Create, ask),
                Pending::InsertGuarded { guards },
            )
        },
        Request::UpdateGuarded { collection, filters, data, guards } => {
            if let Err(e) = sql_name(collection.as_str()) {
                return Plan::Fail(e);
            }
            let mut require = filter_names(&filters);
            push_guard_columns(&guards, &mut require);
            let given = one_row(data);
            Plan::Prepare(
                writes(collection, true, require, given, Policy::Stamp, false),
                Pending::UpdateGuarded { filters, guards },
            )
        },
        Request::Update { collection, id, data } => {
            if let Err(e) = sql_name(collection.as_str()) {
                return Plan::Fail(e);
            }
            let given = one_row(data);
            Plan::Prepare(
                writes(collection, false, no_names(), given, Policy::Stamp, false),
                Pending::Update { id },
            )
        },
        Request::Delete { collection, id } => {
            if let Err(e) = sql_name(collection.as_str()) {
                return Plan::Fail(e);
            }
            Plan::Run(
                Work::Execute(Statement::DeleteById { table: collection, id }),
                Reading::Deleted,
            )
        },
        Request::DeleteWhere { collection, filters } => {
            if let Err(e) = sql_name(collection.as_str()) {
                return Plan::Fail(e);
            }
            let require = filter_names(&filters);
            Plan::Prepare(reads(collection, require, false), Pending::DeleteWhere { filters })
        },
        Request::DeleteWhereCount { collection, filters } => {
            if let Err(e) = sql_name(collection.as_str()) {
                return Plan::Fail(e);
            }
            let require = filter_names(&filters);
            Plan::Prepare(reads(collection, require, false), Pending::DeleteWhereCount { filters })
        },
        Request::TakeWhere { collection, filters } => {
            if let Err(e) = sql_name(collection.as_str()) {
                return Plan::Fail(e);
            }
            let require = filter_names(&filters);
            Plan::Prepare(reads(collection, require, false), Pending::TakeWhere { filters })
        },
        Request::UpdateWhere { collection, filters, data } => {
            if let Err(e) = sql_name(collection.as_str()) {
                return Plan::Fail(e);
            }
            let require = filter_names(&filters);
            let given = one_row(data);
            Plan::Prepare(
                writes(collection, true, require, given, Policy::Stamp, false),
                Pending::UpdateWhere { filters },
            )
        },
        Request::UpdateWhereCount { collection, filters, data } => {
            if let Err(e) = sql_name(collection.as_str()) {
                return Plan::Fail(e);
            }
            let require = filter_names(&filters);
            let given = one_row(data);
            Plan::Prepare(
                writes(collection, true, require, given, Policy::Stamp, false),
                Pending::UpdateWhereCount { filters },
            )
        },
        Request::IncrementFieldWhere { collection, col, delta, filters } => {
            if let Err(e) = sql_name(collection.as_str()) {
                return Plan::Fail(e);
            }
            let require = filter_names_and(&filters, col.as_str());
            Plan::Prepare(
                reads(collection, require, false),
                Pending::Increment { col, delta, filters },
            )
        },
        Request::Upsert { collection, upsert } => {
            if let Err(e) = sql_name(collection.as_str()) {
                return Plan::Fail(e);
            }
            match upsert_statement(collection, upsert) {
                Ok(s) => Plan::Run(Work::Execute(s), Reading::Changed),
                Err(e) => Plan::Fail(e),
            }
        },
        Request::Aggregate { collection, aggregate } => {
            if let Err(e) = sql_name(collection.as_str()) {
                return Plan::Fail(e);
            }
            plan_aggregate(collection, aggregate)
        },
        Request::QueryRaw { query, args } => Plan::Run(
            Work::Fetch(Statement::Raw { sql: query, args }),
            Reading::Many,
        ),
        Request::ExecRaw { query, args } => Plan::Run(
            Work::Execute(Statement::Raw { sql: query, args }),
            Reading::Raw,
        ),
    }
}

// ---------------------------------------------------------------------------
// Settling
// ---------------------------------------------------------------------------

/// Why a page cannot be rendered.
pub open spec fn page_refusal(limit: Option<i64>, offset: i64) -> Option<Seq<char>> {
    match limit {
        Some(l) => if l <= 0 {
            Some("a limit must be at least 1"@)
        } else if offset < 0 {
            Some("an offset cannot be negative"@)
        } else {
            None
        },
        None => if offset != 0 {
            Some("an offset needs a limit"@)
        } else {
            None
        },
    }
}

/// Which page a limit and an offset ask for, from 1.
pub open spec fn page_of(limit: Option<i64>, offset: i64) -> int {
    match limit {
        Some(l) => if l > 0 && offset >= 0 {
            offset as int / l as int + 1
        } else {
            1
        },
        None => 1,
    }
}

/// The number of the page a list asks for fits in an integer.
pub open spec fn page_fits(pending: Pending) -> bool {
    pending matches Pending::List { opts } ==> page_of(opts.limit, opts.offset) <= i64::MAX
}

impl Pending {
    /// Whether the number of the page that is asked for fits in an integer.
    pub fn fits(&self) -> (r: bool)
        ensures
            r == page_fits(*self),
    {
        match self {
            Pending::List { opts } => match opts.limit {
                Some(l) => {
                    proof {
                        if l > 1 && opts.offset >= 0 {
                            vstd::arithmetic::div_mod::lemma_div_is_ordered_by_denominator(
                                opts.offset as int,
                                2,
                                l as int,
                            );
                        }
                    }
                    l != 1 || opts.offset < i64::MAX
                },
                None => true,
            },
            _ => true,
        }
    }
}

/// Two optional lists of conditions say the same.
pub open spec fn same_condition(a: Option<Vec<FilterTree>>, b: Option<Vec<FilterTree>>) -> bool {
    match (a, b) {
        (Some(x), Some(y)) => filter::same_trees(x@, y@),
        (None, None) => true,
        _ => false,
    }
}

/// The select of a list.
pub open spec fn list_select(table: String, opts: ListOptions, key: Vec<String>) -> Statement {
    Statement::Select {
        table,
        selection: Selection {
            columns: opts.columns,
            filters: opts.filters,
            tree: opts.filter_tree,
            sort: opts.sort,
            limit: opts.limit,
            offset: opts.offset,
            unique_key: key,
        },
    }
}

/// `s` counts the rows that the list selects from, over all pages.
pub open spec fn is_list_count(s: BatchStatement, table: String, opts: ListOptions) -> bool {
    s matches BatchStatement::ScalarI64(Statement::Count { table: t, filters, tree }) && t == table
        && text::views(filters@) == text::views(opts.filters@) && same_condition(
        opts.filter_tree,
        tree,
    )
}

/// What a list runs: the select alone, or behind a count of the same rows.
pub open spec fn is_list_work(w: Work, table: String, opts: ListOptions, key: Vec<String>) -> bool {
    if opts.skip_count {
        w == Work::Fetch(list_select(table, opts, key))
    } else {
        w matches Work::Batch(b) && b@.len() == 2 && is_list_count(b@[0], table, opts) && b@[1]
            == BatchStatement::Rows(list_select(table, opts, key))
    }
}

/// What is answered of a table that is not there: nothing is found, counted,
/// summed or changed. Only an update that must find something fails.
pub open spec fn settles_missing<F>(pending: Pending, r: Settled<F>) -> bool {
    match pending {
        Pending::List { opts } => r matches Settled::Done(Outcome::List(l)) && l.records@.len() == 0
            && l.total_count == 0 && l.page == 1 && l.page_size == (match opts.limit {
            Some(n) => if n > 0 {
                n
            } else {
                0
            },
            None => 0,
        }),
        Pending::Count { .. } => r == Settled::Done(Outcome::<F>::Count(0)),
        Pending::Sum { .. } => r == Settled::Done(Outcome::<F>::Sum(None)),
        Pending::UpdateGuarded { .. } => r == Settled::Done(
            Outcome::<F>::Updated(GuardedUpdate::NoMatch),
        ),
        Pending::DeleteWhere { .. } => r == Settled::Done(Outcome::<F>::Nothing),
        Pending::DeleteWhereCount { .. } => r == Settled::Done(Outcome::<F>::Count(0)),
        Pending::TakeWhere { .. } => r matches Settled::Done(Outcome::Records(v)) && v@.len() == 0,
        Pending::UpdateWhere { .. } => r == Settled::<F>::Fail(DatabaseError::NotFound),
        Pending::UpdateWhereCount { .. } => r == Settled::Done(Outcome::<F>::Count(0)),
        Pending::Increment { .. } => r == Settled::Done(Outcome::<F>::Count(0)),
        Pending::Aggregate { .. } => r matches Settled::Done(Outcome::Records(v)) && v@.len() == 0,
        Pending::Create => r == Settled::<F>::Fail(DatabaseError::NotFound),
        Pending::CreateMany => r == Settled::<F>::Fail(DatabaseError::NotFound),
        Pending::InsertGuarded { .. } => r == Settled::<F>::Fail(DatabaseError::NotFound),
        Pending::Update { .. } => r == Settled::<F>::Fail(DatabaseError::NotFound),
    }
}

/// The operation writes one row, and one was settled.
pub open spec fn lacks_its_row(pending: Pending, p: Prepared) -> bool {
    (pending is Create || pending is InsertGuarded || pending is UpdateGuarded || pending is Update
        || pending is UpdateWhere || pending is UpdateWhereCount) && p.rows@.len() != 1
}

/// `ops` inserts the rows, one statement each, in order.
pub open spec fn inserts_rows(ops: Seq<TxStatement>, table: String, given: Seq<Row>) -> bool {
    &&& ops.len() == given.len()
    &&& forall|i: int|
        0 <= i < given.len() ==> is_insert(#[trigger] ops[i], table, given[i]@)
}

/// `op` inserts the row.
pub open spec fn is_insert(
    op: TxStatement,
    table: String,
    row: Map<Seq<char>, JsonView>,
) -> bool {
    op matches TxStatement::Execute(Statement::Insert { table: t, pairs }) && t == table
        && rows::pairs_of(row, pairs@)
}

/// What an operation on a table that is there runs.
pub open spec fn settles_present<F>(
    pending: Pending,
    p: Prepared,
    preamble: u8,
    r: Settled<F>,
) -> bool {
    let table = p.table;
    match pending {
        Pending::List { opts } => match page_refusal(opts.limit, opts.offset) {
            Some(m) => r matches Settled::Fail(DatabaseError::InvalidArgument(n)) && n@ == m,
            None => r matches Settled::Run(w, Reading::Page { page, page_size, counted }) && page
                == page_of(opts.limit, opts.offset) && page_size == opts.limit && counted
                == !opts.skip_count && is_list_work(w, table, opts, p.key),
        },
        Pending::Count { filters } => r == Settled::<F>::Run(
            Work::ScalarI64(Statement::Count { table, filters, tree: None }),
            Reading::Int,
        ),
        Pending::Sum { field, filters } => r == Settled::<F>::Run(
            Work::ScalarF64(Statement::Sum { table, field, filters }),
            Reading::Sum,
        ),
        Pending::Create => r matches Settled::Run(
            Work::Insert(Statement::Insert { table: t, pairs }),
            Reading::Created { data },
        ) && t == table && data == p.rows@[0] && rows::pairs_of(data@, pairs@),
        Pending::CreateMany => r matches Settled::Run(
            Work::Transaction(ops),
            Reading::InsertedMany,
        ) && inserts_rows(ops@, table, p.rows@),
        Pending::InsertGuarded { guards } => r matches Settled::Run(
            Work::Transaction(ops),
            Reading::GuardedInsert { table: t, guards: n, preamble: k },
        ) && t == table && n == guards@.len() && k == preamble && guarded_insert(
            ops@,
            table,
            p.rows@[0]@,
            guards,
            preamble,
        ),
        Pending::UpdateGuarded { filters, guards } => r matches Settled::Run(
            Work::Transaction(ops),
            Reading::GuardedUpdate { guards: n, preamble: k },
        ) && n == guards@.len() && k == preamble && guarded_update(
            ops@,
            table,
            p.rows@[0]@,
            filters,
            guards,
            preamble,
        ),
        Pending::Update { id } => r matches Settled::Run(Work::Batch(b), Reading::Updated)
            && b@.len() == 2 && (b@[0] matches BatchStatement::Execute(
            Statement::UpdateById { table: t, id: i, pairs },
        ) && t == table && i == id && rows::pairs_of(p.rows@[0]@, pairs@)) && b@[1]
            == BatchStatement::Rows(Statement::SelectById { table, id }),
        Pending::DeleteWhere { filters } => r == Settled::<F>::Run(
            Work::Execute(Statement::DeleteWhere { table, filters }),
            Reading::Nothing,
        ),
        Pending::DeleteWhereCount { filters } => r == Settled::<F>::Run(
            Work::Execute(Statement::DeleteWhere { table, filters }),
            Reading::Changed,
        ),
        Pending::TakeWhere { filters } => r == Settled::<F>::Run(
            Work::ExecuteReturning(Statement::DeleteWhereReturning { table, filters }),
            Reading::Many,
        ),
        Pending::UpdateWhere { filters } => r matches Settled::Run(
            Work::Execute(Statement::UpdateWhere { table: t, pairs, filters: f }),
            Reading::Nothing,
        ) && t == table && f == filters && rows::pairs_of(p.rows@[0]@, pairs@),
        Pending::UpdateWhereCount { filters } => r matches Settled::Run(
            Work::Execute(Statement::UpdateWhere { table: t, pairs, filters: f }),
            Reading::Changed,
        ) && t == table && f == filters && rows::pairs_of(p.rows@[0]@, pairs@),
        Pending::Increment { col, delta, filters } => r == Settled::<F>::Run(
            Work::Execute(Statement::Increment { table, column: col, delta, filters }),
            Reading::Changed,
        ),
        Pending::Aggregate { aggregate } => r matches Settled::Run(
            Work::Fetch(Statement::Grouped { query }),
            Reading::Many,
        ) && is_grouped(query, table, aggregate),
    }
}

/// `query` is the grouped query over `table` that the aggregate asks for.
pub open spec fn is_grouped(
    query: crate::database::service::GroupedQueryConfig,
    table: String,
    aggregate: AggregateSpec,
) -> bool {
    &&& query.table == table
    &&& query.select_columns == aggregate.select_columns
    &&& query.aggregates@ == aggregate.aggregates@.map_values(
        |a: crate::database::service::AggregateColumnSpec| a.rendered(),
    )
    &&& query.filters == aggregate.filters
    &&& query.group_by@ == crate::database::service::plain_groups(aggregate.group_by@)
    &&& query.date_buckets@ == crate::database::service::day_groups(aggregate.group_by@)
    &&& query.order_by == aggregate.sort
    &&& query.limit == if aggregate.limit > 0 {
        Some(aggregate.limit)
    } else {
        None
    }
}

/// `ops` is the transaction of a guarded insert of the row.
pub open spec fn guarded_insert(
    ops: Seq<TxStatement>,
    table: String,
    row: Map<Seq<char>, JsonView>,
    guards: Vec<CapGuard>,
    preamble: u8,
) -> bool {
    exists|write: Statement|
        #[trigger] guarded::is_guarded_transaction(
            ops,
            table,
            text::views(guards@),
            write,
            true,
            preamble,
        ) && (write matches Statement::InsertGuarded { table: t, pairs, guards: g } && t == table
            && rows::pairs_of(row, pairs@) && text::views(g@) == text::views(guards@))
}

/// `ops` is the transaction of a guarded update that sets the row's columns.
pub open spec fn guarded_update(
    ops: Seq<TxStatement>,
    table: String,
    row: Map<Seq<char>, JsonView>,
    filters: Vec<Filter>,
    guards: Vec<CapGuard>,
    preamble: u8,
) -> bool {
    exists|write: Statement|
        #[trigger] guarded::is_guarded_transaction(
            ops,
            table,
            text::views(guards@),
            write,
            false,
            preamble,
        ) && (write matches Statement::UpdateGuarded { table: t, pairs, filters: f, guards: g } && t
            == table && rows::pairs_of(row, pairs@) && f == filters && text::views(g@)
            == text::views(guards@))
}

/// How an operation goes on.
pub open spec fn settles<F>(pending: Pending, p: Prepared, preamble: u8, r: Settled<F>) -> bool {
    if !p.present {
        settles_missing(pending, r)
    } else if lacks_its_row(pending, p) {
        r matches Settled::Fail(DatabaseError::Internal(m)) && m@
            == "the settled rows do not fit the operation"@
    } else {
        settles_present(pending, p, preamble, r)
    }
}

fn settle_list<F>(table: String, key: Vec<String>, opts: ListOptions) -> (r: Settled<F>)
    requires
        page_of(opts.limit, opts.offset) <= i64::MAX,
    ensures
        match page_refusal(opts.limit, opts.offset) {
            Some(m) => r matches Settled::Fail(DatabaseError::InvalidArgument(n)) && n@ == m,
            None => r matches Settled::Run(w, Reading::Page { page, page_size, counted }) && page
                == page_of(opts.limit, opts.offset) && page_size == opts.limit && counted
                == !opts.skip_count && is_list_work(w, table, opts, key),
        },
{
    let mut page: i64 = 1;
    match opts.limit {
        Some(l) => {
            if l <= 0 {
                return Settled::Fail(
                    DatabaseError::InvalidArgument("a limit must be at least 1".to_owned()),
                );
            }
            if opts.offset < 0 {
                return Settled::Fail(
                    DatabaseError::InvalidArgument("an offset cannot be negative".to_owned()),
                );
            }
            page = opts.offset / l + 1;
        },
        None => {
            if opts.offset != 0 {
                return Settled::Fail(
                    DatabaseError::InvalidArgument("an offset needs a limit".to_owned()),
                );
            }
        },
    }
    let page_size = opts.limit;
    let counted = !opts.skip_count;
    let mut batch: Vec<BatchStatement> = Vec::new();
    if counted {
        let filters = clone_filters(&opts.filters);
        let tree = match &opts.filter_tree {
            Some(t) => Some(clone_trees(t)),
            None => None,
        };
        batch.push(
            BatchStatement::ScalarI64(Statement::Count { table: table.clone(), filters, tree }),
        );
    }
    let select = Statement::Select {
        table,
        selection: Selection {
            columns: opts.columns,
            filters: opts.filters,
            tree: opts.filter_tree,
            sort: opts.sort,
            limit: opts.limit,
            offset: opts.offset,
            unique_key: key,
        },
    };
    let work = if counted {
        batch.push(BatchStatement::Rows(select));
        Work::Batch(batch)
    } else {
        Work::Fetch(select)
    };
    Settled::Run(work, Reading::Page { page, page_size, counted })
}

fn settle_missing<F>(pending: Pending) -> (r: Settled<F>)
    ensures
        settles_missing(pending, r),
{
    match pending {
        Pending::List { opts } => Settled::Done(
            Outcome::List(
                RecordList {
                    records: Vec::new(),
                    total_count: 0,
                    page: 1,
                    page_size: match opts.limit {
                        Some(n) => if n > 0 {
                            n
                        } else {
                            0
                        },
                        None => 0,
                    },
                },
            ),
        ),
        Pending::Count { .. } => Settled::Done(Outcome::Count(0)),
        Pending::Sum { .. } => Settled::Done(Outcome::Sum(None)),
        Pending::UpdateGuarded { .. } => Settled::Done(Outcome::Updated(GuardedUpdate::NoMatch)),
        Pending::DeleteWhere { .. } => Settled::Done(Outcome::Nothing),
        Pending::DeleteWhereCount { .. } => Settled::Done(Outcome::Count(0)),
        Pending::TakeWhere { .. } => Settled::Done(Outcome::Records(Vec::new())),
        Pending::UpdateWhere { .. } => Settled::Fail(DatabaseError::NotFound),
        Pending::UpdateWhereCount { .. } => Settled::Done(Outcome::Count(0)),
        Pending::Increment { .. } => Settled::Done(Outcome::Count(0)),
        Pending::Aggregate { .. } => Settled::Done(Outcome::Records(Vec::new())),
        Pending::Create => Settled::Fail(DatabaseError::NotFound),
        Pending::CreateMany => Settled::Fail(DatabaseError::NotFound),
        Pending::InsertGuarded { .. } => Settled::Fail(DatabaseError::NotFound),
        Pending::Update { .. } => Settled::Fail(DatabaseError::NotFound),
    }
}

fn insert_all(table: &String, given: &Vec<Row>) -> (r: Vec<TxStatement>)
    ensures
        inserts_rows(r@, *table, given@),
{
    let mut ops: Vec<TxStatement> = Vec::new();
    for i in 0..given.len()
        invariant
            ops@.len() == i,
            forall|k: int| 0 <= k < i ==> is_insert(#[trigger] ops@[k], *table, given@[k]@),
    {
        let pairs = sorted_columns(&given[i]);
        ops.push(TxStatement::Execute(Statement::Insert { table: table.clone(), pairs }));
    }
    ops
}

/// Says how an operation goes on once its needs are settled. `preamble` is how
/// many statements the backend wants run before a guarded write.
pub fn settle<F>(pending: Pending, prepared: Prepared, preamble: u8) -> (r: Settled<F>)
    requires
        page_fits(pending),
    ensures
        settles(pending, prepared, preamble, r),
{
    if !prepared.present {
        return settle_missing(pending);
    }
    let ghost p = prepared;
    let table = prepared.table;
    let key = prepared.key;
    let mut given = prepared.rows;
    let one = given.len() == 1;
    match pending {
        Pending::List { opts } => settle_list(table, key, opts),
        Pending::Count { filters } => Settled::Run(
            Work::ScalarI64(Statement::Count { table, filters, tree: None }),
            Reading::Int,
        ),
        Pending::Sum { field, filters } => Settled::Run(
            Work::ScalarF64(Statement::Sum { table, field, filters }),
            Reading::Sum,
        ),
        Pending::CreateMany => {
            let ops = insert_all(&table, &given);
            Settled::Run(Work::Transaction(ops), Reading::InsertedMany)
        },
        Pending::DeleteWhere { filters } => Settled::Run(
            Work::Execute(Statement::DeleteWhere { table, filters }),
            Reading::Nothing,
        ),
        Pending::DeleteWhereCount { filters } => Settled::Run(
            Work::Execute(Statement::DeleteWhere { table, filters }),
            Reading::Changed,
        ),
        Pending::TakeWhere { filters } => Settled::Run(
            Work::ExecuteReturning(Statement::DeleteWhereReturning { table, filters }),
            Reading::Many,
        ),
        Pending::Increment { col, delta, filters } => Settled::Run(
            Work::Execute(Statement::Increment { table, column: col, delta, filters }),
            Reading::Changed,
        ),
        Pending::Aggregate { aggregate } => {
            let query = aggregate.into_grouped_config(table);
            Settled::Run(Work::Fetch(Statement::Grouped { query }), Reading::Many)
        },
        other => {
            if !one {
                return Settled::Fail(
                    DatabaseError::Internal("the settled rows do not fit the operation".to_owned()),
                );
            }
            let row = given.swap_remove(0);
            settle_one(other, table, row, preamble)
        },
    }
}

/// The operation writes one row.
spec fn writes_one(pending: Pending) -> bool {
    pending is Create || pending is InsertGuarded || pending is UpdateGuarded || pending is Update
        || pending is UpdateWhere || pending is UpdateWhereCount
}

fn settle_one<F>(pending: Pending, table: String, row: Row, preamble: u8) -> (r: Settled<F>)
    requires
        writes_one(pending),
    ensures
        forall|p: Prepared|
            p.table == table && p.rows@.len() == 1 && p.rows@[0] == row
                ==> #[trigger] settles_present(pending, p, preamble, r),
{
    let pairs = sorted_columns(&row);
    match pending {
        Pending::Create => Settled::Run(
            Work::Insert(Statement::Insert { table, pairs }),
            Reading::Created { data: row },
        ),
        Pending::InsertGuarded { guards } => {
            let n: usize = guards.len();
            let for_write = crate::database::service::clone_guards(&guards);
            let write = Statement::InsertGuarded { table: table.clone(), pairs, guards: for_write };
            let named = table.clone();
            let ops = guarded_transaction(table, guards, write, true, preamble);
            proof {
                assert(guarded_insert(ops@, table, row@, guards, preamble));
            }
            Settled::Run(
                Work::Transaction(ops),
                Reading::GuardedInsert { table: named, guards: n, preamble },
            )
        },
        Pending::UpdateGuarded { filters, guards } => {
            let n: usize = guards.len();
            let for_write = crate::database::service::clone_guards(&guards);
            let write = Statement::UpdateGuarded {
                table: table.clone(),
                pairs,
                filters,
                guards: for_write,
            };
            let ops = guarded_transaction(table, guards, write, false, preamble);
            proof {
                assert(guarded_update(ops@, table, row@, filters, guards, preamble));
            }
            Settled::Run(Work::Transaction(ops), Reading::GuardedUpdate { guards: n, preamble })
        },
        Pending::Update { id } => {
            let mut batch: Vec<BatchStatement> = Vec::new();
            batch.push(
                BatchStatement::Execute(
                    Statement::UpdateById { table: table.clone(), id: id.clone(), pairs },
                ),
            );
            batch.push(BatchStatement::Rows(Statement::SelectById { table, id }));
            Settled::Run(Work::Batch(batch), Reading::Updated)
        },
        Pending::UpdateWhere { filters } => Settled::Run(
            Work::Execute(Statement::UpdateWhere { table, pairs, filters }),
            Reading::Nothing,
        ),
        Pending::UpdateWhereCount { filters } => Settled::Run(
            Work::Execute(Statement::UpdateWhere { table, pairs, filters }),
            Reading::Changed,
        ),
        _ => Settled::Fail(DatabaseError::NotFound),
    }
}

// ---------------------------------------------------------------------------
// Reading what came back
// ---------------------------------------------------------------------------

/// What is said of a result of another shape than its statement has.
pub open spec fn shape_error(what: Seq<char>, got: Option<BatchResult<Double>>) -> Seq<char> {
    "run_batch returned an unexpected result shape for "@ + what + ": "@
        + statement::batch_shown(got)
}

/// The result at `i`, where there is one.
pub open spec fn result_at(results: Seq<BatchResult<Double>>, i: int) -> Option<
    BatchResult<Double>,
> {
    if i < results.len() {
        Some(results[i])
    } else {
        None
    }
}

/// How many rows the statements of a transaction inserted.
pub open spec fn inserted_sum(results: Seq<TxResult>) -> int
    decreases results.len(),
{
    if results.len() == 0 {
        0
    } else {
        inserted_sum(results.drop_last()) + (match results.last() {
            TxResult::Execute(n) => n as int,
            TxResult::Returning(_) => 0,
        })
    }
}

/// Every statement of a transaction gave a count.
pub open spec fn all_counts(results: Seq<TxResult>) -> bool {
    forall|i: int| 0 <= i < results.len() ==> (#[trigger] results[i]) is Execute
}

/// The result at `i` is the first that is no count.
pub open spec fn first_rows(results: Seq<TxResult>, i: int) -> bool {
    &&& 0 <= i < results.len()
    &&& !(results[i] is Execute)
    &&& all_counts(results.take(i))
}

/// The counts that are added up stay within an integer all along.
pub open spec fn counts_fit<F>(reading: Reading, reply: Result<Reply<F>, Failure>) -> bool {
    reading is InsertedMany ==> (reply matches Ok(Reply::Transaction(results)) ==> forall|k: int|
        0 <= k <= results@.len() ==> i64::MIN <= #[trigger] inserted_sum(results@.take(k))
            <= i64::MAX)
}

/// The record of an inserted row: its own key, or the one the backend
/// generated, which then stands among its columns too.
pub open spec fn is_created_record(data: Row, generated: Option<i64>, record: Record) -> bool {
    if data@.dom().contains("id"@) && codec::is_key(data@["id"@]) {
        record.data@ == data@ && record.id@ == codec::id_text(data@["id"@])
    } else {
        match generated {
            Some(rowid) => record.data@ == data@.insert("id"@, JsonView::Int(rowid)) && record.id@
                == text::decimal(rowid as int),
            None => record.data@ == data@ && record.id@ == Seq::<char>::empty(),
        }
    }
}

/// The page that the records make.
pub open spec fn is_page(
    list: RecordList,
    records: Vec<Record>,
    total: Option<i64>,
    page: i64,
    page_size: Option<i64>,
) -> bool {
    &&& list.records == records
    &&& list.total_count == (match total {
        Some(n) => n,
        None => records@.len() as i64,
    })
    &&& list.page == page
    &&& list.page_size == (match page_size {
        Some(n) => n,
        None => list.total_count,
    })
}

/// What a reply amounts to.
pub open spec fn reads_as(
    reading: Reading,
    reply: Reply<Double>,
    r: Result<Outcome<Double>, DatabaseError>,
) -> bool {
    match (reading, reply) {
        (Reading::One, Reply::Row(record)) => r == Ok::<Outcome<Double>, DatabaseError>(
            Outcome::Record(record),
        ),
        (Reading::Many, Reply::Rows(records)) => r == Ok::<Outcome<Double>, DatabaseError>(
            Outcome::Records(records),
        ),
        (Reading::Page { page, page_size, counted: false }, Reply::Rows(records)) => r matches Ok(
            Outcome::List(list),
        ) && is_page(list, records, None, page, page_size),
        (Reading::Page { page, page_size, counted: true }, Reply::Batch(results)) => {
            if results@.len() < 1 || !(results@[0] is ScalarI64) {
                r matches Err(DatabaseError::Internal(m)) && m@ == shape_error(
                    "list count"@,
                    result_at(results@, 0),
                )
            } else if results@.len() < 2 || !(results@[1] is Rows) {
                r matches Err(DatabaseError::Internal(m)) && m@ == shape_error(
                    "list select"@,
                    result_at(results@, 1),
                )
            } else {
                r matches Ok(Outcome::List(list)) && is_page(
                    list,
                    results@[1]->Rows_0,
                    Some(results@[0]->ScalarI64_0),
                    page,
                    page_size,
                )
            }
        },
        (Reading::Int, Reply::Int(n)) => r == Ok::<Outcome<Double>, DatabaseError>(Outcome::Count(n)),
        (Reading::Sum, Reply::Real(f)) => r == Ok::<Outcome<Double>, DatabaseError>(
            Outcome::Sum(Some(f)),
        ),
        (Reading::Created { data }, Reply::Inserted(generated)) => r matches Ok(
            Outcome::Record(record),
        ) && is_created_record(data, generated, record),
        (Reading::InsertedMany, Reply::Transaction(results)) => if all_counts(results@) {
            r matches Ok(Outcome::Count(n)) && n == inserted_sum(results@)
        } else {
            exists|i: int| #[trigger]
                first_rows(results@, i) && (r matches Err(DatabaseError::Internal(m)) && m@
                    == "run_transaction returned "@ + statement::tx_shown(results@[i])
                    + " for a create_many insert"@)
        },
        (
            Reading::GuardedInsert { table, guards, preamble },
            Reply::Transaction(results),
        ) => guarded_inserted(table@, guards as int, preamble as int, results@, r),
        (Reading::GuardedUpdate { guards, preamble }, Reply::Transaction(results)) => {
            guarded_updated(guards as int, preamble as int, results@, r)
        },
        (Reading::Updated, Reply::Batch(results)) => {
            if results@.len() < 1 || !(results@[0] is Execute) {
                r matches Err(DatabaseError::Internal(m)) && m@ == shape_error(
                    "update statement"@,
                    result_at(results@, 0),
                )
            } else if results@[0]->Execute_0 == 0 {
                r == Err::<Outcome<Double>, DatabaseError>(DatabaseError::NotFound)
            } else if results@.len() < 2 || !(results@[1] is Rows) {
                r matches Err(DatabaseError::Internal(m)) && m@ == shape_error(
                    "update re-fetch"@,
                    result_at(results@, 1),
                )
            } else if results@[1]->Rows_0@.len() == 0 {
                r == Err::<Outcome<Double>, DatabaseError>(DatabaseError::NotFound)
            } else {
                r == Ok::<Outcome<Double>, DatabaseError>(Outcome::Record(results@[1]->Rows_0@[0]))
            }
        },
        (Reading::Deleted, Reply::Changed(n)) => r == if n == 0 {
            Err::<Outcome<Double>, DatabaseError>(DatabaseError::NotFound)
        } else {
            Ok::<Outcome<Double>, DatabaseError>(Outcome::Nothing)
        },
        (Reading::Changed, Reply::Changed(n)) => r == Ok::<Outcome<Double>, DatabaseError>(
            Outcome::Count(n),
        ),
        (Reading::Nothing, Reply::Changed(_)) => r == Ok::<Outcome<Double>, DatabaseError>(
            Outcome::Nothing,
        ),
        (Reading::Raw, Reply::Changed(n)) => r == Ok::<Outcome<Double>, DatabaseError>(
            Outcome::Count(n),
        ),
        _ => r matches Err(DatabaseError::Internal(m)) && m@
            == "the reply does not fit what was run"@,
    }
}

/// What the results of a guarded insert amount to.
pub open spec fn guarded_inserted<F>(
    table: Seq<char>,
    guards: int,
    preamble: int,
    results: Seq<TxResult>,
    r: Result<Outcome<F>, DatabaseError>,
) -> bool {
    exists|g: Result<(TxResult, Option<usize>), DatabaseError>|
        #[trigger] guarded::guarded_says(results, guards, preamble, g) && match g {
            Err(e) => r == Err::<Outcome<F>, DatabaseError>(e),
            Ok(pair) => match r {
                Ok(o) => o matches Outcome::Inserted(i) && guarded::insert_says(
                    table,
                    pair.0,
                    pair.1,
                    Ok(i),
                ),
                Err(e) => guarded::insert_says(table, pair.0, pair.1, Err(e)),
            },
        }
}

/// What the results of a guarded update amount to.
pub open spec fn guarded_updated<F>(
    guards: int,
    preamble: int,
    results: Seq<TxResult>,
    r: Result<Outcome<F>, DatabaseError>,
) -> bool {
    exists|g: Result<(TxResult, Option<usize>), DatabaseError>|
        #[trigger] guarded::guarded_says(results, guards, preamble, g) && match g {
            Err(e) => r == Err::<Outcome<F>, DatabaseError>(e),
            Ok(pair) => match r {
                Ok(o) => o matches Outcome::Updated(u) && guarded::update_says(
                    pair.0,
                    pair.1,
                    Ok(u),
                ),
                Err(e) => guarded::update_says(pair.0, pair.1, Err(e)),
            },
        }
}

fn batch_shape_error(what: &str, results: &Vec<BatchResult<Double>>, i: usize) -> (r:
    DatabaseError)
    ensures
        r matches DatabaseError::Internal(m) && m@ == shape_error(
            what@,
            result_at(results@, i as int),
        ),
{
    let got = if i < results.len() {
        Some(&results[i])
    } else {
        None
    };
    DatabaseError::Internal(
        text::join4(
            "run_batch returned an unexpected result shape for ",
            what,
            ": ",
            show_batch(got).as_str(),
        ),
    )
}

fn is_rows_at<F>(results: &Vec<BatchResult<F>>, i: usize) -> (r: bool)
    ensures
        r == (i < results@.len() && results@[i as int] is Rows),
{
    if i < results.len() {
        match &results[i] {
            BatchResult::Rows(_) => true,
            _ => false,
        }
    } else {
        false
    }
}

fn misfit() -> (r: DatabaseError)
    ensures
        r matches DatabaseError::Internal(m) && m@ == "the reply does not fit what was run"@,
{
    DatabaseError::Internal("the reply does not fit what was run".to_owned())
}

fn page_list(
    records: Vec<Record>,
    total: Option<i64>,
    page: i64,
    page_size: Option<i64>,
) -> (r: RecordList)
    ensures
        is_page(r, records, total, page, page_size),
{
    let total_count: i64 = match total {
        Some(n) => n,
        None => records.len() as i64,
    };
    let page_size: i64 = match page_size {
        Some(n) => n,
        None => total_count,
    };
    RecordList { records, total_count, page, page_size }
}

fn read_created(data: Row, generated: Option<i64>) -> (r: Record)
    ensures
        is_created_record(data, generated, r),
{
    let own: Option<String> = match data.get("id") {
        Some(v) => if holds_key(v) {
            Some(record_id(v))
        } else {
            None
        },
        None => None,
    };
    match own {
        Some(id) => Record { id, data },
        None => match generated {
            Some(rowid) => {
                let mut data = data;
                data.insert("id".to_owned(), Json::Int(rowid));
                Record { id: text::i64_text(rowid), data }
            },
            None => Record { id: String::new(), data },
        },
    }
}

proof fn lemma_counts(results: Seq<TxResult>, k: int)
    requires
        0 <= k < results.len(),
    ensures
        inserted_sum(results.take(k + 1)) == inserted_sum(results.take(k)) + (match results[k] {
            TxResult::Execute(n) => n as int,
            TxResult::Returning(_) => 0,
        }),
{
    assert(results.take(k + 1).drop_last() =~= results.take(k));
    assert(results.take(k + 1).last() == results[k]);
}

fn read_inserted(results: &Vec<TxResult>) -> (r: Result<i64, usize>)
    requires
        forall|k: int|
            0 <= k <= results@.len() ==> i64::MIN <= #[trigger] inserted_sum(results@.take(k))
                <= i64::MAX,
    ensures
        match r {
            Ok(n) => all_counts(results@) && n == inserted_sum(results@),
            Err(i) => !all_counts(results@) && first_rows(results@, i as int),
        },
{
    let mut sum: i64 = 0;
    for i in 0..results.len()
        invariant
            forall|k: int|
                0 <= k <= results@.len() ==> i64::MIN <= #[trigger] inserted_sum(results@.take(k))
                    <= i64::MAX,
            sum == inserted_sum(results@.take(i as int)),
            forall|k: int| 0 <= k < i ==> (#[trigger] results@[k]) is Execute,
    {
        proof {
            lemma_counts(results@, i as int);
            assert(i64::MIN <= inserted_sum(results@.take(i + 1)) <= i64::MAX);
        }
        match &results[i] {
            TxResult::Execute(n) => {
                sum = sum + *n;
            },
            TxResult::Returning(_) => {
                return Err(i);
            },
        }
    }
    proof {
        assert(results@.take(results@.len() as int) =~= results@);
    }
    Ok(sum)
}

impl Reading {
    /// Whether the counts that are added up stay within an integer all along.
    pub fn fits<F>(&self, reply: &Result<Reply<F>, Failure>) -> (r: bool)
        ensures
            r == counts_fit(*self, *reply),
    {
        match self {
            Reading::InsertedMany => {},
            _ => {
                return true;
            },
        }
        match reply {
            Ok(Reply::Transaction(results)) => {
                let mut sum: i64 = 0;
                proof {
                    assert(results@.take(0) =~= Seq::empty());
                }
                for i in 0..results.len()
                    invariant
                        *self is InsertedMany,
                        *reply == Ok::<Reply<F>, Failure>(Reply::Transaction(*results)),
                        sum == inserted_sum(results@.take(i as int)),
                        forall|k: int|
                            0 <= k <= i ==> i64::MIN <= #[trigger] inserted_sum(results@.take(k))
                                <= i64::MAX,
                {
                    proof {
                        lemma_counts(results@, i as int);
                    }
                    let n: i64 = match &results[i] {
                        TxResult::Execute(n) => *n,
                        TxResult::Returning(_) => 0,
                    };
                    match sum.checked_add(n) {
                        Some(next) => {
                            sum = next;
                        },
                        None => {
                            proof {
                                let k = i + 1;
                                assert(!(i64::MIN <= inserted_sum(results@.take(k)) <= i64::MAX));
                                assert(reply->Ok_0->Transaction_0@.take(k) == results@.take(k));
                                assert(!counts_fit(*self, *reply));
                            }
                            return false;
                        },
                    }
                }
                true
            },
            _ => true,
        }
    }

    /// Says what a reply amounts to. A raw statement that was run may have
    /// changed any table, so that nothing stays known of any.
    pub fn read(
        self,
        reply: Result<Reply<Double>, Failure>,
        cache: &mut Option<SchemaCache>,
    ) -> (r: Result<Outcome<Double>, DatabaseError>)
        requires
            counts_fit(self, reply),
        ensures
            match reply {
                Err(f) => r == Err::<Outcome<Double>, DatabaseError>(statement::failure_error(f)),
                Ok(given) => reads_as(self, given, r),
            },
            text::opt_view(*final(cache)) == if self is Raw && (reply matches Ok(g)
                && g is Changed) {
                lookup::all_changed(text::opt_view(*old(cache)))
            } else {
                text::opt_view(*old(cache))
            },
    {
        let reply = match reply {
            Ok(given) => given,
            Err(f) => {
                return Err(f.into_error());
            },
        };
        match (self, reply) {
            (Reading::One, Reply::Row(record)) => Ok(Outcome::Record(record)),
            (Reading::Many, Reply::Rows(records)) => Ok(Outcome::Records(records)),
            (Reading::Page { page, page_size, counted: false }, Reply::Rows(records)) => Ok(
                Outcome::List(page_list(records, None, page, page_size)),
            ),
            (Reading::Page { page, page_size, counted: true }, Reply::Batch(results)) => {
                let mut results = results;
                if results.len() < 1 {
                    return Err(batch_shape_error("list count", &results, 0));
                }
                let total: i64 = match &results[0] {
                    BatchResult::ScalarI64(n) => *n,
                    _ => {
                        return Err(batch_shape_error("list count", &results, 0));
                    },
                };
                if !is_rows_at(&results, 1) {
                    return Err(batch_shape_error("list select", &results, 1));
                }
                match results.swap_remove(1) {
                    BatchResult::Rows(records) => Ok(
                        Outcome::List(page_list(records, Some(total), page, page_size)),
                    ),
                    _ => Err(misfit()),
                }
            },
            (Reading::Int, Reply::Int(n)) => Ok(Outcome::Count(n)),
            (Reading::Sum, Reply::Real(f)) => Ok(Outcome::Sum(Some(f))),
            (Reading::Created { data }, Reply::Inserted(generated)) => Ok(
                Outcome::Record(read_created(data, generated)),
            ),
            (Reading::InsertedMany, Reply::Transaction(results)) => {
                match read_inserted(&results) {
                    Ok(n) => Ok(Outcome::Count(n)),
                    Err(i) => Err(
                        DatabaseError::Internal(
                            text::join3(
                                "run_transaction returned ",
                                show_tx(&results[i]).as_str(),
                                " for a create_many insert",
                            ),
                        ),
                    ),
                }
            },
            (
                Reading::GuardedInsert { table, guards, preamble },
                Reply::Transaction(results),
            ) => {
                let g = guarded_result(results, guards, preamble);
                match g {
                    Err(e) => Err(e),
                    Ok((write, refused)) => match insert_outcome(table.as_str(), write, refused) {
                        Ok(i) => Ok(Outcome::Inserted(i)),
                        Err(e) => Err(e),
                    },
                }
            },
            (Reading::GuardedUpdate { guards, preamble }, Reply::Transaction(results)) => {
                let g = guarded_result(results, guards, preamble);
                match g {
                    Err(e) => Err(e),
                    Ok((write, refused)) => match update_outcome(write, refused) {
                        Ok(u) => Ok(Outcome::Updated(u)),
                        Err(e) => Err(e),
                    },
                }
            },
            (Reading::Updated, Reply::Batch(results)) => {
                let mut results = results;
                if results.len() < 1 {
                    return Err(batch_shape_error("update statement", &results, 0));
                }
                let affected: i64 = match &results[0] {
                    BatchResult::Execute(n) => *n,
                    _ => {
                        return Err(batch_shape_error("update statement", &results, 0));
                    },
                };
                if affected == 0 {
                    return Err(DatabaseError::NotFound);
                }
                if !is_rows_at(&results, 1) {
                    return Err(batch_shape_error("update re-fetch", &results, 1));
                }
                match results.swap_remove(1) {
                    BatchResult::Rows(found) => {
                        let mut found = found;
                        if found.len() == 0 {
                            Err(DatabaseError::NotFound)
                        } else {
                            Ok(Outcome::Record(found.swap_remove(0)))
                        }
                    },
                    _ => Err(misfit()),
                }
            },
            (Reading::Deleted, Reply::Changed(n)) => {
                if n == 0 {
                    Err(DatabaseError::NotFound)
                } else {
                    Ok(Outcome::Nothing)
                }
            },
            (Reading::Changed, Reply::Changed(n)) => Ok(Outcome::Count(n)),
            (Reading::Nothing, Reply::Changed(_)) => Ok(Outcome::Nothing),
            (Reading::Raw, Reply::Changed(n)) => {
                lookup::clear(cache);
                Ok(Outcome::Count(n))
            },
            _ => Err(misfit()),
        }
    }
}

// ---------------------------------------------------------------------------
// Laws
// ---------------------------------------------------------------------------

/// The count of a list is of the rows that its pages are taken from: it is
/// made over the same table, under the same conditions, and both statements
/// run together, the count first.
pub proof fn the_count_is_of_the_listed_rows<F>(
    opts: ListOptions,
    p: Prepared,
    preamble: u8,
    r: Settled<F>,
)
    requires
        settles(Pending::List { opts }, p, preamble, r),
        r is Run,
        !opts.skip_count,
    ensures
        r->Run_0 matches Work::Batch(b) && b@.len() == 2 && (
        b@[0] matches BatchStatement::ScalarI64(Statement::Count { table: counted, filters, tree })
            && (b@[1] matches BatchStatement::Rows(Statement::Select { table: listed, selection })
            && counted == listed && text::views(filters@) == text::views(selection.filters@)
            && same_condition(selection.tree, tree))),
{
}

/// Rows are taken on the path of writes, never on the path of reads: the
/// deletion returns them itself.
pub proof fn taking_is_a_write<F>(
    filters: Vec<Filter>,
    p: Prepared,
    preamble: u8,
    r: Settled<F>,
)
    requires
        settles(Pending::TakeWhere { filters }, p, preamble, r),
        r is Run,
    ensures
        r->Run_0 is ExecuteReturning,
{
}

/// A guarded update answers with what happened: updated, where its write
/// changed rows, and how many; else refused, by a guard that a probe found to
/// refuse; else, where every guard held before and after, that nothing
/// matched. It says each of these wherever the transaction gave what it should.
pub proof fn guarded_updates_answer_with_what_happened<F>(
    guards: int,
    preamble: int,
    results: Seq<TxResult>,
    r: Result<Outcome<F>, DatabaseError>,
)
    requires
        guards >= 0,
        preamble >= 0,
        guarded_updated(guards, preamble, results, r),
    ensures
        r matches Ok(o) ==> (guarded::own_result(results, guards, preamble) matches TxResult::Execute(
            n,
        ) && (o matches Outcome::Updated(u) && match u {
            GuardedUpdate::Updated { rows_affected } => n > 0 && rows_affected == n,
            GuardedUpdate::Refused { guard } => n <= 0 && 0 <= guard < guards && guarded::refuses(
                results,
                guards,
                preamble,
                guard as int,
            ),
            GuardedUpdate::NoMatch => n <= 0 && guarded::none_refuses(results, guards, preamble),
        })),
        guarded::complete(results, guards, preamble) && (guarded::own_result(
            results,
            guards,
            preamble,
        ) is Execute) && (guarded::none_refuses(results, guards, preamble) || exists|k: int|
            #[trigger] guarded::refuses(results, guards, preamble, k)) ==> r is Ok,
{
    let g = choose|g: Result<(TxResult, Option<usize>), DatabaseError>|
        #[trigger] guarded::guarded_says(results, guards, preamble, g) && match g {
            Err(e) => r == Err::<Outcome<F>, DatabaseError>(e),
            Ok(pair) => match r {
                Ok(o) => o matches Outcome::Updated(u) && guarded::update_says(
                    pair.0,
                    pair.1,
                    Ok(u),
                ),
                Err(e) => guarded::update_says(pair.0, pair.1, Err(e)),
            },
        };
    let said: Result<GuardedUpdate, DatabaseError> = match r {
        Ok(Outcome::Updated(u)) => Ok(u),
        Ok(_) => arbitrary(),
        Err(e) => Err(e),
    };
    guarded::a_guarded_update_tells_what_happened(results, guards, preamble, g, said);
}

/// A guarded insert answers with what happened: inserted, with the row that its
/// write returned; else refused, by a guard that a probe found to refuse. Where
/// nothing was written though every guard held, it fails.
pub proof fn guarded_inserts_answer_with_what_happened<F>(
    table: Seq<char>,
    guards: int,
    preamble: int,
    results: Seq<TxResult>,
    r: Result<Outcome<F>, DatabaseError>,
)
    requires
        guards >= 0,
        preamble >= 0,
        guarded_inserted(table, guards, preamble, results, r),
    ensures
        r matches Ok(o) ==> (guarded::own_result(
            results,
            guards,
            preamble,
        ) matches TxResult::Returning(rows) && (o matches Outcome::Inserted(i) && match i {
            GuardedInsert::Inserted(record) => rows@.len() > 0 && record == rows@[0],
            GuardedInsert::Refused { guard } => rows@.len() == 0 && 0 <= guard < guards
                && guarded::refuses(results, guards, preamble, guard as int),
        })),
        guarded::complete(results, guards, preamble) && (guarded::own_result(
            results,
            guards,
            preamble,
        ) is Returning) && (guarded::none_refuses(results, guards, preamble) || exists|k: int|
            #[trigger] guarded::refuses(results, guards, preamble, k)) ==> (r is Ok
            <==> guarded::own_result(results, guards, preamble)->Returning_0@.len() > 0
            || !guarded::none_refuses(results, guards, preamble)),
{
    let g = choose|g: Result<(TxResult, Option<usize>), DatabaseError>|
        #[trigger] guarded::guarded_says(results, guards, preamble, g) && match g {
            Err(e) => r == Err::<Outcome<F>, DatabaseError>(e),
            Ok(pair) => match r {
                Ok(o) => o matches Outcome::Inserted(i) && guarded::insert_says(
                    table,
                    pair.0,
                    pair.1,
                    Ok(i),
                ),
                Err(e) => guarded::insert_says(table, pair.0, pair.1, Err(e)),
            },
        };
    let said: Result<GuardedInsert, DatabaseError> = match r {
        Ok(Outcome::Inserted(i)) => Ok(i),
        Ok(_) => arbitrary(),
        Err(e) => Err(e),
    };
    guarded::a_guarded_insert_tells_what_happened(table, results, guards, preamble, g, said);
}

/// A list runs one select, over its own table: of the rows under its own
/// conditions, with its own columns, in its own order, from its own offset on,
/// no more than its own limit, and with the table's key last in the order. The
/// rows are counted besides unless that is to be skipped.
pub proof fn a_list_selects_what_is_asked<F>(
    opts: ListOptions,
    p: Prepared,
    preamble: u8,
    r: Settled<F>,
    s: Statement,
)
    requires
        p.present,
        settles(Pending::List { opts }, p, preamble, r),
        r is Run,
        match r->Run_0 {
            Work::Fetch(x) => x == s,
            Work::Batch(b) => b@.len() > 0 && b@.last() == BatchStatement::Rows(s),
            _ => false,
        },
    ensures
        s matches Statement::Select { table, selection } && table@ == p.table@ && selection.columns
            == opts.columns && selection.filters == opts.filters && selection.tree
            == opts.filter_tree && selection.sort == opts.sort && selection.limit == opts.limit
            && selection.offset == opts.offset && selection.unique_key == p.key,
        r->Run_0 is Fetch <==> opts.skip_count,
        r->Run_0 is Batch <==> !opts.skip_count,
{
}

/// A page is refused exactly where it has a limit below one, a negative offset,
/// or an offset without a limit; the refusal is the caller's mistake.
pub proof fn only_pages_that_make_no_sense_are_refused<F>(
    opts: ListOptions,
    p: Prepared,
    preamble: u8,
    r: Settled<F>,
)
    requires
        p.present,
        settles(Pending::List { opts }, p, preamble, r),
    ensures
        r is Fail <==> (opts.limit is Some && opts.limit->0 < 1) || opts.offset < 0 || (opts.limit
            is None && opts.offset > 0),
        r matches Settled::Fail(e) ==> e is InvalidArgument,
        !(r is Done),
{
}

/// A created record has the key of its row: its own text, or the digits of the
/// integer that it holds or that the backend gave it, which read back as that.
pub proof fn a_created_record_has_its_key(
    data: Row,
    generated: Option<i64>,
    r: Result<Outcome<Double>, DatabaseError>,
    n: i64,
)
    requires
        reads_as(Reading::Created { data }, Reply::Inserted(generated), r),
        n >= 0,
    ensures
        r is Ok && r->Ok_0 is Record,
        data@.dom().contains("id"@) && data@["id"@] is Str ==> r->Ok_0->Record_0.id@
            == data@["id"@]->Str_0,
        data@.dom().contains("id"@) && data@["id"@] == JsonView::Int(n) ==> text::digits_value(
            r->Ok_0->Record_0.id@,
        ) == n,
        !data@.dom().contains("id"@) && generated == Some(n) ==> text::digits_value(
            r->Ok_0->Record_0.id@,
        ) == n,
        !data@.dom().contains("id"@) && generated is None ==> r->Ok_0->Record_0.id@.len() == 0,
{
    text::decimal_reads_back(n as nat);
}

} // verus!
