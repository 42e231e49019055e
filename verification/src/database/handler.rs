//! Handling a message: a request is authorized, held to its rules, converted
//! and handed to the service, in that order.
//!
//! Every collection and column a request names must be a plain identifier, or
//! the request is refused. A collection's name is checked before the caller is
//! authorized on it, and the statement is built with the very name that was
//! authorized, so a request touches the table it was authorized on.
//!
//! What the host decides (who may do what, how many statements may run) and
//! what the service does come from outside: a [`Step`] says what to ask for,
//! and [`Waiting::resume`] goes on with the answer.

use vstd::prelude::*;

use crate::database::append;
use crate::database::append::{check_append_columns, check_append_rows};
use crate::database::convert;
use crate::database::convert::{
    to_aggregate_spec, to_cap_guards, to_upsert_spec, to_write_op,
};
use crate::database::exec::ops::{Outcome, Request};
use crate::database::exec::rows;
use crate::database::filter;
use crate::database::filter::{convert_filter_tree, convert_filters, convert_sort, FilterNode};
use crate::database::handler_error;
use crate::database::handler_error::db_error_to_wafer;
use crate::database::schema::{Column, Table};
use crate::database::schema_wire;
use crate::database::schema_wire::{column_from_def, table_from_def};
use crate::database::service::{
    CapGuard, DatabaseError, GuardedInsert, GuardedUpdate, ListOptions, Record, RecordList,
    WriteOp, WriteOutcome,
};
use crate::database::wire::{
    AccessedWrite, AggregateRequest, BatchWrite, CapGuardDef, ListRequest, OpAccess, UpsertRequest,
    WireRequest,
};
use crate::error::{invalid, ErrorCode, WaferError};
use crate::handler_util;
use crate::handler_util::{malformed, Body, ResourceAccess};
use crate::ident;
use crate::ident::{check_data_names, check_name, check_names};
use crate::json::{Json, JsonView};
use crate::row::Row;
use crate::text;

verus! {

/// A message, after its bytes have been read.
#[derive(Debug)]
pub struct Incoming {
    /// The operation it asks for.
    pub kind: String,
    /// How that operation is authorized, where it is classified.
    pub access: Option<OpAccess>,
    pub body: Body<WireRequest>,
}

/// The resources of operations that target no collection, how many guards one
/// write may have, and how many writes one call may hold.
#[derive(Debug)]
pub struct Rules {
    /// The resource of raw statements.
    pub raw_sql: String,
    /// The resource of raw statements that change the schema.
    pub ddl: String,
    /// The resource of every change to the schema.
    pub schema: String,
    pub most_guards: usize,
    pub most_writes: usize,
}

/// One thing the caller must be authorized for.
#[derive(Debug)]
pub struct Check {
    pub resource: String,
    pub access: ResourceAccess,
}

/// One call of the service.
#[derive(Debug)]
pub enum ServiceCall {
    Operation(Request),
    Batch(Vec<WriteOp>),
    EnsureTable(Table),
    AddColumn { table_name: String, column: Column },
    DropTable { table_name: String },
    TableExists { table_name: String },
}

/// What to ask for.
#[derive(Debug)]
pub enum Ask {
    /// Is the caller authorized for all of these? Asked in order.
    Authorize(Vec<Check>),
    /// May so many statements run?
    AdmitStatements { count: usize, what: String },
    /// May the caller write to the collection, rather than append only?
    MayWrite { collection: String },
    /// Which columns has the collection?
    SchemaColumns { collection: String },
    Call(ServiceCall),
}

/// What was answered; `F` stands for a real number.
#[derive(Debug)]
pub enum Told<F> {
    /// The error of the first check that failed, if one did.
    Authorized(Result<(), WaferError>),
    Admitted(Result<(), DatabaseError>),
    MayWrite(bool),
    Columns(Result<Vec<String>, DatabaseError>),
    Served(Result<Served<F>, DatabaseError>),
}

/// What the service did.
#[derive(Debug)]
pub enum Served<F> {
    Operation(Outcome<F>),
    Batch(Vec<WriteOutcome>),
    /// A change to the schema was made.
    Changed,
    Exists(bool),
}

/// What a message is answered with.
#[derive(Debug)]
pub enum Response<F> {
    Record(Record),
    List(RecordList),
    Records(Vec<Record>),
    RowsAffected(i64),
    Count(i64),
    /// `None` is zero.
    Sum(Option<F>),
    Inserted(GuardedInsert),
    Updated(GuardedUpdate),
    Batch(Vec<WriteOutcome>),
    Table { table_name: String },
    TableExists { table_name: String, exists: bool },
    Empty,
}

/// Which of them the service's reply is turned into.
#[derive(Debug)]
pub enum Form {
    Record,
    List,
    Records,
    RowsAffected,
    Count,
    Sum,
    Inserted,
    Updated,
    Batch,
    Table { table_name: String },
    TableExists { table_name: String },
    Empty,
}

/// An insert whose caller may be limited to appending.
#[derive(Debug)]
pub enum Insert {
    Create { collection: String, data: Row },
    CreateMany { collection: String, rows: Vec<Row> },
    Guarded { collection: String, data: Row, guards: Vec<CapGuard> },
}

/// What is waited for.
#[derive(Debug)]
pub enum Waiting {
    /// The caller's authorization.
    Authorizing(WireRequest),
    /// The caller's authorization to change the schema.
    SchemaAuthorizing(WireRequest),
    /// Whether the rows of an insert may run as so many statements.
    AdmittingRows { collection: String, rows: Vec<Row> },
    /// Whether the writes of a batch may run as so many statements.
    AdmittingBatch { ops: Vec<AccessedWrite> },
    /// Whether the caller of an insert may write.
    Inserting(Insert),
    /// The columns of the collection that an append-only insert targets.
    Appending(Insert),
    /// Whether the caller of a batch may write where its write at `next`
    /// creates; `append_only` are the collections to which it may only append.
    BatchInserting { ops: Vec<AccessedWrite>, append_only: Vec<String>, next: usize },
    /// The columns of the collection at `next` of `append_only`.
    BatchAppending { ops: Vec<AccessedWrite>, append_only: Vec<String>, next: usize },
    /// The service's reply.
    Serving(Form),
}

/// What comes next; `F` stands for a real number.
#[derive(Debug)]
pub enum Step<F> {
    Ask(Ask, Waiting),
    Respond(Response<F>),
    Refuse(WaferError),
}

// ---------------------------------------------------------------------------
// Authorization
// ---------------------------------------------------------------------------

/// What a check asks for, as mathematics.
pub open spec fn check_pairs(checks: Seq<Check>) -> Seq<(Seq<char>, ResourceAccess)> {
    checks.map_values(|c: Check| (c.resource@, c.access))
}

/// Each of the accesses, on one resource.
pub open spec fn pairs_on(
    resource: Seq<char>,
    accesses: Seq<ResourceAccess>,
) -> Seq<(Seq<char>, ResourceAccess)> {
    accesses.map_values(|a: ResourceAccess| (resource, a))
}

/// What is said of an operation that is not classified for one resource.
pub open spec fn unclassified(op: Seq<char>) -> Seq<char> {
    "BUG: DATABASE_OP_ACCESS names no single-resource access for `"@ + op + "`"@
}

/// The checks that operation `op` needs on `resource`.
pub open spec fn needs_checks(
    op: Seq<char>,
    resource: Seq<char>,
    access: Option<OpAccess>,
    r: Result<Vec<Check>, WaferError>,
) -> bool {
    if !ident::plain(resource) {
        r matches Err(e) && ident::refuses_name(e, resource)
    } else {
        match access {
            Some(OpAccess::On(accesses)) => r matches Ok(checks) && check_pairs(checks@)
                == pairs_on(resource, accesses@),
            _ => r matches Err(e) && e.says(ErrorCode::Internal, unclassified(op)),
        }
    }
}

/// The checks that operation `op` needs on `resource`, as it is classified. A
/// name that is not a plain identifier is refused before any check is listed,
/// and so is an operation that is not classified for one resource.
pub fn op_checks(op: &str, resource: &str, access: &Option<OpAccess>) -> (r: Result<
    Vec<Check>,
    WaferError,
>)
    ensures
        needs_checks(op@, resource@, *access, r),
{
    if let Err(e) = check_name(resource) {
        return Err(e);
    }
    match access {
        Some(OpAccess::On(accesses)) => {
            let mut checks: Vec<Check> = Vec::new();
            for i in 0..accesses.len()
                invariant
                    checks@.len() == i,
                    forall|k: int|
                        0 <= k < i ==> (#[trigger] checks@[k]).resource@ == resource@
                            && checks@[k].access == accesses@[k],
            {
                checks.push(Check { resource: resource.to_owned(), access: accesses[i] });
            }
            proof {
                assert(check_pairs(checks@) =~= pairs_on(resource@, accesses@));
            }
            Ok(checks)
        },
        _ => Err(
            WaferError::new(
                ErrorCode::Internal,
                text::join3(
                    "BUG: DATABASE_OP_ACCESS names no single-resource access for `",
                    op,
                    "`",
                ),
            ),
        ),
    }
}

/// What the writes of a batch ask for, each once, in the order of the writes.
pub open spec fn batch_pairs(ops: Seq<AccessedWrite>) -> Seq<(Seq<char>, ResourceAccess)>
    decreases ops.len(),
{
    if ops.len() == 0 {
        Seq::empty()
    } else {
        let before = batch_pairs(ops.drop_last());
        let pair = (ops.last().write.target(), ops.last().access);
        if before.contains(pair) {
            before
        } else {
            before.push(pair)
        }
    }
}

/// The collections that the writes of a batch target, in order.
pub open spec fn batch_targets(ops: Seq<AccessedWrite>) -> Seq<Seq<char>> {
    ops.map_values(|o: AccessedWrite| o.write.target())
}

/// What is said where a batch is not classified write by write.
pub open spec fn batch_unclassified() -> Seq<char> {
    "BUG: DATABASE_OP_ACCESS does not classify database.batch per write"@
}

/// The checks that a batch needs.
pub open spec fn needs_batch_checks(
    ops: Seq<AccessedWrite>,
    access: Option<OpAccess>,
    r: Result<Vec<Check>, WaferError>,
) -> bool {
    if access != Some(OpAccess::PerWrite) {
        r matches Err(e) && e.says(ErrorCode::Internal, batch_unclassified())
    } else {
        match rows::first_bad_name(batch_targets(ops)) {
            Some(bad) => r matches Err(e) && ident::refuses_name(e, bad),
            None => r matches Ok(checks) && check_pairs(checks@) == batch_pairs(ops),
        }
    }
}

fn has_check(checks: &Vec<Check>, resource: &str, access: ResourceAccess) -> (r: bool)
    ensures
        r == check_pairs(checks@).contains((resource@, access)),
{
    for i in 0..checks.len()
        invariant
            forall|k: int| 0 <= k < i ==> #[trigger] check_pairs(checks@)[k] != (resource@, access),
    {
        if text::same(checks[i].resource.as_str(), resource) && checks[i].access == access {
            proof {
                assert(check_pairs(checks@)[i as int] == (resource@, access));
            }
            return true;
        }
    }
    false
}

proof fn lemma_bad_name_stops(names: Seq<Seq<char>>, n: int)
    requires
        0 <= n <= names.len(),
        rows::first_bad_name(names.take(n)) is Some,
    ensures
        rows::first_bad_name(names) == rows::first_bad_name(names.take(n)),
    decreases names.len() - n,
{
    if n == names.len() {
        assert(names.take(n) =~= names);
    } else {
        assert(names.take(n + 1).drop_last() =~= names.take(n));
        lemma_bad_name_stops(names, n + 1);
    }
}

fn batch_checks(ops: &Vec<AccessedWrite>, access: &Option<OpAccess>) -> (r: Result<
    Vec<Check>,
    WaferError,
>)
    ensures
        needs_batch_checks(ops@, *access, r),
{
    let per_write = match access {
        Some(OpAccess::PerWrite) => true,
        _ => false,
    };
    if !per_write {
        return Err(
            WaferError::new(
                ErrorCode::Internal,
                "BUG: DATABASE_OP_ACCESS does not classify database.batch per write".to_owned(),
            ),
        );
    }
    let mut checks: Vec<Check> = Vec::new();
    let ghost targets = batch_targets(ops@);
    proof {
        assert(ops@.take(0) =~= Seq::empty());
        assert(targets.take(0) =~= Seq::empty());
        assert(check_pairs(checks@) =~= Seq::empty());
    }
    for i in 0..ops.len()
        invariant
            targets == batch_targets(ops@),
            *access == Some(OpAccess::PerWrite),
            rows::first_bad_name(targets.take(i as int)) is None,
            check_pairs(checks@) == batch_pairs(ops@.take(i as int)),
    {
        proof {
            assert(ops@.take(i + 1).drop_last() =~= ops@.take(i as int));
            assert(targets.take(i + 1).drop_last() =~= targets.take(i as int));
            assert(targets.take(i + 1).last() == ops@[i as int].write.target());
            if rows::first_bad_name(targets.take(i + 1)) is Some {
                lemma_bad_name_stops(targets, i + 1);
            }
        }
        let resource = ops[i].write.collection();
        let wanted = ops[i].access;
        if let Err(e) = check_name(resource) {
            return Err(e);
        }
        if !has_check(&checks, resource, wanted) {
            let ghost before = check_pairs(checks@);
            checks.push(Check { resource: resource.to_owned(), access: wanted });
            proof {
                assert(check_pairs(checks@) =~= before.push((resource@, wanted)));
            }
        }
    }
    proof {
        assert(ops@.take(ops@.len() as int) =~= ops@);
        assert(targets.take(targets.len() as int) =~= targets);
    }
    Ok(checks)
}

/// The resource that a request targets.
pub open spec fn resource_of(request: WireRequest, rules: Rules) -> Seq<char> {
    match request {
        WireRequest::Get { collection, .. } => collection@,
        WireRequest::List(list) => list.collection@,
        WireRequest::Create { collection, .. } => collection@,
        WireRequest::CreateMany { collection, .. } => collection@,
        WireRequest::Batch { .. } => ""@,
        WireRequest::InsertGuarded { collection, .. } => collection@,
        WireRequest::UpdateGuarded { collection, .. } => collection@,
        WireRequest::Update { collection, .. } => collection@,
        WireRequest::Delete { collection, .. } => collection@,
        WireRequest::Count { collection, .. } => collection@,
        WireRequest::QueryRaw { .. } => rules.raw_sql@,
        WireRequest::Sum { collection, .. } => collection@,
        WireRequest::ExecRaw { .. } => rules.raw_sql@,
        WireRequest::Ddl { .. } => rules.ddl@,
        WireRequest::DeleteWhere { collection, .. } => collection@,
        WireRequest::DeleteWhereCount { collection, .. } => collection@,
        WireRequest::TakeWhere { collection, .. } => collection@,
        WireRequest::UpdateWhere { collection, .. } => collection@,
        WireRequest::UpdateWhereCount { collection, .. } => collection@,
        WireRequest::IncrementFieldWhere { collection, .. } => collection@,
        WireRequest::Upsert(request) => request.collection@,
        WireRequest::Aggregate(request) => request.collection@,
        WireRequest::EnsureTable { table } => table.name@,
        WireRequest::AddColumn { table_name, .. } => table_name@,
        WireRequest::DropTable { table_name } => table_name@,
        WireRequest::TableExists { table_name } => table_name@,
    }
}

fn resource_name<'a>(request: &'a WireRequest, rules: &'a Rules) -> (r: &'a str)
    ensures
        r@ == resource_of(*request, *rules),
{
    match request {
        WireRequest::Get { collection, .. } => collection.as_str(),
        WireRequest::List(list) => list.collection.as_str(),
        WireRequest::Create { collection, .. } => collection.as_str(),
        WireRequest::CreateMany { collection, .. } => collection.as_str(),
        WireRequest::Batch { .. } => "",
        WireRequest::InsertGuarded { collection, .. } => collection.as_str(),
        WireRequest::UpdateGuarded { collection, .. } => collection.as_str(),
        WireRequest::Update { collection, .. } => collection.as_str(),
        WireRequest::Delete { collection, .. } => collection.as_str(),
        WireRequest::Count { collection, .. } => collection.as_str(),
        WireRequest::QueryRaw { .. } => rules.raw_sql.as_str(),
        WireRequest::Sum { collection, .. } => collection.as_str(),
        WireRequest::ExecRaw { .. } => rules.raw_sql.as_str(),
        WireRequest::Ddl { .. } => rules.ddl.as_str(),
        WireRequest::DeleteWhere { collection, .. } => collection.as_str(),
        WireRequest::DeleteWhereCount { collection, .. } => collection.as_str(),
        WireRequest::TakeWhere { collection, .. } => collection.as_str(),
        WireRequest::UpdateWhere { collection, .. } => collection.as_str(),
        WireRequest::UpdateWhereCount { collection, .. } => collection.as_str(),
        WireRequest::IncrementFieldWhere { collection, .. } => collection.as_str(),
        WireRequest::Upsert(request) => request.collection.as_str(),
        WireRequest::Aggregate(request) => request.collection.as_str(),
        WireRequest::EnsureTable { table } => table.name.as_str(),
        WireRequest::AddColumn { table_name, .. } => table_name.as_str(),
        WireRequest::DropTable { table_name } => table_name.as_str(),
        WireRequest::TableExists { table_name } => table_name.as_str(),
    }
}

/// How a message starts: its request is to be authorized, or it is refused.
pub open spec fn handling_starts<F>(message: Incoming, rules: Rules, step: Step<F>) -> bool {
    match message.body {
        Body::Unknown => step matches Step::Refuse(e) && e.says(
            ErrorCode::Unimplemented,
            "unknown database operation: "@ + message.kind@,
        ),
        Body::Malformed { op, why } => step matches Step::Refuse(e)
            && handler_util::refuses_malformed(e, op@, why@),
        Body::Request(request) => {
            let checked = match step {
                Step::Ask(Ask::Authorize(checks), w) => Ok(checks),
                Step::Refuse(e) => Err(e),
                _ => Err(arbitrary()),
            };
            &&& step is Ask ==> step->Ask_0 is Authorize && step->Ask_1
                == Waiting::Authorizing(request)
            &&& !(step is Respond)
            &&& match request {
                WireRequest::Batch { ops } => needs_batch_checks(
                    ops@,
                    message.access,
                    checked,
                ),
                _ => needs_checks(
                    message.kind@,
                    resource_of(request, rules),
                    message.access,
                    checked,
                ),
            }
        },
    }
}

/// Starts to handle a message.
pub fn handle_message<F>(message: Incoming, rules: &Rules) -> (r: Step<F>)
    ensures
        handling_starts(message, *rules, r),
{
    let kind = message.kind;
    match message.body {
        Body::Unknown => Step::Refuse(
            WaferError::new(
                ErrorCode::Unimplemented,
                text::join2("unknown database operation: ", kind.as_str()),
            ),
        ),
        Body::Malformed { op, why } => Step::Refuse(malformed(op.as_str(), why.as_str())),
        Body::Request(request) => {
            let checked = match &request {
                WireRequest::Batch { ops } => batch_checks(ops, &message.access),
                _ => op_checks(kind.as_str(), resource_name(&request, rules), &message.access),
            };
            match checked {
                Ok(checks) => Step::Ask(Ask::Authorize(checks), Waiting::Authorizing(request)),
                Err(e) => Step::Refuse(e),
            }
        },
    }
}

// ---------------------------------------------------------------------------
// Inserts
// ---------------------------------------------------------------------------

impl Insert {
    /// The collection this insert targets.
    pub open spec fn target(self) -> Seq<char> {
        match self {
            Insert::Create { collection, .. } => collection@,
            Insert::CreateMany { collection, .. } => collection@,
            Insert::Guarded { collection, .. } => collection@,
        }
    }

    /// The rows it inserts.
    pub open spec fn rows(self) -> Seq<Row> {
        match self {
            Insert::Create { data, .. } => seq![data],
            Insert::CreateMany { rows, .. } => rows@,
            Insert::Guarded { data, .. } => seq![data],
        }
    }

    /// The call that makes it.
    pub open spec fn request(self) -> Request {
        match self {
            Insert::Create { collection, data } => Request::Create { collection, data },
            Insert::CreateMany { collection, rows } => Request::CreateMany { collection, rows },
            Insert::Guarded { collection, data, guards } => Request::InsertGuarded {
                collection,
                data,
                guards,
            },
        }
    }

    /// What it is answered with.
    pub open spec fn form(self) -> Form {
        match self {
            Insert::Create { .. } => Form::Record,
            Insert::CreateMany { .. } => Form::RowsAffected,
            Insert::Guarded { .. } => Form::Inserted,
        }
    }

    fn collection(&self) -> (r: &str)
        ensures
            r@ == self.target(),
    {
        match self {
            Insert::Create { collection, .. } => collection.as_str(),
            Insert::CreateMany { collection, .. } => collection.as_str(),
            Insert::Guarded { collection, .. } => collection.as_str(),
        }
    }

    fn row_list(&self) -> (r: Vec<&Row>)
        ensures
            append::owned(r@) == self.rows(),
    {
        let mut out: Vec<&Row> = Vec::new();
        match self {
            Insert::Create { data, .. } => {
                out.push(data);
            },
            Insert::CreateMany { rows, .. } => {
                for i in 0..rows.len()
                    invariant
                        out@.len() == i,
                        forall|k: int| 0 <= k < i ==> *(#[trigger] out@[k]) == rows@[k],
                {
                    out.push(&rows[i]);
                }
            },
            Insert::Guarded { data, .. } => {
                out.push(data);
            },
        }
        proof {
            assert(append::owned(out@) =~= self.rows());
        }
        out
    }

    fn call<F>(self) -> (r: Step<F>)
        ensures
            calls(r, ServiceCall::Operation(self.request()), self.form()),
    {
        match self {
            Insert::Create { collection, data } => Step::Ask(
                Ask::Call(ServiceCall::Operation(Request::Create { collection, data })),
                Waiting::Serving(Form::Record),
            ),
            Insert::CreateMany { collection, rows } => Step::Ask(
                Ask::Call(ServiceCall::Operation(Request::CreateMany { collection, rows })),
                Waiting::Serving(Form::RowsAffected),
            ),
            Insert::Guarded { collection, data, guards } => Step::Ask(
                Ask::Call(
                    ServiceCall::Operation(Request::InsertGuarded { collection, data, guards }),
                ),
                Waiting::Serving(Form::Inserted),
            ),
        }
    }
}

/// The service is called.
pub open spec fn calls<F>(step: Step<F>, call: ServiceCall, form: Form) -> bool {
    step == Step::<F>::Ask(Ask::Call(call), Waiting::Serving(form))
}

/// The request is refused as an argument that is not allowed.
pub open spec fn refuses<F>(step: Step<F>, message: Seq<char>) -> bool {
    step matches Step::Refuse(e) && e.says(ErrorCode::InvalidArgument, message)
}

/// The row of the request is refused.
pub open spec fn refuses_row<F>(step: Step<F>, data: Row) -> bool {
    step matches Step::Refuse(e) && convert::refuses_data(e, data)
}

/// The request is refused with the answer to a database error.
pub open spec fn answers_error<F>(step: Step<F>, e: DatabaseError) -> bool {
    step matches Step::Refuse(w) && handler_error::answers(e, w)
}

/// It is asked whether the caller of an insert may write.
pub open spec fn asks_write<F>(insert: Insert, step: Step<F>) -> bool {
    step matches Step::Ask(Ask::MayWrite { collection }, w) && collection@ == insert.target() && w
        == Waiting::Inserting(insert)
}

fn ask_write<F>(insert: Insert) -> (r: Step<F>)
    ensures
        asks_write(insert, r),
{
    Step::Ask(
        Ask::MayWrite { collection: insert.collection().to_owned() },
        Waiting::Inserting(insert),
    )
}

/// An insert goes on once it is known whether its caller may write: it is made,
/// or its rows must be appendable and its columns are asked for.
pub open spec fn insert_goes_on<F>(insert: Insert, may_write: bool, step: Step<F>) -> bool {
    if may_write {
        calls(step, ServiceCall::Operation(insert.request()), insert.form())
    } else if append::all_appendable(insert.rows()) {
        step matches Step::Ask(Ask::SchemaColumns { collection }, w) && collection@
            == insert.target() && w == Waiting::Appending(insert)
    } else {
        step matches Step::Refuse(e) && append::refuses_rows(e, insert.target(), insert.rows())
    }
}

fn go_on_insert<F>(insert: Insert, may_write: bool) -> (r: Step<F>)
    ensures
        insert_goes_on(insert, may_write, r),
{
    if may_write {
        return insert.call();
    }
    if let Err(e) = check_append_rows(insert.collection(), &insert.row_list()) {
        return Step::Refuse(e);
    }
    Step::Ask(
        Ask::SchemaColumns { collection: insert.collection().to_owned() },
        Waiting::Appending(insert),
    )
}

/// An append-only insert goes on once the columns of its collection are known.
pub open spec fn append_goes_on<F>(insert: Insert, existing: Vec<String>, step: Step<F>) -> bool {
    if append::has_all_columns(text::views(existing@), insert.rows()) {
        calls(step, ServiceCall::Operation(insert.request()), insert.form())
    } else {
        step matches Step::Refuse(e) && append::refuses_columns(
            e,
            insert.target(),
            text::views(existing@),
            insert.rows(),
        )
    }
}

fn go_on_append<F>(insert: Insert, existing: &Vec<String>) -> (r: Step<F>)
    ensures
        append_goes_on(insert, *existing, r),
{
    if let Err(e) = check_append_columns(insert.collection(), existing, &insert.row_list()) {
        return Step::Refuse(e);
    }
    insert.call()
}

/// The refusal of rows of which one names a column that is not plain: the
/// first such row's.
pub open spec fn refuses_some_row(e: WaferError, rows: Seq<Row>) -> bool {
    exists|i: int|
        #![trigger rows[i]]
        0 <= i < rows.len() && convert::refuses_data(e, rows[i]) && forall|j: int|
            0 <= j < i ==> ident::row_plain(#[trigger] rows[j])
}

/// Every row names plain columns only.
pub open spec fn all_rows_plain(rows: Seq<Row>) -> bool {
    forall|i: int| 0 <= i < rows.len() ==> ident::row_plain(#[trigger] rows[i])
}

fn check_rows(rows: &Vec<Row>) -> (r: Result<(), WaferError>)
    ensures
        match r {
            Ok(()) => all_rows_plain(rows@),
            Err(e) => !all_rows_plain(rows@) && refuses_some_row(e, rows@),
        },
{
    for i in 0..rows.len()
        invariant
            forall|k: int| 0 <= k < i ==> ident::row_plain(#[trigger] rows@[k]),
    {
        if let Err(e) = check_data_names(&rows[i]) {
            proof {
                assert(convert::refuses_data(e, rows@[i as int]));
                assert(!ident::row_plain(rows@[i as int]));
            }
            return Err(e);
        }
    }
    Ok(())
}

// ---------------------------------------------------------------------------
// Batches
// ---------------------------------------------------------------------------

/// The first write, from `from` on, that creates where it is not yet known
/// that the caller may only append.
pub open spec fn next_create(
    ops: Seq<AccessedWrite>,
    append_only: Seq<Seq<char>>,
    from: int,
) -> Option<int>
    decreases ops.len() - from,
{
    if from < 0 || from >= ops.len() {
        None
    } else if ops[from].write is Create && !append_only.contains(ops[from].write.target()) {
        Some(from)
    } else {
        next_create(ops, append_only, from + 1)
    }
}

/// The rows that the writes of a batch create in a collection, in order.
pub open spec fn created_rows(ops: Seq<AccessedWrite>, collection: Seq<char>) -> Seq<Row>
    decreases ops.len(),
{
    if ops.len() == 0 {
        Seq::empty()
    } else {
        let before = created_rows(ops.drop_last(), collection);
        match ops.last().write {
            BatchWrite::Create { collection: c, data } => if c@ == collection {
                before.push(data)
            } else {
                before
            },
            _ => before,
        }
    }
}

/// Some write of the batch is refused: the first that is, with its error.
pub open spec fn refuses_some_write(e: WaferError, ops: Seq<AccessedWrite>) -> bool {
    exists|i: int|
        #![trigger ops[i]]
        0 <= i < ops.len() && convert::write_converts(ops[i].write, Err(e)) && forall|j: int|
            0 <= j < i ==> convert::write_sound((#[trigger] ops[j]).write)
}

/// The writes of a batch in the service's form, one by one.
pub open spec fn writes_convert(ops: Seq<AccessedWrite>, writes: Seq<WriteOp>) -> bool {
    &&& writes.len() == ops.len()
    &&& forall|i: int|
        0 <= i < ops.len() ==> convert::write_converts(
            (#[trigger] ops[i]).write,
            Ok(writes[i]),
        )
}

/// The writes of a batch are converted and handed to the service.
pub open spec fn batch_converts<F>(ops: Seq<AccessedWrite>, step: Step<F>) -> bool {
    match step {
        Step::Ask(Ask::Call(ServiceCall::Batch(writes)), w) => w == Waiting::Serving(Form::Batch)
            && writes_convert(ops, writes@),
        Step::Refuse(e) => refuses_some_write(e, ops),
        _ => false,
    }
}

fn convert_batch<F>(ops: Vec<AccessedWrite>) -> (r: Step<F>)
    ensures
        batch_converts(ops@, r),
{
    let ghost all = ops@;
    let mut writes: Vec<WriteOp> = Vec::new();
    for op in it: ops
        invariant
            it.seq() == all,
            ops@ == all,
            writes@.len() == it.index(),
            forall|k: int|
                0 <= k < it.index() ==> convert::write_converts(
                    (#[trigger] all[k]).write,
                    Ok(writes@[k]),
                ),
            forall|k: int| 0 <= k < it.index() ==> convert::write_sound((#[trigger] all[k]).write),
    {
        proof {
            assert(all[it.index()] == op);
        }
        match to_write_op(op.write) {
            Ok(w) => {
                proof {
                    convert::lemma_sound(op.write, Ok(w));
                }
                writes.push(w);
            },
            Err(e) => {
                proof {
                    assert(convert::write_converts(all[it.index()].write, Err(e)));
                }
                return Step::Refuse(e);
            },
        }
    }
    Step::Ask(Ask::Call(ServiceCall::Batch(writes)), Waiting::Serving(Form::Batch))
}

/// The collections from `next` on are held to the rules of appending, one
/// after the other; then the batch is converted.
pub open spec fn batch_appends<F>(
    ops: Vec<AccessedWrite>,
    append_only: Seq<Seq<char>>,
    next: int,
    step: Step<F>,
) -> bool {
    if next >= append_only.len() {
        batch_converts(ops@, step)
    } else {
        let collection = append_only[next];
        let created = created_rows(ops@, collection);
        if append::all_appendable(created) {
            &&& step matches Step::Ask(Ask::SchemaColumns { collection: c }, w)
            &&& c@ == collection
            &&& w matches Waiting::BatchAppending { ops: o, append_only: a, next: k }
            &&& o == ops
            &&& text::views(a@) == append_only
            &&& k == next
        } else {
            step matches Step::Refuse(e) && append::refuses_rows(e, collection, created)
        }
    }
}

fn list_created<'a>(ops: &'a Vec<AccessedWrite>, collection: &str) -> (r: Vec<&'a Row>)
    ensures
        append::owned(r@) == created_rows(ops@, collection@),
{
    let mut out: Vec<&'a Row> = Vec::new();
    proof {
        assert(ops@.take(0) =~= Seq::empty());
        assert(append::owned(out@) =~= Seq::empty());
    }
    for i in 0..ops.len()
        invariant
            append::owned(out@) == created_rows(ops@.take(i as int), collection@),
    {
        proof {
            assert(ops@.take(i + 1).drop_last() =~= ops@.take(i as int));
            assert(ops@.take(i + 1).last() == ops@[i as int]);
        }
        if let BatchWrite::Create { collection: c, data } = &ops[i].write {
            if text::same(c.as_str(), collection) {
                let ghost before = append::owned(out@);
                out.push(data);
                proof {
                    assert(append::owned(out@) =~= before.push(*data));
                }
            }
        }
    }
    proof {
        assert(ops@.take(ops@.len() as int) =~= ops@);
    }
    out
}

fn append_batch<F>(ops: Vec<AccessedWrite>, append_only: Vec<String>, next: usize) -> (r: Step<F>)
    ensures
        batch_appends(ops, text::views(append_only@), next as int, r),
{
    if next >= append_only.len() {
        return convert_batch(ops);
    }
    let collection: String = append_only[next].clone();
    if let Err(e) = check_append_rows(
        collection.as_str(),
        &list_created(&ops, collection.as_str()),
    ) {
        return Step::Refuse(e);
    }
    Step::Ask(
        Ask::SchemaColumns { collection },
        Waiting::BatchAppending { ops, append_only, next },
    )
}

/// It is asked, from the write at `from` on, where the caller of a batch may
/// only append.
pub open spec fn batch_inserts<F>(
    ops: Vec<AccessedWrite>,
    append_only: Seq<Seq<char>>,
    from: int,
    step: Step<F>,
) -> bool {
    match next_create(ops@, append_only, from) {
        Some(i) => {
            &&& step matches Step::Ask(Ask::MayWrite { collection: c }, w)
            &&& c@ == ops@[i].write.target()
            &&& w matches Waiting::BatchInserting { ops: o, append_only: a, next: k }
            &&& o == ops
            &&& text::views(a@) == append_only
            &&& k == i
        },
        None => batch_appends(ops, append_only, 0, step),
    }
}

fn lists_name(names: &Vec<String>, name: &str) -> (r: bool)
    ensures
        r == text::views(names@).contains(name@),
{
    for i in 0..names.len()
        invariant
            forall|k: int| 0 <= k < i ==> #[trigger] text::views(names@)[k] != name@,
    {
        if text::same(names[i].as_str(), name) {
            proof {
                assert(text::views(names@)[i as int] == name@);
            }
            return true;
        }
    }
    false
}

fn insert_batch<F>(ops: Vec<AccessedWrite>, append_only: Vec<String>, from: usize) -> (r: Step<F>)
    ensures
        batch_inserts(ops, text::views(append_only@), from as int, r),
{
    let ghost known = text::views(append_only@);
    let mut i: usize = from;
    while i < ops.len()
        invariant
            known == text::views(append_only@),
            from <= i,
            next_create(ops@, known, from as int) == next_create(ops@, known, i as int),
        decreases ops@.len() - i,
    {
        let creates = match &ops[i].write {
            BatchWrite::Create { .. } => true,
            _ => false,
        };
        if creates && !lists_name(&append_only, ops[i].write.collection()) {
            return Step::Ask(
                Ask::MayWrite { collection: ops[i].write.collection().to_owned() },
                Waiting::BatchInserting { ops, append_only, next: i },
            );
        }
        i += 1;
    }
    append_batch(ops, append_only, 0)
}

/// What it leads to that the caller of a batch may write, or may not, where
/// its write at `next` creates.
pub open spec fn batch_insert_goes_on<F>(
    ops: Vec<AccessedWrite>,
    append_only: Seq<Seq<char>>,
    next: int,
    may_write: bool,
    step: Step<F>,
) -> bool {
    let known = if may_write || next >= ops@.len() {
        append_only
    } else {
        append_only.push(ops@[next].write.target())
    };
    batch_inserts(ops, known, next + 1, step)
}

/// What the columns of the collection at `next` lead to.
pub open spec fn batch_append_goes_on<F>(
    ops: Vec<AccessedWrite>,
    append_only: Seq<Seq<char>>,
    next: int,
    existing: Seq<Seq<char>>,
    step: Step<F>,
) -> bool {
    if next >= append_only.len() {
        batch_converts(ops@, step)
    } else {
        let created = created_rows(ops@, append_only[next]);
        if append::has_all_columns(existing, created) {
            batch_appends(ops, append_only, next + 1, step)
        } else {
            step matches Step::Refuse(e) && append::refuses_columns(
                e,
                append_only[next],
                existing,
                created,
            )
        }
    }
}

// ---------------------------------------------------------------------------
// Authorized requests
// ---------------------------------------------------------------------------

/// A request of which the filters, then the row, are held to their rules;
/// `call` is the service's call for the filters.
pub open spec fn filtered<F>(
    filters: Seq<FilterNode>,
    data: Option<Row>,
    step: Step<F>,
    called: bool,
) -> bool {
    match filter::filters_refusal(filters) {
        Some(m) => refuses(step, m),
        None => if data is Some && !ident::row_plain(data->0) {
            refuses_row(step, data->0)
        } else {
            called
        },
    }
}

/// A request of which the filters, then one column, are held to their rules.
pub open spec fn filtered_on<F>(
    filters: Seq<FilterNode>,
    column: Seq<char>,
    step: Step<F>,
    called: bool,
) -> bool {
    match filter::filters_refusal(filters) {
        Some(m) => refuses(step, m),
        None => if !ident::plain(column) {
            refuses(step, ident::name_refusal(column))
        } else {
            called
        },
    }
}

/// The operation the step calls the service for.
pub open spec fn called_operation<F>(step: Step<F>) -> Request
    recommends
        step is Ask,
{
    step->Ask_0->Call_0->Operation_0
}

/// The service is called for an operation.
pub open spec fn calls_operation<F>(step: Step<F>, form: Form) -> bool {
    step is Ask && step->Ask_0 is Call && step->Ask_0->Call_0 is Operation && step->Ask_1
        == Waiting::Serving(form)
}

/// `guards` are the guards `defs` in the service's form, one by one.
pub open spec fn guards_convert(defs: Seq<CapGuardDef>, guards: Seq<CapGuard>) -> bool {
    guards.len() == defs.len() && forall|i: int|
        0 <= i < defs.len() ==> convert::guard_converts(#[trigger] defs[i], guards[i])
}

/// A list: its filters, its sort keys and its columns are held to their rules,
/// in that order. All its filters, groups or not, stand in the tree.
pub open spec fn list_handled<F>(list: ListRequest, step: Step<F>) -> bool {
    let walked = filter::walk(list.filters@, 1, 0);
    if walked is Err {
        refuses(step, walked->Err_0)
    } else if filter::sort_refusal(list.sort@) is Some {
        refuses(step, filter::sort_refusal(list.sort@)->0)
    } else if list.columns is Some && list.columns->0@.len() == 0 {
        refuses(step, "columns must be non-empty when specified"@)
    } else if list.columns is Some && convert::names_refusal(text::views(list.columns->0@)) is Some {
        refuses(step, convert::names_refusal(text::views(list.columns->0@))->0)
    } else {
        &&& calls_operation(step, Form::List)
        &&& called_operation(step) matches Request::List { collection, opts }
        &&& collection == list.collection
        &&& opts.filters@.len() == 0
        &&& opts.filter_tree is Some
        &&& filter::all_convert(list.filters@, opts.filter_tree->0@)
        &&& filter::sorts_by(list.sort@, opts.sort@)
        &&& opts.limit == list.limit
        &&& opts.offset == list.offset
        &&& opts.skip_count == list.skip_count
        &&& opts.columns == list.columns
    }
}

fn handle_list<F>(list: ListRequest) -> (r: Step<F>)
    ensures
        handled(WireRequest::List(list), r),
{
    proof {
        reveal(handled);
    }
    let tree = match convert_filter_tree(list.filters) {
        Ok(t) => t,
        Err(e) => {
            return Step::Refuse(e);
        },
    };
    let sort = match convert_sort(list.sort) {
        Ok(s) => s,
        Err(e) => {
            return Step::Refuse(e);
        },
    };
    if let Some(columns) = &list.columns {
        if columns.len() == 0 {
            return Step::Refuse(invalid("columns must be non-empty when specified".to_owned()));
        }
        if let Err(e) = check_names(columns) {
            return Step::Refuse(e);
        }
    }
    let opts = ListOptions {
        filters: Vec::new(),
        filter_tree: Some(tree),
        sort,
        limit: list.limit,
        offset: list.offset,
        skip_count: list.skip_count,
        columns: list.columns,
    };
    Step::Ask(
        Ask::Call(ServiceCall::Operation(Request::List { collection: list.collection, opts })),
        Waiting::Serving(Form::List),
    )
}

/// It is asked whether the caller may change the schema, besides what the
/// operation itself asked for.
pub open spec fn asks_schema<F>(request: WireRequest, rules: Rules, step: Step<F>) -> bool {
    step matches Step::Ask(Ask::Authorize(checks), w) && check_pairs(checks@) == seq![
        (rules.schema@, ResourceAccess::Write),
    ] && w == Waiting::SchemaAuthorizing(request)
}

fn ask_schema<F>(request: WireRequest, rules: &Rules) -> (r: Step<F>)
    ensures
        asks_schema(request, *rules, r),
{
    let mut checks: Vec<Check> = Vec::new();
    checks.push(Check { resource: rules.schema.clone(), access: ResourceAccess::Write });
    proof {
        assert(check_pairs(checks@) =~= seq![(rules.schema@, ResourceAccess::Write)]);
    }
    Step::Ask(Ask::Authorize(checks), Waiting::SchemaAuthorizing(request))
}

/// What an authorized request leads to, where that depends on the request
/// alone.
#[verifier::opaque]
pub open spec fn handled<F>(request: WireRequest, step: Step<F>) -> bool {
    match request {
        WireRequest::Get { collection, id } => calls(
            step,
            ServiceCall::Operation(Request::Get { collection, id }),
            Form::Record,
        ),
        WireRequest::List(list) => list_handled(list, step),
        WireRequest::Create { collection, data } => if !ident::row_plain(data) {
            refuses_row(step, data)
        } else {
            asks_write(Insert::Create { collection, data }, step)
        },
        WireRequest::Update { collection, id, data } => if !ident::row_plain(data) {
            refuses_row(step, data)
        } else {
            calls(
                step,
                ServiceCall::Operation(Request::Update { collection, id, data }),
                Form::Record,
            )
        },
        WireRequest::Delete { collection, id } => calls(
            step,
            ServiceCall::Operation(Request::Delete { collection, id }),
            Form::Empty,
        ),
        WireRequest::Count { collection, filters } => filtered(
            filters@,
            None,
            step,
            calls_operation(step, Form::Count) && (
            called_operation(step) matches Request::Count { collection: c, filters: f }
                && c == collection
                && filter::filters_of(filters@, f@)),
        ),
        WireRequest::QueryRaw { query, args } => calls(
            step,
            ServiceCall::Operation(Request::QueryRaw { query, args }),
            Form::Records,
        ),
        WireRequest::Sum { collection, field, filters } => filtered_on(
            filters@,
            field@,
            step,
            calls_operation(step, Form::Sum) && (
            called_operation(step) matches Request::Sum { collection: c, field: x, filters: f }
                && c == collection
                && x == field
                && filter::filters_of(filters@, f@)),
        ),
        WireRequest::ExecRaw { query, args } => calls(
            step,
            ServiceCall::Operation(Request::ExecRaw { query, args }),
            Form::RowsAffected,
        ),
        WireRequest::Ddl { query, args } => calls(
            step,
            ServiceCall::Operation(Request::ExecRaw { query, args }),
            Form::RowsAffected,
        ),
        WireRequest::DeleteWhere { collection, filters } => filtered(
            filters@,
            None,
            step,
            calls_operation(step, Form::Empty) && (
            called_operation(step) matches Request::DeleteWhere { collection: c, filters: f }
                && c == collection
                && filter::filters_of(filters@, f@)),
        ),
        WireRequest::DeleteWhereCount { collection, filters } => filtered(
            filters@,
            None,
            step,
            calls_operation(step, Form::Count) && (
            called_operation(step) matches Request::DeleteWhereCount { collection: c, filters: f }
                && c == collection
                && filter::filters_of(filters@, f@)),
        ),
        WireRequest::TakeWhere { collection, filters } => filtered(
            filters@,
            None,
            step,
            calls_operation(step, Form::Records) && (
            called_operation(step) matches Request::TakeWhere { collection: c, filters: f }
                && c == collection
                && filter::filters_of(filters@, f@)),
        ),
        WireRequest::UpdateWhere { collection, filters, data } => filtered(
            filters@,
            Some(data),
            step,
            calls_operation(step, Form::Empty) && (
            called_operation(step) matches Request::UpdateWhere { collection: c, filters: f, data: d }
                && c == collection
                && d == data
                && filter::filters_of(filters@, f@)),
        ),
        WireRequest::UpdateWhereCount { collection, filters, data } => filtered(
            filters@,
            Some(data),
            step,
            calls_operation(step, Form::Count) && (
            called_operation(step) matches Request::UpdateWhereCount { collection: c, filters: f, data: d }
                && c == collection
                && d == data
                && filter::filters_of(filters@, f@)),
        ),
        WireRequest::IncrementFieldWhere { collection, col, delta, filters } => filtered_on(
            filters@,
            col@,
            step,
            calls_operation(step, Form::RowsAffected) && (
            called_operation(step) matches Request::IncrementFieldWhere {
                collection: c,
                col: x,
                delta: d,
                filters: f,
            }
                && c == collection
                && x == col
                && d == delta
                && filter::filters_of(filters@, f@)),
        ),
        WireRequest::Upsert(request) => match convert::upsert_refusal(request) {
            Some(m) => refuses(step, m),
            None => calls(
                step,
                ServiceCall::Operation(
                    Request::Upsert {
                        collection: request.collection,
                        upsert: convert::upsert_of(request),
                    },
                ),
                Form::RowsAffected,
            ),
        },
        WireRequest::Aggregate(request) => if request.aggregates@.len() == 0 {
            refuses(step, "aggregate requires at least one aggregate column"@)
        } else {
            match convert::aggregate_refusal(request) {
                Some(m) => refuses(step, m),
                None => {
                    &&& calls_operation(step, Form::Records)
                    &&& called_operation(step) matches Request::Aggregate {
                        collection: c,
                        aggregate: a,
                    }
                    &&& c == request.collection
                    &&& convert::aggregate_converts(request, a)
                },
            }
        },
        WireRequest::TableExists { table_name } => {
            &&& step matches Step::Ask(Ask::Call(ServiceCall::TableExists { table_name: t }), w)
            &&& t == table_name
            &&& w matches Waiting::Serving(Form::TableExists { table_name: u })
            &&& u@ == table_name@
        },
        _ => false,
    }
}

/// What is said of a call that holds more writes than one may.
pub open spec fn too_many(count: int, of: Seq<char>, rules: Rules) -> Seq<char> {
    text::decimal(count) + of + text::decimal(rules.most_writes as int) + " per call"@
}

/// What an authorized request leads to.
#[verifier::opaque]
pub open spec fn authorized<F>(request: WireRequest, rules: Rules, step: Step<F>) -> bool {
    match request {
        WireRequest::CreateMany { collection, rows } => if rows@.len() > rules.most_writes {
            refuses(step, too_many(rows@.len() as int, " rows; at most "@, rules))
        } else {
            &&& step matches Step::Ask(Ask::AdmitStatements { count, what }, w)
            &&& count == rows@.len()
            &&& what@ == "create_many"@
            &&& w == (Waiting::AdmittingRows { collection, rows })
        },
        WireRequest::Batch { ops } => if ops@.len() > rules.most_writes {
            refuses(step, too_many(ops@.len() as int, " writes; at most "@, rules))
        } else {
            &&& step matches Step::Ask(Ask::AdmitStatements { count, what }, w)
            &&& count == ops@.len()
            &&& what@ == "batch"@
            &&& w == (Waiting::AdmittingBatch { ops })
        },
        WireRequest::InsertGuarded { collection, data, guards } => {
            match convert::guards_refusal(guards@, rules.most_guards as int) {
                Some(m) => refuses(step, m),
                None => if !ident::row_plain(data) {
                    refuses_row(step, data)
                } else {
                    &&& step matches Step::Ask(_, Waiting::Inserting(insert))
                    &&& asks_write(insert, step)
                    &&& insert matches Insert::Guarded { collection: c, data: d, guards: g }
                    &&& c == collection
                    &&& d == data
                    &&& guards_convert(guards@, g@)
                },
            }
        },
        WireRequest::UpdateGuarded { collection, filters, data, guards } => {
            match filter::filters_refusal(filters@) {
                Some(m) => refuses(step, m),
                None => match convert::guards_refusal(guards@, rules.most_guards as int) {
                    Some(m) => refuses(step, m),
                    None => if !ident::row_plain(data) {
                        refuses_row(step, data)
                    } else {
                        &&& calls_operation(step, Form::Updated)
                        &&& called_operation(step) matches Request::UpdateGuarded {
                            collection: c,
                            filters: f,
                            data: d,
                            guards: g,
                        }
                        &&& c == collection
                        &&& filter::filters_of(filters@, f@)
                        &&& d == data
                        &&& guards_convert(guards@, g@)
                    },
                },
            }
        },
        WireRequest::EnsureTable { .. } => asks_schema(request, rules, step),
        WireRequest::AddColumn { .. } => asks_schema(request, rules, step),
        WireRequest::DropTable { .. } => asks_schema(request, rules, step),
        _ => handled(request, step),
    }
}

/// What a change to the schema leads to once its caller is authorized for it.
pub open spec fn schema_authorized<F>(request: WireRequest, step: Step<F>) -> bool {
    match request {
        WireRequest::EnsureTable { table } => match schema_wire::table_refusal(table) {
            Some(m) => refuses(step, m),
            None => {
                &&& step matches Step::Ask(Ask::Call(ServiceCall::EnsureTable(t)), w)
                &&& schema_wire::table_of(table, t)
                &&& w matches Waiting::Serving(Form::Table { table_name: u })
                &&& u == table.name
            },
        },
        WireRequest::AddColumn { table_name, column } => match schema_wire::column_refusal(column) {
            Some(m) => refuses(step, m),
            None => {
                &&& step matches Step::Ask(
                    Ask::Call(ServiceCall::AddColumn { table_name: t, column: c }),
                    w,
                )
                &&& t == table_name
                &&& schema_wire::column_of(column, c)
                &&& w matches Waiting::Serving(Form::Table { table_name: u })
                &&& u@ == table_name@
            },
        },
        WireRequest::DropTable { table_name } => {
            &&& step matches Step::Ask(Ask::Call(ServiceCall::DropTable { table_name: t }), w)
            &&& t == table_name
            &&& w matches Waiting::Serving(Form::Table { table_name: u })
            &&& u@ == table_name@
        },
        _ => misfit(step),
    }
}

/// An answer came that was not asked for.
pub open spec fn misfit<F>(step: Step<F>) -> bool {
    step matches Step::Refuse(e) && e.says(
        ErrorCode::Internal,
        "the answer does not fit what was asked"@,
    )
}

fn refuse_misfit<F>() -> (r: Step<F>)
    ensures
        misfit(r),
{
    Step::Refuse(
        WaferError::new(
            ErrorCode::Internal,
            "the answer does not fit what was asked".to_owned(),
        ),
    )
}

fn go_on_schema<F>(request: WireRequest) -> (r: Step<F>)
    ensures
        schema_authorized(request, r),
{
    match request {
        WireRequest::EnsureTable { table } => match table_from_def(&table) {
            Ok(t) => Step::Ask(
                Ask::Call(ServiceCall::EnsureTable(t)),
                Waiting::Serving(Form::Table { table_name: table.name }),
            ),
            Err(e) => Step::Refuse(e),
        },
        WireRequest::AddColumn { table_name, column } => match column_from_def(&column) {
            Ok(c) => {
                let answered = table_name.clone();
                Step::Ask(
                    Ask::Call(ServiceCall::AddColumn { table_name, column: c }),
                    Waiting::Serving(Form::Table { table_name: answered }),
                )
            },
            Err(e) => Step::Refuse(e),
        },
        WireRequest::DropTable { table_name } => {
            let answered = table_name.clone();
            Step::Ask(
                Ask::Call(ServiceCall::DropTable { table_name }),
                Waiting::Serving(Form::Table { table_name: answered }),
            )
        },
        _ => refuse_misfit(),
    }
}

fn call<F>(request: Request, form: Form) -> (r: Step<F>)
    ensures
        calls(r, ServiceCall::Operation(request), form),
{
    Step::Ask(Ask::Call(ServiceCall::Operation(request)), Waiting::Serving(form))
}

fn handle_create<F>(collection: String, data: Row) -> (r: Step<F>)
    ensures
        handled(WireRequest::Create { collection, data }, r),
{
    proof {
        reveal(handled);
    }
    match check_data_names(&data) {
        Ok(()) => ask_write(Insert::Create { collection, data }),
        Err(e) => Step::Refuse(e),
    }
}

fn refuse_many<F>(count: usize, of: &str, rules: &Rules) -> (r: Step<F>)
    ensures
        refuses(r, too_many(count as int, of@, *rules)),
{
    Step::Refuse(
        invalid(
            text::join4(
                text::usize_text(count).as_str(),
                of,
                text::usize_text(rules.most_writes).as_str(),
                " per call",
            ),
        ),
    )
}

fn handle_create_many<F>(collection: String, rows: Vec<Row>, rules: &Rules) -> (r: Step<F>)
    ensures
        authorized(WireRequest::CreateMany { collection, rows }, *rules, r),
{
    proof {
        reveal(authorized);
    }
    if rows.len() > rules.most_writes {
        return refuse_many(rows.len(), " rows; at most ", rules);
    }
    Step::Ask(
        Ask::AdmitStatements { count: rows.len(), what: "create_many".to_owned() },
        Waiting::AdmittingRows { collection, rows },
    )
}

fn handle_batch<F>(ops: Vec<AccessedWrite>, rules: &Rules) -> (r: Step<F>)
    ensures
        authorized(WireRequest::Batch { ops }, *rules, r),
{
    proof {
        reveal(authorized);
    }
    if ops.len() > rules.most_writes {
        return refuse_many(ops.len(), " writes; at most ", rules);
    }
    Step::Ask(
        Ask::AdmitStatements { count: ops.len(), what: "batch".to_owned() },
        Waiting::AdmittingBatch { ops },
    )
}

fn handle_insert_guarded<F>(
    collection: String,
    data: Row,
    guards: Vec<CapGuardDef>,
    rules: &Rules,
) -> (r: Step<F>)
    ensures
        authorized(WireRequest::InsertGuarded { collection, data, guards }, *rules, r),
{
    proof {
        reveal(authorized);
    }
    match to_cap_guards(
        guards,
        rules.most_guards,
    ) {
        Ok(guards) => match check_data_names(&data) {
            Ok(()) => ask_write(Insert::Guarded { collection, data, guards }),
            Err(e) => Step::Refuse(e),
        },
        Err(e) => Step::Refuse(e),
    }
}

fn handle_update_guarded<F>(
    collection: String,
    filters: Vec<FilterNode>,
    data: Row,
    guards: Vec<CapGuardDef>,
    rules: &Rules,
) -> (r: Step<F>)
    ensures
        authorized(WireRequest::UpdateGuarded { collection, filters, data, guards }, *rules, r),
{
    proof {
        reveal(authorized);
    }
    let filters = match convert_filters(filters) {
        Ok(f) => f,
        Err(e) => {
            return Step::Refuse(e);
        },
    };
    let guards = match to_cap_guards(guards, rules.most_guards) {
        Ok(g) => g,
        Err(e) => {
            return Step::Refuse(e);
        },
    };
    match check_data_names(&data) {
        Ok(()) => call(
            Request::UpdateGuarded { collection, filters, data, guards },
            Form::Updated,
        ),
        Err(e) => Step::Refuse(e),
    }
}

fn handle_update<F>(collection: String, id: String, data: Row) -> (r: Step<F>)
    ensures
        handled(WireRequest::Update { collection, id, data }, r),
{
    proof {
        reveal(handled);
    }
    match check_data_names(&data) {
        Ok(()) => call(Request::Update { collection, id, data }, Form::Record),
        Err(e) => Step::Refuse(e),
    }
}

fn handle_count<F>(collection: String, filters: Vec<FilterNode>) -> (r: Step<F>)
    ensures
        handled(WireRequest::Count { collection, filters }, r),
{
    proof {
        reveal(handled);
    }
    match convert_filters(filters) {
        Ok(filters) => call(Request::Count { collection, filters }, Form::Count),
        Err(e) => Step::Refuse(e),
    }
}

fn handle_sum<F>(collection: String, field: String, filters: Vec<FilterNode>) -> (r: Step<F>)
    ensures
        handled(WireRequest::Sum { collection, field, filters }, r),
{
    proof {
        reveal(handled);
    }
    match convert_filters(filters) {
        Ok(filters) => match check_name(field.as_str()) {
            Ok(()) => call(Request::Sum { collection, field, filters }, Form::Sum),
            Err(e) => Step::Refuse(e),
        },
        Err(e) => Step::Refuse(e),
    }
}

fn handle_delete_where<F>(collection: String, filters: Vec<FilterNode>) -> (r: Step<F>)
    ensures
        handled(WireRequest::DeleteWhere { collection, filters }, r),
{
    proof {
        reveal(handled);
    }
    match convert_filters(filters) {
        Ok(filters) => call(Request::DeleteWhere { collection, filters }, Form::Empty),
        Err(e) => Step::Refuse(e),
    }
}

fn handle_delete_where_count<F>(collection: String, filters: Vec<FilterNode>) -> (r: Step<F>)
    ensures
        handled(WireRequest::DeleteWhereCount { collection, filters }, r),
{
    proof {
        reveal(handled);
    }
    match convert_filters(filters) {
        Ok(filters) => call(Request::DeleteWhereCount { collection, filters }, Form::Count),
        Err(e) => Step::Refuse(e),
    }
}

fn handle_take_where<F>(collection: String, filters: Vec<FilterNode>) -> (r: Step<F>)
    ensures
        handled(WireRequest::TakeWhere { collection, filters }, r),
{
    proof {
        reveal(handled);
    }
    match convert_filters(filters) {
        Ok(filters) => call(Request::TakeWhere { collection, filters }, Form::Records),
        Err(e) => Step::Refuse(e),
    }
}

fn handle_update_where<F>(collection: String, filters: Vec<FilterNode>, data: Row) -> (r: Step<F>)
    ensures
        handled(WireRequest::UpdateWhere { collection, filters, data }, r),
{
    proof {
        reveal(handled);
    }
    match convert_filters(filters) {
        Ok(filters) => match check_data_names(&data) {
            Ok(()) => call(Request::UpdateWhere { collection, filters, data }, Form::Empty),
            Err(e) => Step::Refuse(e),
        },
        Err(e) => Step::Refuse(e),
    }
}

fn handle_update_where_count<F>(collection: String, filters: Vec<FilterNode>, data: Row) -> (r: Step<F>)
    ensures
        handled(WireRequest::UpdateWhereCount { collection, filters, data }, r),
{
    proof {
        reveal(handled);
    }
    match convert_filters(
        filters,
    ) {
        Ok(filters) => match check_data_names(&data) {
            Ok(()) => call(
                Request::UpdateWhereCount { collection, filters, data },
                Form::Count,
            ),
            Err(e) => Step::Refuse(e),
        },
        Err(e) => Step::Refuse(e),
    }
}

fn handle_increment_field_where<F>(
    collection: String,
    col: String,
    delta: i64,
    filters: Vec<FilterNode>,
) -> (r: Step<F>)
    ensures
        handled(WireRequest::IncrementFieldWhere { collection, col, delta, filters }, r),
{
    proof {
        reveal(handled);
    }
    match convert_filters(filters) {
        Ok(filters) => match check_name(col.as_str()) {
            Ok(()) => call(
                Request::IncrementFieldWhere { collection, col, delta, filters },
                Form::RowsAffected,
            ),
            Err(e) => Step::Refuse(e),
        },
        Err(e) => Step::Refuse(e),
    }
}

fn handle_upsert<F>(request: UpsertRequest) -> (r: Step<F>)
    ensures
        handled(WireRequest::Upsert(request), r),
{
    proof {
        reveal(handled);
    }
    match to_upsert_spec(request) {
        Ok((collection, upsert)) => call(
            Request::Upsert { collection, upsert },
            Form::RowsAffected,
        ),
        Err(e) => Step::Refuse(e),
    }
}

fn handle_aggregate<F>(request: AggregateRequest) -> (r: Step<F>)
    ensures
        handled(WireRequest::Aggregate(request), r),
{
    proof {
        reveal(handled);
    }
    if request.aggregates.len() == 0 {
        return Step::Refuse(
            invalid("aggregate requires at least one aggregate column".to_owned()),
        );
    }
    match to_aggregate_spec(request) {
        Ok((collection, aggregate)) => call(
            Request::Aggregate { collection, aggregate },
            Form::Records,
        ),
        Err(e) => Step::Refuse(e),
    }
}

fn handle_get<F>(collection: String, id: String) -> (r: Step<F>)
    ensures
        handled(WireRequest::Get { collection, id }, r),
{
    proof {
        reveal(handled);
    }
    call(Request::Get { collection, id }, Form::Record)
}

fn handle_delete<F>(collection: String, id: String) -> (r: Step<F>)
    ensures
        handled(WireRequest::Delete { collection, id }, r),
{
    proof {
        reveal(handled);
    }
    call(Request::Delete { collection, id }, Form::Empty)
}

fn handle_query_raw<F>(query: String, args: Vec<Json>) -> (r: Step<F>)
    ensures
        handled(WireRequest::QueryRaw { query, args }, r),
{
    proof {
        reveal(handled);
    }
    call(Request::QueryRaw { query, args }, Form::Records)
}

fn handle_exec_raw<F>(query: String, args: Vec<Json>) -> (r: Step<F>)
    ensures
        handled(WireRequest::ExecRaw { query, args }, r),
{
    proof {
        reveal(handled);
    }
    call(Request::ExecRaw { query, args }, Form::RowsAffected)
}

fn handle_ddl<F>(query: String, args: Vec<Json>) -> (r: Step<F>)
    ensures
        handled(WireRequest::Ddl { query, args }, r),
{
    proof {
        reveal(handled);
    }
    call(Request::ExecRaw { query, args }, Form::RowsAffected)
}

fn handle_table_exists<F>(table_name: String) -> (r: Step<F>)
    ensures
        handled(WireRequest::TableExists { table_name }, r),
{
    proof {
        reveal(handled);
    }
    let answered = table_name.clone();
    Step::Ask(
        Ask::Call(ServiceCall::TableExists { table_name }),
        Waiting::Serving(Form::TableExists { table_name: answered }),
    )
}

fn handle_schema<F>(request: WireRequest, rules: &Rules) -> (r: Step<F>)
    requires
        request is EnsureTable || request is AddColumn || request is DropTable,
    ensures
        authorized(request, *rules, r),
{
    proof {
        reveal(authorized);
    }
    ask_schema(request, rules)
}

fn go_on_authorized<F>(request: WireRequest, rules: &Rules) -> (r: Step<F>)
    ensures
        authorized(request, *rules, r),
{
    proof {
        reveal(authorized);
    }
    match request {
        WireRequest::Get { collection, id } => handle_get(collection, id),
        WireRequest::List(list) => handle_list(list),
        WireRequest::Create { collection, data } => handle_create(collection, data),
        WireRequest::CreateMany { collection, rows } => handle_create_many(collection, rows, rules),
        WireRequest::Batch { ops } => handle_batch(ops, rules),
        WireRequest::InsertGuarded { collection, data, guards } => {
            handle_insert_guarded(collection, data, guards, rules)
        },
        WireRequest::UpdateGuarded { collection, filters, data, guards } => {
            handle_update_guarded(collection, filters, data, guards, rules)
        },
        WireRequest::Update { collection, id, data } => handle_update(collection, id, data),
        WireRequest::Delete { collection, id } => handle_delete(collection, id),
        WireRequest::Count { collection, filters } => handle_count(collection, filters),
        WireRequest::QueryRaw { query, args } => handle_query_raw(query, args),
        WireRequest::Sum { collection, field, filters } => handle_sum(collection, field, filters),
        WireRequest::ExecRaw { query, args } => handle_exec_raw(query, args),
        WireRequest::Ddl { query, args } => handle_ddl(query, args),
        WireRequest::DeleteWhere { collection, filters } => handle_delete_where(collection, filters),
        WireRequest::DeleteWhereCount { collection, filters } => {
            handle_delete_where_count(collection, filters)
        },
        WireRequest::TakeWhere { collection, filters } => handle_take_where(collection, filters),
        WireRequest::UpdateWhere { collection, filters, data } => {
            handle_update_where(collection, filters, data)
        },
        WireRequest::UpdateWhereCount { collection, filters, data } => {
            handle_update_where_count(collection, filters, data)
        },
        WireRequest::IncrementFieldWhere { collection, col, delta, filters } => {
            handle_increment_field_where(collection, col, delta, filters)
        },
        WireRequest::Upsert(upsert) => handle_upsert(upsert),
        WireRequest::Aggregate(aggregate) => handle_aggregate(aggregate),
        WireRequest::EnsureTable { table } => handle_schema(
            WireRequest::EnsureTable { table },
            rules,
        ),
        WireRequest::AddColumn { table_name, column } => handle_schema(
            WireRequest::AddColumn { table_name, column },
            rules,
        ),
        WireRequest::DropTable { table_name } => handle_schema(
            WireRequest::DropTable { table_name },
            rules,
        ),
        WireRequest::TableExists { table_name } => handle_table_exists(table_name),
    }
}

// ---------------------------------------------------------------------------
// Going on
// ---------------------------------------------------------------------------

/// What the service's reply is turned into.
pub open spec fn served<F>(form: Form, reply: Served<F>, step: Step<F>) -> bool {
    match (form, reply) {
        (Form::Record, Served::Operation(Outcome::Record(r))) => step == Step::Respond(
            Response::<F>::Record(r),
        ),
        (Form::List, Served::Operation(Outcome::List(l))) => step == Step::Respond(
            Response::<F>::List(l),
        ),
        (Form::Records, Served::Operation(Outcome::Records(r))) => step == Step::Respond(
            Response::<F>::Records(r),
        ),
        (Form::RowsAffected, Served::Operation(Outcome::Count(n))) => step == Step::Respond(
            Response::<F>::RowsAffected(n),
        ),
        (Form::Count, Served::Operation(Outcome::Count(n))) => step == Step::Respond(
            Response::<F>::Count(n),
        ),
        (Form::Sum, Served::Operation(Outcome::Sum(s))) => step == Step::Respond(
            Response::<F>::Sum(s),
        ),
        (Form::Inserted, Served::Operation(Outcome::Inserted(g))) => step == Step::Respond(
            Response::<F>::Inserted(g),
        ),
        (Form::Updated, Served::Operation(Outcome::Updated(g))) => step == Step::Respond(
            Response::<F>::Updated(g),
        ),
        (Form::Empty, Served::Operation(Outcome::Nothing)) => step == Step::Respond(
            Response::<F>::Empty,
        ),
        (Form::Batch, Served::Batch(outcomes)) => step == Step::Respond(
            Response::<F>::Batch(outcomes),
        ),
        (Form::Table { table_name }, Served::Changed) => step == Step::Respond(
            Response::<F>::Table { table_name },
        ),
        (Form::TableExists { table_name }, Served::Exists(exists)) => step == Step::Respond(
            Response::<F>::TableExists { table_name, exists },
        ),
        _ => misfit(step),
    }
}

fn respond<F>(form: Form, reply: Served<F>) -> (r: Step<F>)
    ensures
        served(form, reply, r),
{
    match (form, reply) {
        (Form::Record, Served::Operation(Outcome::Record(r))) => Step::Respond(
            Response::Record(r),
        ),
        (Form::List, Served::Operation(Outcome::List(l))) => Step::Respond(Response::List(l)),
        (Form::Records, Served::Operation(Outcome::Records(r))) => Step::Respond(
            Response::Records(r),
        ),
        (Form::RowsAffected, Served::Operation(Outcome::Count(n))) => Step::Respond(
            Response::RowsAffected(n),
        ),
        (Form::Count, Served::Operation(Outcome::Count(n))) => Step::Respond(Response::Count(n)),
        (Form::Sum, Served::Operation(Outcome::Sum(s))) => Step::Respond(Response::Sum(s)),
        (Form::Inserted, Served::Operation(Outcome::Inserted(g))) => Step::Respond(
            Response::Inserted(g),
        ),
        (Form::Updated, Served::Operation(Outcome::Updated(g))) => Step::Respond(
            Response::Updated(g),
        ),
        (Form::Empty, Served::Operation(Outcome::Nothing)) => Step::Respond(Response::Empty),
        (Form::Batch, Served::Batch(outcomes)) => Step::Respond(Response::Batch(outcomes)),
        (Form::Table { table_name }, Served::Changed) => Step::Respond(
            Response::Table { table_name },
        ),
        (Form::TableExists { table_name }, Served::Exists(exists)) => Step::Respond(
            Response::TableExists { table_name, exists },
        ),
        _ => refuse_misfit(),
    }
}

/// What an answer leads to.
pub open spec fn handling_goes_on<F>(
    waiting: Waiting,
    told: Told<F>,
    rules: Rules,
    step: Step<F>,
) -> bool {
    match (waiting, told) {
        (Waiting::Authorizing(_), Told::Authorized(Err(e))) => step == Step::<F>::Refuse(e),
        (Waiting::Authorizing(request), Told::Authorized(Ok(_))) => authorized(
            request,
            rules,
            step,
        ),
        (Waiting::SchemaAuthorizing(_), Told::Authorized(Err(e))) => step == Step::<F>::Refuse(e),
        (Waiting::SchemaAuthorizing(request), Told::Authorized(Ok(_))) => schema_authorized(
            request,
            step,
        ),
        (Waiting::AdmittingRows { .. }, Told::Admitted(Err(e))) => answers_error(step, e),
        (Waiting::AdmittingRows { collection, rows }, Told::Admitted(Ok(_))) => {
            if all_rows_plain(rows@) {
                asks_write(Insert::CreateMany { collection, rows }, step)
            } else {
                step matches Step::Refuse(e) && refuses_some_row(e, rows@)
            }
        },
        (Waiting::AdmittingBatch { .. }, Told::Admitted(Err(e))) => answers_error(step, e),
        (Waiting::AdmittingBatch { ops }, Told::Admitted(Ok(_))) => batch_inserts(
            ops,
            Seq::empty(),
            0,
            step,
        ),
        (Waiting::Inserting(insert), Told::MayWrite(may_write)) => insert_goes_on(
            insert,
            may_write,
            step,
        ),
        (Waiting::Appending(_), Told::Columns(Err(e))) => answers_error(step, e),
        (Waiting::Appending(insert), Told::Columns(Ok(existing))) => append_goes_on(
            insert,
            existing,
            step,
        ),
        (
            Waiting::BatchInserting { ops, append_only, next },
            Told::MayWrite(may_write),
        ) => batch_insert_goes_on(ops, text::views(append_only@), next as int, may_write, step),
        (Waiting::BatchAppending { .. }, Told::Columns(Err(e))) => answers_error(step, e),
        (
            Waiting::BatchAppending { ops, append_only, next },
            Told::Columns(Ok(existing)),
        ) => batch_append_goes_on(
            ops,
            text::views(append_only@),
            next as int,
            text::views(existing@),
            step,
        ),
        (Waiting::Serving(_), Told::Served(Err(e))) => answers_error(step, e),
        (Waiting::Serving(form), Told::Served(Ok(reply))) => served(form, reply, step),
        _ => misfit(step),
    }
}

impl Waiting {
    /// Goes on with the answer to what was asked.
    pub fn resume<F>(self, told: Told<F>, rules: &Rules) -> (r: Step<F>)
        ensures
            handling_goes_on(self, told, *rules, r),
    {
        match (self, told) {
            (Waiting::Authorizing(_), Told::Authorized(Err(e))) => Step::Refuse(e),
            (Waiting::Authorizing(request), Told::Authorized(Ok(_))) => go_on_authorized(
                request,
                rules,
            ),
            (Waiting::SchemaAuthorizing(_), Told::Authorized(Err(e))) => Step::Refuse(e),
            (Waiting::SchemaAuthorizing(request), Told::Authorized(Ok(_))) => go_on_schema(
                request,
            ),
            (Waiting::AdmittingRows { .. }, Told::Admitted(Err(e))) => Step::Refuse(
                db_error_to_wafer(e),
            ),
            (Waiting::AdmittingRows { collection, rows }, Told::Admitted(Ok(_))) => {
                match check_rows(&rows) {
                    Ok(()) => ask_write(Insert::CreateMany { collection, rows }),
                    Err(e) => Step::Refuse(e),
                }
            },
            (Waiting::AdmittingBatch { .. }, Told::Admitted(Err(e))) => Step::Refuse(
                db_error_to_wafer(e),
            ),
            (Waiting::AdmittingBatch { ops }, Told::Admitted(Ok(_))) => {
                let none: Vec<String> = Vec::new();
                proof {
                    assert(text::views(none@) =~= Seq::empty());
                }
                insert_batch(ops, none, 0)
            },
            (Waiting::Inserting(insert), Told::MayWrite(may_write)) => go_on_insert(
                insert,
                may_write,
            ),
            (Waiting::Appending(_), Told::Columns(Err(e))) => Step::Refuse(db_error_to_wafer(e)),
            (Waiting::Appending(insert), Told::Columns(Ok(existing))) => go_on_append(
                insert,
                &existing,
            ),
            (
                Waiting::BatchInserting { ops, append_only, next },
                Told::MayWrite(may_write),
            ) => {
                let mut known = append_only;
                if next >= ops.len() {
                    return insert_batch(ops, known, next);
                }
                if !may_write {
                    let ghost before = text::views(known@);
                    known.push(ops[next].write.collection().to_owned());
                    proof {
                        assert(text::views(known@) =~= before.push(
                            ops@[next as int].write.target(),
                        ));
                    }
                }
                insert_batch(ops, known, next + 1)
            },
            (Waiting::BatchAppending { .. }, Told::Columns(Err(e))) => Step::Refuse(
                db_error_to_wafer(e),
            ),
            (
                Waiting::BatchAppending { ops, append_only, next },
                Told::Columns(Ok(existing)),
            ) => {
                if next >= append_only.len() {
                    return convert_batch(ops);
                }
                let collection: String = append_only[next].clone();
                if let Err(e) = check_append_columns(
                    collection.as_str(),
                    &existing,
                    &list_created(&ops, collection.as_str()),
                ) {
                    return Step::Refuse(e);
                }
                append_batch(ops, append_only, next + 1)
            },
            (Waiting::Serving(_), Told::Served(Err(e))) => Step::Refuse(db_error_to_wafer(e)),
            (Waiting::Serving(form), Told::Served(Ok(reply))) => respond(form, reply),
            _ => refuse_misfit(),
        }
    }
}

// ---------------------------------------------------------------------------
// What holds of every message
// ---------------------------------------------------------------------------

/// Nothing is asked of the service, nor of the schema, before the caller is
/// authorized: the first question of every message is for its authorization.
pub proof fn authorization_comes_first<F>(message: Incoming, rules: Rules, step: Step<F>)
    requires
        handling_starts(message, rules, step),
    ensures
        step is Ask ==> step->Ask_0 is Authorize,
        !(step is Respond),
{
}

/// A caller who is refused gets the refusal itself, and nothing else happens.
pub proof fn the_unauthorized_are_refused<F>(
    waiting: Waiting,
    e: WaferError,
    rules: Rules,
    step: Step<F>,
)
    requires
        waiting is Authorizing || waiting is SchemaAuthorizing,
        handling_goes_on(waiting, Told::<F>::Authorized(Err(e)), rules, step),
    ensures
        step == Step::<F>::Refuse(e),
{
}

/// The caller is authorized on the very name that the request gives, which is
/// a plain identifier.
pub proof fn the_name_authorized_is_the_name_given<F>(
    message: Incoming,
    request: WireRequest,
    rules: Rules,
    step: Step<F>,
    i: int,
)
    requires
        handling_starts(message, rules, step),
        message.body == Body::Request(request),
        !(request is Batch),
        step is Ask,
        0 <= i < check_pairs(step->Ask_0->Authorize_0@).len(),
    ensures
        check_pairs(step->Ask_0->Authorize_0@)[i].0 == resource_of(request, rules),
        ident::plain(resource_of(request, rules)),
{
}

/// Every write of a batch is authorized, on its own collection and for its own
/// access, before any of them is looked at further.
pub proof fn every_write_is_authorized<F>(
    message: Incoming,
    ops: Vec<AccessedWrite>,
    rules: Rules,
    step: Step<F>,
    i: int,
)
    requires
        handling_starts(message, rules, step),
        message.body == Body::Request(WireRequest::Batch { ops }),
        step is Ask,
        0 <= i < ops@.len(),
    ensures
        check_pairs(step->Ask_0->Authorize_0@).contains((ops@[i].write.target(), ops@[i].access)),
        ident::plain(ops@[i].write.target()),
{
    lemma_pairs_complete(ops@, i);
    rows::lemma_no_bad_name(batch_targets(ops@));
    assert(batch_targets(ops@)[i] == ops@[i].write.target());
}

proof fn lemma_pairs_complete(ops: Seq<AccessedWrite>, i: int)
    requires
        0 <= i < ops.len(),
    ensures
        batch_pairs(ops).contains((ops[i].write.target(), ops[i].access)),
    decreases ops.len(),
{
    let before = batch_pairs(ops.drop_last());
    let pair = (ops[i].write.target(), ops[i].access);
    let last = (ops.last().write.target(), ops.last().access);
    if i == ops.len() - 1 {
        if !before.contains(last) {
            assert(before.push(last)[before.len() as int] == last);
        }
    } else {
        lemma_pairs_complete(ops.drop_last(), i);
        assert(ops.drop_last()[i] == ops[i]);
        let j = choose|j: int| 0 <= j < before.len() && before[j] == pair;
        assert(before.push(last)[j] == pair);
    }
}

/// A change to the schema is made only for a caller who is authorized to
/// change the schema, besides being authorized on the table.
pub proof fn schema_changes_are_authorized_twice<F>(
    request: WireRequest,
    told: Told<F>,
    rules: Rules,
    step: Step<F>,
)
    requires
        request is EnsureTable || request is AddColumn || request is DropTable,
        handling_goes_on(Waiting::Authorizing(request), told, rules, step),
    ensures
        step is Ask ==> step->Ask_0 is Authorize && check_pairs(step->Ask_0->Authorize_0@) == seq![
            (rules.schema@, ResourceAccess::Write),
        ],
        !(step is Respond),
{
    reveal(authorized);
}

/// A call that holds more writes than one may is refused, whoever makes it:
/// neither the service nor its budget is asked for anything.
pub proof fn writes_are_capped<F>(
    request: WireRequest,
    told: Told<F>,
    rules: Rules,
    step: Step<F>,
)
    requires
        match request {
            WireRequest::CreateMany { rows, .. } => rows@.len() > rules.most_writes,
            WireRequest::Batch { ops } => ops@.len() > rules.most_writes,
            _ => false,
        },
        told is Authorized,
        handling_goes_on(Waiting::Authorizing(request), told, rules, step),
    ensures
        step is Refuse,
{
    reveal(authorized);
}

/// The request that a write of a batch is on its own.
pub open spec fn alone(write: BatchWrite) -> WireRequest {
    match write {
        BatchWrite::Create { collection, data } => WireRequest::Create { collection, data },
        BatchWrite::Update { collection, id, data } => WireRequest::Update { collection, id, data },
        BatchWrite::Delete { collection, id } => WireRequest::Delete { collection, id },
        BatchWrite::UpdateWhere { collection, filters, data } => WireRequest::UpdateWhere {
            collection,
            filters,
            data,
        },
        BatchWrite::DeleteWhere { collection, filters } => WireRequest::DeleteWhere {
            collection,
            filters,
        },
        BatchWrite::Upsert(request) => WireRequest::Upsert(request),
    }
}

/// A write is refused in a batch exactly where the request of its own, once
/// authorized, is.
pub proof fn batched_writes_are_refused_as_on_their_own<F>(
    write: BatchWrite,
    r: Result<WriteOp, WaferError>,
    rules: Rules,
    step: Step<F>,
)
    requires
        convert::write_converts(write, r),
        authorized(alone(write), rules, step),
    ensures
        r is Err <==> step is Refuse,
{
    reveal(authorized);
    reveal(handled);
    convert::lemma_sound(write, r);
}

// ---------------------------------------------------------------------------
// Lifecycle
// ---------------------------------------------------------------------------

/// A text that turns a flag on: `true` in any case, or `1`, with white space
/// around it or not.
pub open spec fn turns_on(value: Seq<char>) -> bool {
    exists|v: Seq<char>|
        #[trigger] text::is_trim(value, v) && (text::lower(v) == text::lower("true"@) || v == "1"@)
}

/// Whether a configured text turns a flag on; a key that is not set has the
/// empty text.
pub fn config_flag_enabled(value: &str) -> (r: bool)
    ensures
        r == turns_on(value@),
{
    let v = text::trim(value);
    proof {
        assert forall|w: Seq<char>| #[trigger] text::is_trim(value@, w) implies w == v@ by {
            text::trim_is_unique(value@, w, v@);
        }
    }
    text::eq_ignore_ascii_case(v.as_str(), "true") || text::same(v.as_str(), "1")
}

/// The key under which the database block is configured to trust its schema.
pub const STRICT_SCHEMA_CONFIG_KEY: &'static str = "WAFER_RUN__DATABASE__STRICT_SCHEMA";

/// Whether a configuration turns the flag under `key` on; a key that is not
/// set, or holds no text, does not.
pub fn strict_schema_from(config: &Row, key: &str) -> (r: bool)
    ensures
        r == (config@.dom().contains(key@) && (config@[key@] matches JsonView::Str(s) && turns_on(
            s,
        ))),
{
    match config.get(key) {
        Some(value) => match value.as_str() {
            Some(s) => config_flag_enabled(s),
            None => false,
        },
        None => false,
    }
}

/// What starting up asks for.
#[derive(Debug)]
pub enum Startup {
    /// Nothing: the event is another.
    Nothing,
    /// Hand the flag to the service; there is no table to bring up.
    Configure { strict_schema: bool },
    /// Hand the flag to the service first, then bring these tables up.
    Migrate { strict_schema: bool, tables: Vec<Table> },
}

/// What an event of the block's life asks for: at its start the service is
/// told whether its schema is to be trusted, then the tables are brought up.
pub fn handle_lifecycle(starts: bool, strict_schema: bool, tables: Vec<Table>) -> (r: Startup)
    ensures
        r == if !starts {
            Startup::Nothing
        } else if tables@.len() == 0 {
            Startup::Configure { strict_schema }
        } else {
            Startup::Migrate { strict_schema, tables }
        },
{
    if !starts {
        Startup::Nothing
    } else if tables.len() == 0 {
        Startup::Configure { strict_schema }
    } else {
        Startup::Migrate { strict_schema, tables }
    }
}

/// How starting up ends. A failure keeps its code, so that one which may clear
/// on its own can be told from one that stays.
pub fn migrated(outcome: Result<(), DatabaseError>) -> (r: Result<(), WaferError>)
    ensures
        match outcome {
            Ok(()) => r is Ok,
            Err(e) => r is Err && r->Err_0.says(
                e.answer_code(),
                "schema migration failed: "@ + e.rendering(),
            ),
        },
{
    match outcome {
        Ok(()) => Ok(()),
        Err(e) => Err(
            WaferError::new(
                e.code(),
                text::join2("schema migration failed: ", e.to_string().as_str()),
            ),
        ),
    }
}

/// A caller who may only append makes an insert only where each of its rows sets
/// none of the server's columns and names only columns that the collection has,
/// the server's own among them. One who may write makes it at once.
pub proof fn appending_adds_rows_and_no_more<F>(
    insert: Insert,
    existing: Vec<String>,
    first: Step<F>,
    second: Step<F>,
    i: int,
    name: Seq<char>,
)
    requires
        insert_goes_on(insert, false, first),
        0 <= i < insert.rows().len(),
        insert.rows()[i]@.dom().contains(name),
    ensures
        !(first is Ask && first->Ask_0 is Call),
        first is Ask ==> name != "id"@ && name != "created_at"@ && name != "updated_at"@
            && ident::plain(name),
        append_goes_on(insert, existing, second) && second is Ask ==> text::views(
            existing@,
        ).contains(name) && text::views(existing@).contains("id"@) && text::views(
            existing@,
        ).contains("created_at"@) && text::views(existing@).contains("updated_at"@),
{
    let row = insert.rows()[i];
    if first is Ask {
        assert(append::appendable(row));
    }
    if append_goes_on(insert, existing, second) && second is Ask {
        assert(append::has_columns_of(text::views(existing@), row));
    }
}

/// The block starts up exactly where it starts: the service is handed the flag,
/// and the tables, where there are any, are all brought up in their order.
pub proof fn starting_up_brings_every_table_up(
    starts: bool,
    strict: bool,
    tables: Vec<Table>,
    r: Startup,
)
    requires
        call_ensures(handle_lifecycle, (starts, strict, tables), r),
    ensures
        r is Nothing <==> !starts,
        r matches Startup::Configure { strict_schema } ==> strict_schema == strict && tables@.len()
            == 0,
        r matches Startup::Migrate { strict_schema, tables: t } ==> strict_schema == strict && t
            == tables && t@.len() > 0,
{
}

/// Starting up fails exactly where bringing the tables up does, with a code from
/// which one that may clear on its own is told.
pub proof fn a_failed_start_keeps_its_code(
    outcome: Result<(), DatabaseError>,
    r: Result<(), WaferError>,
)
    requires
        call_ensures(migrated, (outcome,), r),
    ensures
        r is Err <==> outcome is Err,
        outcome is Err ==> (r->Err_0.code == ErrorCode::Unavailable <==> outcome->Err_0
            is Unavailable),
        outcome is Err ==> (r->Err_0.code == ErrorCode::Internal <==> outcome->Err_0 is Internal
            || outcome->Err_0 is Other),
{
}

/// A flag is on for `true` and `1`, and stays so with spaces around it.
pub proof fn flags_are_read_with_spaces_around(value: Seq<char>, v: Seq<char>, r: bool, given: &str)
    requires
        text::is_trim(value, v),
        given@ == value,
        call_ensures(config_flag_enabled, (given,), r),
    ensures
        v == "true"@ ==> r,
        v == "1"@ ==> r,
        v.len() == 0 ==> !r,
        v == "0"@ ==> !r,
        v == "false"@ ==> !r,
{
    reveal_strlit("true");
    reveal_strlit("false");
    reveal_strlit("1");
    reveal_strlit("0");
    assert forall|w: Seq<char>| #[trigger] text::is_trim(value, w) implies w == v by {
        text::trim_is_unique(value, w, v);
    }
    if v == "true"@ || v == "1"@ {
        assert(turns_on(value));
    }
    assert("0"@[0] != "1"@[0]);
    assert(text::lower("true"@).len() == 4);
    assert(text::lower(v).len() == v.len());
}

/// The caller is asked to be authorized for every access that the operation is
/// classified for, in its order, and for no other.
pub proof fn every_access_is_authorized<F>(
    message: Incoming,
    request: WireRequest,
    accesses: Vec<ResourceAccess>,
    rules: Rules,
    step: Step<F>,
)
    requires
        handling_starts(message, rules, step),
        message.body == Body::Request(request),
        !(request is Batch),
        message.access == Some(OpAccess::On(accesses)),
    ensures
        step is Ask <==> ident::plain(resource_of(request, rules)),
        step is Ask ==> step->Ask_0->Authorize_0@.len() == accesses@.len() && forall|i: int|
            0 <= i < accesses@.len() ==> (#[trigger] step->Ask_0->Authorize_0@[i]).access
                == accesses@[i] && step->Ask_0->Authorize_0@[i].resource@ == resource_of(
                request,
                rules,
            ),
{
    if step is Ask {
        let checks = step->Ask_0->Authorize_0@;
        assert(check_pairs(checks).len() == checks.len());
        assert forall|i: int| 0 <= i < accesses@.len() implies (#[trigger] checks[i]).access
            == accesses@[i] && checks[i].resource@ == resource_of(request, rules) by {
            assert(check_pairs(checks)[i] == (checks[i].resource@, checks[i].access));
            assert(pairs_on(resource_of(request, rules), accesses@)[i] == (
                resource_of(request, rules),
                accesses@[i],
            ));
        }
    }
}

/// An operation that is not classified is refused before anyone is asked.
pub proof fn the_unclassified_are_refused<F>(message: Incoming, rules: Rules, step: Step<F>)
    requires
        handling_starts(message, rules, step),
        message.access is None,
    ensures
        step is Refuse,
{
}

proof fn lemma_pairs_sound(ops: Seq<AccessedWrite>, pair: (Seq<char>, ResourceAccess))
    requires
        batch_pairs(ops).contains(pair),
    ensures
        exists|i: int|
            0 <= i < ops.len() && (#[trigger] ops[i]).write.target() == pair.0 && ops[i].access
                == pair.1,
    decreases ops.len(),
{
    if ops.len() > 0 {
        let init = ops.drop_last();
        let before = batch_pairs(init);
        let n = ops.len() - 1;
        assert(ops[n] == ops.last());
        let k = batch_pairs(ops).index_of(pair);
        if k < before.len() {
            assert(before[k] == pair);
            lemma_pairs_sound(init, pair);
            let i = choose|i: int|
                0 <= i < init.len() && (#[trigger] init[i]).write.target() == pair.0
                    && init[i].access == pair.1;
            assert(ops[i] == init[i]);
        }
    }
}

/// A batch asks for no authorization but that of its writes.
pub proof fn only_the_writes_are_authorized<F>(
    message: Incoming,
    ops: Vec<AccessedWrite>,
    rules: Rules,
    step: Step<F>,
    k: int,
)
    requires
        handling_starts(message, rules, step),
        message.body == Body::Request(WireRequest::Batch { ops }),
        step is Ask,
        0 <= k < step->Ask_0->Authorize_0@.len(),
    ensures
        exists|i: int|
            0 <= i < ops@.len() && (#[trigger] ops@[i]).write.target()
                == step->Ask_0->Authorize_0@[k].resource@ && ops@[i].access
                == step->Ask_0->Authorize_0@[k].access,
{
    let checks = step->Ask_0->Authorize_0@;
    let pair = (checks[k].resource@, checks[k].access);
    assert(check_pairs(checks)[k] == pair);
    lemma_pairs_sound(ops@, pair);
}

/// What one call may hold is admitted: up to the cap, the cap included, its rows
/// or writes are asked to be admitted, as many as there are.
pub proof fn calls_within_the_cap_are_admitted<F>(
    request: WireRequest,
    rules: Rules,
    step: Step<F>,
)
    requires
        handling_goes_on(
            Waiting::Authorizing(request),
            Told::<F>::Authorized(Ok(())),
            rules,
            step,
        ),
    ensures
        match request {
            WireRequest::CreateMany { rows, .. } => rows@.len() <= rules.most_writes ==> (
            step matches Step::Ask(Ask::AdmitStatements { count, .. }, _) && count == rows@.len()),
            WireRequest::Batch { ops } => ops@.len() <= rules.most_writes ==> (
            step matches Step::Ask(Ask::AdmitStatements { count, .. }, _) && count == ops@.len()),
            _ => true,
        },
{
    reveal(authorized);
}

/// What the host does not admit is refused, with the answer to its error.
pub proof fn what_is_not_admitted_is_refused<F>(
    waiting: Waiting,
    e: DatabaseError,
    rules: Rules,
    step: Step<F>,
)
    requires
        waiting is AdmittingRows || waiting is AdmittingBatch,
        handling_goes_on(waiting, Told::<F>::Admitted(Err(e)), rules, step),
    ensures
        step is Refuse,
        step->Refuse_0.code == e.answer_code(),
{
}

} // verus!
