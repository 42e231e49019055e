//! Statements as plain data, and what is got back when they are run.

use vstd::prelude::*;

use crate::database::filter::{Filter, FilterTree, SortField};
use crate::database::service::{CapGuard, DatabaseError, GroupedQueryConfig, Record};
use crate::double::Double;
use crate::json;
use crate::json::Json;
use crate::text;

verus! {

/// Which rows a select reads, and how.
#[derive(Debug)]
pub struct Selection {
    /// The columns to read; every column where none are named.
    pub columns: Option<Vec<String>>,
    pub filters: Vec<Filter>,
    pub tree: Option<Vec<FilterTree>>,
    pub sort: Vec<SortField>,
    pub limit: Option<i64>,
    pub offset: i64,
    /// Columns to order by last, so that no two rows tie.
    pub unique_key: Vec<String>,
}

/// One statement, before it is rendered in a backend's dialect.
#[derive(Debug)]
pub enum Statement {
    SelectById { table: String, id: String },
    Select { table: String, selection: Selection },
    Count { table: String, filters: Vec<Filter>, tree: Option<Vec<FilterTree>> },
    Sum { table: String, field: String, filters: Vec<Filter> },
    Insert { table: String, pairs: Vec<(String, Json)> },
    InsertReturning { table: String, pairs: Vec<(String, Json)> },
    UpdateById { table: String, id: String, pairs: Vec<(String, Json)> },
    UpdateByIdReturning { table: String, id: String, pairs: Vec<(String, Json)> },
    DeleteById { table: String, id: String },
    UpdateWhere { table: String, pairs: Vec<(String, Json)>, filters: Vec<Filter> },
    DeleteWhere { table: String, filters: Vec<Filter> },
    DeleteWhereReturning { table: String, filters: Vec<Filter> },
    Increment { table: String, column: String, delta: i64, filters: Vec<Filter> },
    Upsert {
        table: String,
        data: Vec<(String, Json)>,
        conflict: Vec<String>,
        /// The columns to set to the new row's values; none does nothing.
        update: Vec<String>,
    },
    WindowedCounter {
        table: String,
        conflict_column: String,
        id: String,
        key: String,
        count_field: String,
        window_field: String,
        created_fields: Vec<String>,
        updated_fields: Vec<String>,
        now: i64,
        window_cutoff: i64,
    },
    Grouped { query: GroupedQueryConfig },
    /// What a guarded write to a table runs first; `part` counts from zero.
    GuardPreamble { table: String, part: usize },
    /// One row with one column for each guard: 1 where it holds, 0 where it
    /// refuses.
    GuardProbe { table: String, guards: Vec<CapGuard> },
    InsertGuarded { table: String, pairs: Vec<(String, Json)>, guards: Vec<CapGuard> },
    UpdateGuarded {
        table: String,
        pairs: Vec<(String, Json)>,
        filters: Vec<Filter>,
        guards: Vec<CapGuard>,
    },
    Raw { sql: String, args: Vec<Json> },
}

/// Why a statement was not run to its end.
#[derive(Debug)]
pub enum Failure {
    /// It could not be rendered: the caller's mistake, in these words.
    Refused(String),
    /// It was run and failed.
    Failed(DatabaseError),
}

/// The error a failure answers with.
pub open spec fn failure_error(f: Failure) -> DatabaseError {
    match f {
        Failure::Refused(m) => DatabaseError::InvalidArgument(m),
        Failure::Failed(e) => e,
    }
}

impl Failure {
    /// The error this failure answers with.
    pub fn into_error(self) -> (r: DatabaseError)
        ensures
            r == failure_error(self),
    {
        match self {
            Failure::Refused(m) => DatabaseError::InvalidArgument(m),
            Failure::Failed(e) => e,
        }
    }
}

/// `r` is the error `e` seen from where it matters: what was being done comes
/// first. A fault that may clear on its own stays one.
pub open spec fn in_context(doing: Seq<char>, e: DatabaseError, r: DatabaseError) -> bool {
    match e {
        DatabaseError::Unavailable(m) => r matches DatabaseError::Unavailable(n) && n@ == doing
            + m@,
        _ => r matches DatabaseError::Internal(n) && n@ == doing + e.rendering(),
    }
}

/// The error `e`, with what was being done in front.
pub fn with_context(doing: &str, e: DatabaseError) -> (r: DatabaseError)
    ensures
        in_context(doing@, e, r),
{
    match e {
        DatabaseError::Unavailable(m) => DatabaseError::Unavailable(
            crate::text::join2(doing, m.as_str()),
        ),
        other => {
            let said = other.to_string();
            DatabaseError::Internal(crate::text::join2(doing, said.as_str()))
        },
    }
}

/// One rendered statement of a batch, and how its result is read.
#[derive(Clone, Copy, Debug)]
pub enum BatchOp<'a> {
    Rows { sql: &'a str, params: &'a [Json] },
    FetchOne { sql: &'a str, params: &'a [Json] },
    Execute { sql: &'a str, params: &'a [Json] },
    ScalarI64 { sql: &'a str, params: &'a [Json] },
    ScalarF64 { sql: &'a str, params: &'a [Json] },
}

impl<'a> BatchOp<'a> {
    /// The statement's text and parameters.
    pub open spec fn pair(self) -> (&'a str, &'a [Json]) {
        match self {
            BatchOp::Rows { sql, params } => (sql, params),
            BatchOp::FetchOne { sql, params } => (sql, params),
            BatchOp::Execute { sql, params } => (sql, params),
            BatchOp::ScalarI64 { sql, params } => (sql, params),
            BatchOp::ScalarF64 { sql, params } => (sql, params),
        }
    }

    /// The text and parameters that every variant carries.
    pub fn sql_params(&self) -> (r: (&'a str, &'a [Json]))
        ensures
            r == self.pair(),
    {
        match *self {
            BatchOp::Rows { sql, params } => (sql, params),
            BatchOp::FetchOne { sql, params } => (sql, params),
            BatchOp::Execute { sql, params } => (sql, params),
            BatchOp::ScalarI64 { sql, params } => (sql, params),
            BatchOp::ScalarF64 { sql, params } => (sql, params),
        }
    }
}

/// What one statement of a batch gave; `F` stands for a real number.
#[derive(Debug)]
pub enum BatchResult<F> {
    Rows(Vec<Record>),
    FetchOne(Record),
    Execute(i64),
    ScalarI64(i64),
    ScalarF64(F),
}

/// One rendered statement of a transaction.
#[derive(Clone, Copy, Debug)]
pub enum TxOp<'a> {
    Execute { sql: &'a str, params: &'a [Json] },
    Returning { sql: &'a str, params: &'a [Json] },
}

impl<'a> TxOp<'a> {
    /// The statement's text and parameters.
    pub open spec fn pair(self) -> (&'a str, &'a [Json]) {
        match self {
            TxOp::Execute { sql, params } => (sql, params),
            TxOp::Returning { sql, params } => (sql, params),
        }
    }

    /// The text and parameters that every variant carries.
    pub fn sql_params(&self) -> (r: (&'a str, &'a [Json]))
        ensures
            r == self.pair(),
    {
        match *self {
            TxOp::Execute { sql, params } => (sql, params),
            TxOp::Returning { sql, params } => (sql, params),
        }
    }
}

/// What one statement of a transaction gave.
#[derive(Debug)]
pub enum TxResult {
    /// How many rows it changed.
    Execute(i64),
    /// The rows it returned.
    Returning(Vec<Record>),
}

/// A record as it stands in a message, its columns in the order in which they
/// stand in its row.
pub open spec fn record_shown(record: Record) -> Seq<char> {
    "Record { id: "@ + text::debug_rendering(record.id@) + ", data: "@ + ("{"@
        + json::debug_entries(record.data.listed()) + "}"@) + " }"@
}

/// Records as they stand in a message.
pub open spec fn records_shown(records: Seq<Record>) -> Seq<char>
    decreases records.len(),
{
    if records.len() == 0 {
        Seq::empty()
    } else if records.len() == 1 {
        record_shown(records[0])
    } else {
        records_shown(records.drop_last()) + ", "@ + record_shown(records.last())
    }
}

fn show_record(record: &Record) -> (r: String)
    ensures
        r@ == record_shown(*record),
{
    text::join5(
        "Record { id: ",
        text::debug_text(record.id.as_str()).as_str(),
        ", data: ",
        record.data.to_debug().as_str(),
        " }",
    )
}

fn show_records(records: &Vec<Record>) -> (r: String)
    ensures
        r@ == records_shown(records@),
{
    let mut out = String::new();
    proof {
        assert(records@.take(0) =~= Seq::empty());
        assert(out@ =~= records_shown(records@.take(0)));
    }
    for i in 0..records.len()
        invariant
            out@ == records_shown(records@.take(i as int)),
    {
        proof {
            let next = records@.take(i + 1);
            assert(next.drop_last() =~= records@.take(i as int));
            assert(next.last() == records@[i as int]);
            if i == 0 {
                assert(records@.take(0) =~= Seq::empty());
            }
        }
        if i > 0 {
            out = out.concat(", ");
        }
        out = out.concat(show_record(&records[i]).as_str());
        proof {
            assert(out@ =~= records_shown(records@.take(i + 1)));
        }
    }
    proof {
        assert(records@.take(records@.len() as int) =~= records@);
    }
    out
}

/// A result of a transaction as it stands in a message.
pub open spec fn tx_shown(result: TxResult) -> Seq<char> {
    match result {
        TxResult::Execute(n) => "Execute("@ + text::decimal(n as int) + ")"@,
        TxResult::Returning(rows) => "Returning(["@ + records_shown(rows@) + "])"@,
    }
}

/// A result of a transaction as it stands in a message.
pub fn show_tx(result: &TxResult) -> (r: String)
    ensures
        r@ == tx_shown(*result),
{
    match result {
        TxResult::Execute(n) => text::join3("Execute(", text::i64_text(*n).as_str(), ")"),
        TxResult::Returning(rows) => text::join3(
            "Returning([",
            show_records(rows).as_str(),
            "])",
        ),
    }
}

/// A result of a batch, where there is one, as it stands in a message.
pub open spec fn batch_shown(result: Option<BatchResult<Double>>) -> Seq<char> {
    match result {
        None => "None"@,
        Some(BatchResult::Rows(rows)) => "Some(Rows(["@ + records_shown(rows@) + "]))"@,
        Some(BatchResult::FetchOne(row)) => "Some(FetchOne("@ + record_shown(row) + "))"@,
        Some(BatchResult::Execute(n)) => "Some(Execute("@ + text::decimal(n as int) + "))"@,
        Some(BatchResult::ScalarI64(n)) => "Some(ScalarI64("@ + text::decimal(n as int) + "))"@,
        Some(BatchResult::ScalarF64(d)) => "Some(ScalarF64("@ + d.text@ + "))"@,
    }
}

/// A result of a batch, where there is one, as it stands in a message.
pub fn show_batch(result: Option<&BatchResult<Double>>) -> (r: String)
    ensures
        r@ == batch_shown(
            match result {
                Some(x) => Some(*x),
                None => None,
            },
        ),
{
    match result {
        None => "None".to_owned(),
        Some(BatchResult::Rows(rows)) => text::join3(
            "Some(Rows([",
            show_records(rows).as_str(),
            "]))",
        ),
        Some(BatchResult::FetchOne(row)) => text::join3(
            "Some(FetchOne(",
            show_record(row).as_str(),
            "))",
        ),
        Some(BatchResult::Execute(n)) => text::join3(
            "Some(Execute(",
            text::i64_text(*n).as_str(),
            "))",
        ),
        Some(BatchResult::ScalarI64(n)) => text::join3(
            "Some(ScalarI64(",
            text::i64_text(*n).as_str(),
            "))",
        ),
        Some(BatchResult::ScalarF64(d)) => text::join3(
            "Some(ScalarF64(",
            d.text.as_str(),
            "))",
        ),
    }
}

/// A statement of a batch, before it is rendered.
#[derive(Debug)]
pub enum BatchStatement {
    Rows(Statement),
    FetchOne(Statement),
    Execute(Statement),
    ScalarI64(Statement),
    ScalarF64(Statement),
}

/// A statement of a transaction, before it is rendered.
#[derive(Debug)]
pub enum TxStatement {
    Execute(Statement),
    Returning(Statement),
}

} // verus!
