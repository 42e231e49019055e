//! Requests as they arrive, after their bytes have been read.

use vstd::prelude::*;

use crate::database::filter::{FilterNode, SortFieldDef};
use crate::database::service::CastType;
use crate::handler_util::ResourceAccess;
use crate::json::Json;
use crate::row::Row;

verus! {

/// How an operation is authorized.
#[derive(Debug, PartialEq, Eq)]
pub enum OpAccess {
    /// On one resource, for each of these.
    On(Vec<ResourceAccess>),
    /// Write by write.
    PerWrite,
}

/// What to do where the key of an upsert is taken.
#[derive(Debug)]
pub enum OnConflict {
    SetColumns(Vec<String>),
    WindowedCounter {
        count_field: String,
        window_field: String,
        now: i64,
        window_cutoff: i64,
        created_fields: Vec<String>,
        updated_fields: Vec<String>,
    },
}

/// An upsert.
#[derive(Debug)]
pub struct UpsertRequest {
    pub collection: String,
    pub data: Vec<(String, Json)>,
    pub conflict_columns: Vec<String>,
    pub on_conflict: OnConflict,
}

/// One write of a batch.
#[derive(Debug)]
pub enum BatchWrite {
    Create { collection: String, data: Row },
    Update { collection: String, id: String, data: Row },
    Delete { collection: String, id: String },
    UpdateWhere { collection: String, filters: Vec<FilterNode>, data: Row },
    DeleteWhere { collection: String, filters: Vec<FilterNode> },
    Upsert(UpsertRequest),
}

impl BatchWrite {
    /// The collection this write targets.
    pub open spec fn target(&self) -> Seq<char> {
        match self {
            BatchWrite::Create { collection, .. } => collection@,
            BatchWrite::Update { collection, .. } => collection@,
            BatchWrite::Delete { collection, .. } => collection@,
            BatchWrite::UpdateWhere { collection, .. } => collection@,
            BatchWrite::DeleteWhere { collection, .. } => collection@,
            BatchWrite::Upsert(request) => request.collection@,
        }
    }

    /// The collection this write targets.
    pub fn collection(&self) -> (r: &str)
        ensures
            r@ == self.target(),
    {
        match self {
            BatchWrite::Create { collection, .. } => collection.as_str(),
            BatchWrite::Update { collection, .. } => collection.as_str(),
            BatchWrite::Delete { collection, .. } => collection.as_str(),
            BatchWrite::UpdateWhere { collection, .. } => collection.as_str(),
            BatchWrite::DeleteWhere { collection, .. } => collection.as_str(),
            BatchWrite::Upsert(request) => request.collection.as_str(),
        }
    }
}

/// One write of a batch, with the access it is authorized for.
#[derive(Debug)]
pub struct AccessedWrite {
    pub write: BatchWrite,
    pub access: ResourceAccess,
}

/// A cap that a guarded write must stay within.
#[derive(Debug)]
pub enum CapGuardDef {
    CountBelow { filters: Vec<FilterNode>, cap: i64 },
    SumAtMost { field: String, filters: Vec<FilterNode>, add: i64, cap: i64 },
}

/// A type to cast to, as a request names it, with what that name was read as.
#[derive(Debug, PartialEq, Eq)]
pub struct CastName {
    pub text: String,
    pub parsed: Option<CastType>,
}

/// One output column of an aggregate.
#[derive(Debug)]
pub enum AggregateColumnDef {
    Count { alias: String },
    Sum { field: String, alias: String, cast_as: Option<CastName> },
    Avg { field: String, alias: String, cast_as: Option<CastName> },
    Max { field: String, alias: String },
    CaseWhenSum { when: Vec<FilterNode>, alias: String },
    SumWhere {
        field: String,
        when: Vec<FilterNode>,
        alias: String,
        cast_as: Option<CastName>,
    },
}

/// One term by which an aggregate groups.
#[derive(Debug)]
pub enum GroupByDef {
    Column(String),
    DateBucket { field: String },
}

/// A grouped aggregate.
#[derive(Debug)]
pub struct AggregateRequest {
    pub collection: String,
    pub select_columns: Vec<String>,
    pub aggregates: Vec<AggregateColumnDef>,
    pub filters: Vec<FilterNode>,
    pub group_by: Vec<GroupByDef>,
    pub sort: Vec<SortFieldDef>,
    pub limit: i64,
}

/// A default of a declared column.
#[derive(Debug)]
pub struct DefaultDef {
    pub kind: String,
    pub value: Json,
}

/// A column of a declared table.
#[derive(Debug)]
pub struct ColumnDef {
    pub name: String,
    pub kind: String,
    pub nullable: bool,
    pub primary_key: bool,
    pub auto_increment: bool,
    pub unique: bool,
    pub default: Option<DefaultDef>,
}

/// An index of a declared table.
#[derive(Debug)]
pub struct IndexDef {
    pub name: String,
    pub columns: Vec<String>,
    pub unique: bool,
}

/// A declared table.
#[derive(Debug)]
pub struct TableDef {
    pub name: String,
    pub columns: Vec<ColumnDef>,
    pub indexes: Vec<IndexDef>,
    pub primary_key: Vec<String>,
    pub unique_keys: Vec<Vec<String>>,
}

/// A list of records.
#[derive(Debug)]
pub struct ListRequest {
    pub collection: String,
    pub filters: Vec<FilterNode>,
    pub sort: Vec<SortFieldDef>,
    pub limit: Option<i64>,
    pub offset: i64,
    pub skip_count: bool,
    pub columns: Option<Vec<String>>,
}

/// One request.
#[derive(Debug)]
pub enum WireRequest {
    Get { collection: String, id: String },
    List(ListRequest),
    Create { collection: String, data: Row },
    CreateMany { collection: String, rows: Vec<Row> },
    Batch { ops: Vec<AccessedWrite> },
    InsertGuarded { collection: String, data: Row, guards: Vec<CapGuardDef> },
    UpdateGuarded {
        collection: String,
        filters: Vec<FilterNode>,
        data: Row,
        guards: Vec<CapGuardDef>,
    },
    Update { collection: String, id: String, data: Row },
    Delete { collection: String, id: String },
    Count { collection: String, filters: Vec<FilterNode> },
    QueryRaw { query: String, args: Vec<Json> },
    Sum { collection: String, field: String, filters: Vec<FilterNode> },
    ExecRaw { query: String, args: Vec<Json> },
    /// A raw statement that changes the schema, under a resource of its own.
    Ddl { query: String, args: Vec<Json> },
    DeleteWhere { collection: String, filters: Vec<FilterNode> },
    DeleteWhereCount { collection: String, filters: Vec<FilterNode> },
    TakeWhere { collection: String, filters: Vec<FilterNode> },
    UpdateWhere { collection: String, filters: Vec<FilterNode>, data: Row },
    UpdateWhereCount { collection: String, filters: Vec<FilterNode>, data: Row },
    IncrementFieldWhere { collection: String, col: String, delta: i64, filters: Vec<FilterNode> },
    Upsert(UpsertRequest),
    Aggregate(AggregateRequest),
    EnsureTable { table: TableDef },
    AddColumn { table_name: String, column: ColumnDef },
    DropTable { table_name: String },
    TableExists { table_name: String },
}

} // verus!
