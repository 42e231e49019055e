//! What a database service takes and gives back, as plain data.

use vstd::prelude::*;

use crate::database::filter;
use crate::database::filter::{
    clone_filters, push_tree_columns, Filter, FilterTree, FilterView, SortField,
};
use crate::error::{DetailCode, ErrorCode};
use crate::json::Json;
use crate::row::Row;
use crate::text;

verus! {

// ---------------------------------------------------------------------------
// Errors
// ---------------------------------------------------------------------------

/// Why a database operation failed.
#[derive(Debug, PartialEq, Eq)]
pub enum DatabaseError {
    /// No record with the requested id exists.
    NotFound,
    /// A write would duplicate a primary or unique key.
    AlreadyExists(String),
    /// The request names a table or column that is refused, or asks for a page
    /// that cannot be rendered.
    InvalidArgument(String),
    /// One request asks for more statements than the backend ever runs at once.
    StatementLimitExceeded(String),
    /// The invocation has used up the statements the backend runs for it.
    ResourceExhausted(String),
    /// A fault that says nothing about the request and may clear on its own.
    Unavailable(String),
    /// A failure inside the backend.
    Internal(String),
    /// What a backend's driver reported.
    Other(String),
}

impl DatabaseError {
    /// The code that answers this error.
    pub open spec fn answer_code(&self) -> ErrorCode {
        match self {
            DatabaseError::NotFound => ErrorCode::NotFound,
            DatabaseError::AlreadyExists(_) => ErrorCode::AlreadyExists,
            DatabaseError::InvalidArgument(_) => ErrorCode::InvalidArgument,
            DatabaseError::StatementLimitExceeded(_) => ErrorCode::InvalidArgument,
            DatabaseError::ResourceExhausted(_) => ErrorCode::ResourceExhausted,
            DatabaseError::Unavailable(_) => ErrorCode::Unavailable,
            DatabaseError::Internal(_) => ErrorCode::Internal,
            DatabaseError::Other(_) => ErrorCode::Internal,
        }
    }

    /// The detail that tells a statement refusal from the others of its code.
    pub open spec fn answer_detail(&self) -> Option<DetailCode> {
        match self {
            DatabaseError::StatementLimitExceeded(_) => Some(DetailCode::StatementLimitExceeded),
            DatabaseError::ResourceExhausted(_) => Some(DetailCode::StatementBudgetExhausted),
            _ => None,
        }
    }

    /// What this error says.
    pub open spec fn rendering(&self) -> Seq<char> {
        match self {
            DatabaseError::NotFound => "record not found"@,
            DatabaseError::AlreadyExists(m) => "unique constraint violated: "@ + m@,
            DatabaseError::InvalidArgument(m) => "invalid argument: "@ + m@,
            DatabaseError::StatementLimitExceeded(m) => m@,
            DatabaseError::ResourceExhausted(m) => m@,
            DatabaseError::Unavailable(m) => "database unavailable: "@ + m@,
            DatabaseError::Internal(m) => "database error: "@ + m@,
            DatabaseError::Other(m) => m@,
        }
    }

    /// The code that answers this error: the variant's own for a missing
    /// record, a taken key, a refused argument, a used-up budget and a
    /// transient fault, `Internal` otherwise.
    pub fn code(&self) -> (r: ErrorCode)
        ensures
            r == self.answer_code(),
    {
        match self {
            DatabaseError::NotFound => ErrorCode::NotFound,
            DatabaseError::AlreadyExists(_) => ErrorCode::AlreadyExists,
            DatabaseError::InvalidArgument(_) => ErrorCode::InvalidArgument,
            DatabaseError::StatementLimitExceeded(_) => ErrorCode::InvalidArgument,
            DatabaseError::ResourceExhausted(_) => ErrorCode::ResourceExhausted,
            DatabaseError::Unavailable(_) => ErrorCode::Unavailable,
            DatabaseError::Internal(_) => ErrorCode::Internal,
            DatabaseError::Other(_) => ErrorCode::Internal,
        }
    }

    /// The detail that tells a statement refusal from the others of its code.
    pub fn detail_code(&self) -> (r: Option<DetailCode>)
        ensures
            r == self.answer_detail(),
    {
        match self {
            DatabaseError::StatementLimitExceeded(_) => Some(DetailCode::StatementLimitExceeded),
            DatabaseError::ResourceExhausted(_) => Some(DetailCode::StatementBudgetExhausted),
            _ => None,
        }
    }

    /// What this error says.
    pub fn to_string(&self) -> (r: String)
        ensures
            r@ == self.rendering(),
    {
        match self {
            DatabaseError::NotFound => "record not found".to_owned(),
            DatabaseError::AlreadyExists(m) => text::join2(
                "unique constraint violated: ",
                m.as_str(),
            ),
            DatabaseError::InvalidArgument(m) => text::join2("invalid argument: ", m.as_str()),
            DatabaseError::StatementLimitExceeded(m) => m.clone(),
            DatabaseError::ResourceExhausted(m) => m.clone(),
            DatabaseError::Unavailable(m) => text::join2("database unavailable: ", m.as_str()),
            DatabaseError::Internal(m) => text::join2("database error: ", m.as_str()),
            DatabaseError::Other(m) => m.clone(),
        }
    }
}

// ---------------------------------------------------------------------------
// Records
// ---------------------------------------------------------------------------

/// A record: its key as text, and its columns.
#[derive(Debug)]
pub struct Record {
    pub id: String,
    pub data: Row,
}

/// One page of records.
#[derive(Debug)]
pub struct RecordList {
    pub records: Vec<Record>,
    /// Matching rows over all pages; the number of records on this one where
    /// they were not counted.
    pub total_count: i64,
    /// Which page this is, from 1.
    pub page: i64,
    pub page_size: i64,
}

/// Which records to list, and which of them.
#[derive(Debug)]
pub struct ListOptions {
    /// Conditions that all hold.
    pub filters: Vec<Filter>,
    /// Further conditions that all hold, groups among them.
    pub filter_tree: Option<Vec<FilterTree>>,
    pub sort: Vec<SortField>,
    /// At most this many records; every record where there is no limit.
    pub limit: Option<i64>,
    /// How many records to leave out first.
    pub offset: i64,
    /// Not to count the records over all pages.
    pub skip_count: bool,
    /// The columns to read; every column where none are named.
    pub columns: Option<Vec<String>>,
}

// ---------------------------------------------------------------------------
// Writes
// ---------------------------------------------------------------------------

/// Which row to insert, and what to do where its key is taken.
#[derive(Debug)]
pub struct UpsertSpec {
    /// The columns of the row, in order.
    pub data: Vec<(String, Json)>,
    /// The columns whose key may be taken.
    pub conflict_columns: Vec<String>,
    pub on_conflict: UpsertConflict,
}

/// What to do where the key of an upsert is taken.
#[derive(Debug)]
pub enum UpsertConflict {
    /// Set these columns to the new row's values; do nothing where there are
    /// none.
    SetColumns(Vec<String>),
    /// Count within a sliding window, in one step.
    WindowedCounter {
        count_field: String,
        window_field: String,
        now: i64,
        window_cutoff: i64,
        created_fields: Vec<String>,
        updated_fields: Vec<String>,
    },
}

/// One write of a batch.
#[derive(Debug)]
pub enum WriteOp {
    Create { collection: String, data: Row },
    Update { collection: String, id: String, data: Row },
    Delete { collection: String, id: String },
    UpdateWhere { collection: String, filters: Vec<Filter>, data: Row },
    DeleteWhere { collection: String, filters: Vec<Filter> },
    Upsert { collection: String, spec: UpsertSpec },
}

impl WriteOp {
    /// The collection this write targets.
    pub open spec fn target(&self) -> Seq<char> {
        match self {
            WriteOp::Create { collection, .. } => collection@,
            WriteOp::Update { collection, .. } => collection@,
            WriteOp::Delete { collection, .. } => collection@,
            WriteOp::UpdateWhere { collection, .. } => collection@,
            WriteOp::DeleteWhere { collection, .. } => collection@,
            WriteOp::Upsert { collection, .. } => collection@,
        }
    }

    /// The collection this write targets.
    pub fn collection(&self) -> (r: &str)
        ensures
            r@ == self.target(),
    {
        match self {
            WriteOp::Create { collection, .. } => collection.as_str(),
            WriteOp::Update { collection, .. } => collection.as_str(),
            WriteOp::Delete { collection, .. } => collection.as_str(),
            WriteOp::UpdateWhere { collection, .. } => collection.as_str(),
            WriteOp::DeleteWhere { collection, .. } => collection.as_str(),
            WriteOp::Upsert { collection, .. } => collection.as_str(),
        }
    }
}

/// What one write of a batch did.
#[derive(Debug)]
pub enum WriteOutcome {
    /// The row as stored.
    Created(Record),
    /// The row as it now is; `None` where the id matched none.
    Updated(Option<Record>),
    Deleted { rows_affected: i64 },
    UpdatedWhere { rows_affected: i64 },
    DeletedWhere { rows_affected: i64 },
    Upserted { rows_affected: i64 },
}

/// A cap that a guarded write must stay within, over the table as it stands
/// before the write.
#[derive(Debug)]
pub enum CapGuard {
    /// Fewer than `cap` rows match the filters.
    CountBelow { filters: Vec<Filter>, cap: i64 },
    /// The sum of `field` over the matching rows, plus `add`, is at most `cap`.
    SumAtMost { field: String, filters: Vec<Filter>, add: i64, cap: i64 },
}

/// A [`CapGuard`], as mathematics.
pub enum CapGuardView {
    CountBelow { filters: Seq<FilterView>, cap: i64 },
    SumAtMost { field: Seq<char>, filters: Seq<FilterView>, add: i64, cap: i64 },
}

impl View for CapGuard {
    type V = CapGuardView;

    open spec fn view(&self) -> CapGuardView {
        match self {
            CapGuard::CountBelow { filters, cap } => CapGuardView::CountBelow {
                filters: text::views(filters@),
                cap: *cap,
            },
            CapGuard::SumAtMost { field, filters, add, cap } => CapGuardView::SumAtMost {
                field: field@,
                filters: text::views(filters@),
                add: *add,
                cap: *cap,
            },
        }
    }
}

/// A list of guards that says the same.
pub fn clone_guards(guards: &Vec<CapGuard>) -> (r: Vec<CapGuard>)
    ensures
        text::views(r@) == text::views(guards@),
{
    let mut out: Vec<CapGuard> = Vec::new();
    for i in 0..guards.len()
        invariant
            out@.len() == i,
            forall|k: int| 0 <= k < i ==> #[trigger] out@[k]@ == guards@[k]@,
    {
        let guard = match &guards[i] {
            CapGuard::CountBelow { filters, cap } => CapGuard::CountBelow {
                filters: clone_filters(filters),
                cap: *cap,
            },
            CapGuard::SumAtMost { field, filters, add, cap } => CapGuard::SumAtMost {
                field: field.clone(),
                filters: clone_filters(filters),
                add: *add,
                cap: *cap,
            },
        };
        out.push(guard);
    }
    proof {
        assert(text::views(out@) =~= text::views(guards@));
    }
    out
}

/// What a guarded insert did.
#[derive(Debug)]
pub enum GuardedInsert {
    /// Every guard held; the row as stored.
    Inserted(Record),
    /// The guard at this index refused, the first that did; nothing was written.
    Refused { guard: usize },
}

/// What a guarded update did.
#[derive(Debug, PartialEq, Eq)]
pub enum GuardedUpdate {
    /// Every guard held, and this many rows were updated, at least one.
    Updated { rows_affected: i64 },
    /// The guard at this index refused, the first that did; nothing was written.
    Refused { guard: usize },
    /// Every guard held and no row matched, or there is no such table.
    NoMatch,
}

// ---------------------------------------------------------------------------
// Aggregates
// ---------------------------------------------------------------------------

/// The type an aggregate's result is cast to.
#[derive(Clone, Copy, Debug, PartialEq, Eq, Structural)]
pub enum CastType {
    BigInt,
    Double,
}

/// One output column of an aggregate.
#[derive(Debug)]
pub enum AggregateColumnSpec {
    /// The number of rows.
    Count { alias: String },
    Sum { field: String, alias: String, cast_as: Option<CastType> },
    Avg { field: String, alias: String, cast_as: Option<CastType> },
    Max { field: String, alias: String },
    /// The number of rows where the predicate holds.
    CaseWhenSum { when: Vec<FilterTree>, alias: String },
    /// The sum of `field` over the rows where the predicate holds.
    SumWhere { field: String, when: Vec<FilterTree>, alias: String, cast_as: Option<CastType> },
}

/// One term by which an aggregate groups.
#[derive(Debug, PartialEq, Eq)]
pub enum GroupBySpec {
    Column(String),
    /// The day of a timestamp, given out under the field's own name.
    DateBucket { field: String },
}

/// A grouped aggregate.
#[derive(Debug)]
pub struct AggregateSpec {
    pub select_columns: Vec<String>,
    pub aggregates: Vec<AggregateColumnSpec>,
    pub filters: Vec<Filter>,
    pub group_by: Vec<GroupBySpec>,
    /// Sort keys; an alias may be one.
    pub sort: Vec<SortField>,
    /// At most this many groups; zero or less means every group.
    pub limit: i64,
}

/// Which function an aggregate column applies.
#[derive(Clone, Copy, Debug, PartialEq, Eq, Structural)]
pub enum AggFunc {
    Count,
    Sum,
    Avg,
    Max,
}

/// What a conditional aggregate sums over the rows where its predicate holds.
#[derive(Debug)]
pub enum CaseSum {
    /// One for each row.
    One { when: Vec<FilterTree> },
    /// The field of each row.
    Field { field: String, when: Vec<FilterTree> },
}

/// One output column of a grouped query.
#[derive(Debug)]
pub struct AggregateColumn {
    pub func: AggFunc,
    pub field: Option<String>,
    pub alias: String,
    pub cast_as: Option<CastType>,
    /// What is summed in place of a field, for a conditional aggregate.
    pub inner: Option<CaseSum>,
}

/// A day bucket of a grouped query.
#[derive(Debug, PartialEq, Eq)]
pub struct DateBucketGroup {
    pub alias: String,
    pub field: String,
}

/// A grouped query, ready to be rendered.
#[derive(Debug)]
pub struct GroupedQueryConfig {
    pub table: String,
    pub select_columns: Vec<String>,
    pub aggregates: Vec<AggregateColumn>,
    pub filters: Vec<Filter>,
    pub group_by: Vec<String>,
    pub date_buckets: Vec<DateBucketGroup>,
    pub order_by: Vec<SortField>,
    pub limit: Option<i64>,
}

impl AggregateColumnSpec {
    /// The name under which the column is given out.
    pub open spec fn alias(&self) -> Seq<char> {
        match self {
            AggregateColumnSpec::Count { alias } => alias@,
            AggregateColumnSpec::Sum { alias, .. } => alias@,
            AggregateColumnSpec::Avg { alias, .. } => alias@,
            AggregateColumnSpec::Max { alias, .. } => alias@,
            AggregateColumnSpec::CaseWhenSum { alias, .. } => alias@,
            AggregateColumnSpec::SumWhere { alias, .. } => alias@,
        }
    }

    /// The table columns this column reads, in order.
    pub open spec fn reads(&self) -> Seq<Seq<char>> {
        match self {
            AggregateColumnSpec::Count { .. } => Seq::empty(),
            AggregateColumnSpec::Sum { field, .. } => seq![field@],
            AggregateColumnSpec::Avg { field, .. } => seq![field@],
            AggregateColumnSpec::Max { field, .. } => seq![field@],
            AggregateColumnSpec::CaseWhenSum { when, .. } => filter::tree_columns(when@),
            AggregateColumnSpec::SumWhere { field, when, .. } => seq![field@]
                + filter::tree_columns(when@),
        }
    }

    /// This column as a grouped query has it.
    pub open spec fn rendered(self) -> AggregateColumn {
        match self {
            AggregateColumnSpec::Count { alias } => AggregateColumn {
                func: AggFunc::Count,
                field: None,
                alias,
                cast_as: None,
                inner: None,
            },
            AggregateColumnSpec::Sum { field, alias, cast_as } => AggregateColumn {
                func: AggFunc::Sum,
                field: Some(field),
                alias,
                cast_as,
                inner: None,
            },
            AggregateColumnSpec::Avg { field, alias, cast_as } => AggregateColumn {
                func: AggFunc::Avg,
                field: Some(field),
                alias,
                cast_as,
                inner: None,
            },
            AggregateColumnSpec::Max { field, alias } => AggregateColumn {
                func: AggFunc::Max,
                field: Some(field),
                alias,
                cast_as: None,
                inner: None,
            },
            AggregateColumnSpec::CaseWhenSum { when, alias } => AggregateColumn {
                func: AggFunc::Sum,
                field: None,
                alias,
                cast_as: None,
                inner: Some(CaseSum::One { when }),
            },
            AggregateColumnSpec::SumWhere { field, when, alias, cast_as } => AggregateColumn {
                func: AggFunc::Sum,
                field: None,
                alias,
                cast_as,
                inner: Some(CaseSum::Field { field, when }),
            },
        }
    }

    fn into_column(self) -> (r: AggregateColumn)
        ensures
            r == self.rendered(),
    {
        match self {
            AggregateColumnSpec::Count { alias } => AggregateColumn {
                func: AggFunc::Count,
                field: None,
                alias,
                cast_as: None,
                inner: None,
            },
            AggregateColumnSpec::Sum { field, alias, cast_as } => AggregateColumn {
                func: AggFunc::Sum,
                field: Some(field),
                alias,
                cast_as,
                inner: None,
            },
            AggregateColumnSpec::Avg { field, alias, cast_as } => AggregateColumn {
                func: AggFunc::Avg,
                field: Some(field),
                alias,
                cast_as,
                inner: None,
            },
            AggregateColumnSpec::Max { field, alias } => AggregateColumn {
                func: AggFunc::Max,
                field: Some(field),
                alias,
                cast_as: None,
                inner: None,
            },
            AggregateColumnSpec::CaseWhenSum { when, alias } => AggregateColumn {
                func: AggFunc::Sum,
                field: None,
                alias,
                cast_as: None,
                inner: Some(CaseSum::One { when }),
            },
            AggregateColumnSpec::SumWhere { field, when, alias, cast_as } => AggregateColumn {
                func: AggFunc::Sum,
                field: None,
                alias,
                cast_as,
                inner: Some(CaseSum::Field { field, when }),
            },
        }
    }
}

impl GroupBySpec {
    /// The table column this term reads.
    pub open spec fn reads(&self) -> Seq<char> {
        match self {
            GroupBySpec::Column(c) => c@,
            GroupBySpec::DateBucket { field } => field@,
        }
    }
}

/// The table columns that aggregate columns read, in order.
pub open spec fn aggregate_reads(s: Seq<AggregateColumnSpec>) -> Seq<Seq<char>>
    decreases s.len(),
{
    if s.len() == 0 {
        Seq::empty()
    } else {
        aggregate_reads(s.drop_last()) + s.last().reads()
    }
}

/// The table columns that group terms read, in order.
pub open spec fn group_reads(s: Seq<GroupBySpec>) -> Seq<Seq<char>> {
    s.map_values(|g: GroupBySpec| g.reads())
}

/// The plain columns among group terms, in order.
pub open spec fn plain_groups(s: Seq<GroupBySpec>) -> Seq<String>
    decreases s.len(),
{
    if s.len() == 0 {
        Seq::empty()
    } else {
        match s.last() {
            GroupBySpec::Column(c) => plain_groups(s.drop_last()).push(c),
            GroupBySpec::DateBucket { .. } => plain_groups(s.drop_last()),
        }
    }
}

/// The day buckets among group terms, in order, each under its own name.
pub open spec fn day_groups(s: Seq<GroupBySpec>) -> Seq<DateBucketGroup>
    decreases s.len(),
{
    if s.len() == 0 {
        Seq::empty()
    } else {
        match s.last() {
            GroupBySpec::Column(_) => day_groups(s.drop_last()),
            GroupBySpec::DateBucket { field } => day_groups(s.drop_last()).push(
                DateBucketGroup { alias: field, field },
            ),
        }
    }
}

impl AggregateSpec {
    /// The names under which the aggregates are given out, in order.
    pub open spec fn alias_names(&self) -> Seq<Seq<char>> {
        self.aggregates@.map_values(|a: AggregateColumnSpec| a.alias())
    }

    /// Every table column the query reads, sort keys apart: those selected,
    /// aggregated, grouped by and filtered on, in that order.
    pub open spec fn reads(&self) -> Seq<Seq<char>> {
        text::views(self.select_columns@) + aggregate_reads(self.aggregates@) + group_reads(
            self.group_by@,
        ) + filter::filter_columns(self.filters@)
    }

    /// The names under which the aggregates are given out, in order.
    pub fn aliases(&self) -> (r: Vec<&str>)
        ensures
            text::views(r@) == self.alias_names(),
    {
        let mut out: Vec<&str> = Vec::new();
        for i in 0..self.aggregates.len()
            invariant
                out@.len() == i,
                forall|k: int| 0 <= k < i ==> #[trigger] out@[k]@ == self.aggregates@[k].alias(),
        {
            let alias: &str = match &self.aggregates[i] {
                AggregateColumnSpec::Count { alias } => alias.as_str(),
                AggregateColumnSpec::Sum { alias, .. } => alias.as_str(),
                AggregateColumnSpec::Avg { alias, .. } => alias.as_str(),
                AggregateColumnSpec::Max { alias, .. } => alias.as_str(),
                AggregateColumnSpec::CaseWhenSum { alias, .. } => alias.as_str(),
                AggregateColumnSpec::SumWhere { alias, .. } => alias.as_str(),
            };
            out.push(alias);
        }
        proof {
            assert(text::views(out@) =~= self.alias_names());
        }
        out
    }

    /// Every table column the query reads. Sort keys are not among them: one
    /// may name an alias.
    pub fn read_columns(&self) -> (r: Vec<&str>)
        ensures
            text::views(r@) == self.reads(),
    {
        let mut out: Vec<&str> = Vec::new();
        for i in 0..self.select_columns.len()
            invariant
                out@.len() == i,
                forall|k: int| 0 <= k < i ==> #[trigger] out@[k]@ == self.select_columns@[k]@,
        {
            out.push(self.select_columns[i].as_str());
        }
        let ghost selected = text::views(self.select_columns@);
        proof {
            assert(text::views(out@) =~= selected);
            assert(self.aggregates@.take(0) =~= Seq::empty());
            assert(text::views(out@) =~= selected + aggregate_reads(self.aggregates@.take(0)));
        }
        for i in 0..self.aggregates.len()
            invariant
                text::views(out@) == selected + aggregate_reads(self.aggregates@.take(i as int)),
        {
            let ghost before = out@;
            let ghost next = self.aggregates@.take(i + 1);
            proof {
                assert(next.drop_last() =~= self.aggregates@.take(i as int));
                assert(next.last() == self.aggregates@[i as int]);
            }
            match &self.aggregates[i] {
                AggregateColumnSpec::Count { .. } => {},
                AggregateColumnSpec::Sum { field, .. } => out.push(field.as_str()),
                AggregateColumnSpec::Avg { field, .. } => out.push(field.as_str()),
                AggregateColumnSpec::Max { field, .. } => out.push(field.as_str()),
                AggregateColumnSpec::CaseWhenSum { when, .. } => push_tree_columns(when, &mut out),
                AggregateColumnSpec::SumWhere { field, when, .. } => {
                    out.push(field.as_str());
                    proof {
                        assert(text::views(out@) =~= text::views(before) + seq![field@]);
                    }
                    push_tree_columns(when, &mut out);
                },
            }
            proof {
                assert(text::views(out@) =~= text::views(before) + next.last().reads());
                assert(text::views(out@) =~= selected + aggregate_reads(next));
            }
        }
        proof {
            assert(self.aggregates@.take(self.aggregates@.len() as int) =~= self.aggregates@);
        }
        let ghost aggregated = text::views(out@);
        for i in 0..self.group_by.len()
            invariant
                aggregated == selected + aggregate_reads(self.aggregates@),
                text::views(out@) == aggregated + group_reads(self.group_by@.take(i as int)),
        {
            let ghost before = out@;
            match &self.group_by[i] {
                GroupBySpec::Column(c) => out.push(c.as_str()),
                GroupBySpec::DateBucket { field } => out.push(field.as_str()),
            }
            proof {
                assert(group_reads(self.group_by@.take(i + 1)) =~= group_reads(
                    self.group_by@.take(i as int),
                ).push(self.group_by@[i as int].reads()));
                assert(text::views(out@) =~= text::views(before).push(
                    self.group_by@[i as int].reads(),
                ));
                assert(text::views(out@) =~= aggregated + group_reads(self.group_by@.take(i + 1)));
            }
        }
        proof {
            assert(self.group_by@.take(self.group_by@.len() as int) =~= self.group_by@);
        }
        let ghost grouped = text::views(out@);
        for i in 0..self.filters.len()
            invariant
                grouped == selected + aggregate_reads(self.aggregates@) + group_reads(
                    self.group_by@,
                ),
                text::views(out@) == grouped + filter::filter_columns(self.filters@.take(i as int)),
        {
            let ghost before = out@;
            out.push(self.filters[i].field.as_str());
            proof {
                assert(filter::filter_columns(self.filters@.take(i + 1)) =~= filter::filter_columns(
                    self.filters@.take(i as int),
                ).push(self.filters@[i as int].field@));
                assert(text::views(out@) =~= text::views(before).push(
                    self.filters@[i as int].field@,
                ));
                assert(text::views(out@) =~= grouped + filter::filter_columns(
                    self.filters@.take(i + 1),
                ));
            }
        }
        proof {
            assert(self.filters@.take(self.filters@.len() as int) =~= self.filters@);
        }
        out
    }

    /// The grouped query over `table` that this aggregate asks for.
    pub fn into_grouped_config(self, table: String) -> (r: GroupedQueryConfig)
        ensures
            r.table == table,
            r.select_columns == self.select_columns,
            r.aggregates@ == self.aggregates@.map_values(|a: AggregateColumnSpec| a.rendered()),
            r.filters == self.filters,
            r.group_by@ == plain_groups(self.group_by@),
            r.date_buckets@ == day_groups(self.group_by@),
            r.order_by == self.sort,
            r.limit == if self.limit > 0 {
                Some(self.limit)
            } else {
                None
            },
    {
        let ghost given = self;
        let mut aggregates: Vec<AggregateColumn> = Vec::new();
        for a in it: self.aggregates
            invariant
                it.seq() == given.aggregates@,
                aggregates@.len() == it.index(),
                forall|k: int|
                    0 <= k < it.index() ==> (#[trigger] aggregates@[k])
                        == given.aggregates@[k].rendered(),
        {
            aggregates.push(a.into_column());
        }
        let mut group_by: Vec<String> = Vec::new();
        let mut date_buckets: Vec<DateBucketGroup> = Vec::new();
        proof {
            assert(given.group_by@.take(0) =~= Seq::empty());
        }
        for g in it: self.group_by
            invariant
                it.seq() == given.group_by@,
                group_by@ == plain_groups(given.group_by@.take(it.index())),
                date_buckets@ == day_groups(given.group_by@.take(it.index())),
        {
            proof {
                let next = given.group_by@.take(it.index() + 1);
                assert(next.drop_last() =~= given.group_by@.take(it.index()));
                assert(next.last() == g);
            }
            match g {
                GroupBySpec::Column(c) => group_by.push(c),
                GroupBySpec::DateBucket { field } => {
                    let alias = field.clone();
                    date_buckets.push(DateBucketGroup { alias, field });
                },
            }
        }
        proof {
            assert(given.group_by@.take(given.group_by@.len() as int) =~= given.group_by@);
            assert(aggregates@ =~= given.aggregates@.map_values(
                |a: AggregateColumnSpec| a.rendered(),
            ));
        }
        GroupedQueryConfig {
            table,
            select_columns: self.select_columns,
            aggregates,
            filters: self.filters,
            group_by,
            date_buckets,
            order_by: self.sort,
            limit: if self.limit > 0 {
                Some(self.limit)
            } else {
                None
            },
        }
    }
}

} // verus!
