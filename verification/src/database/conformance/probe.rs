//! What the suite asks of a service: calls, written down as plain data.

use vstd::prelude::*;

use crate::database::conformance::list::{list, List};
use crate::database::filter::{ColumnCompareOp, FilterOp};
use crate::database::schema::DataType;
use crate::database::service::CastType;

verus! {

/// A value to write, to filter by, or to expect.
#[derive(Debug)]
pub enum Datum {
    Null,
    Bool(bool),
    Int(i64),
    /// A number that is no signed 64-bit integer: its JSON text, its shortest
    /// decimal form, what it is rounded toward zero, and its bits.
    Real {
        text: &'static str,
        display: &'static str,
        truncated: i64,
        unsigned: Option<u64>,
        bits: u64,
    },
    Text(&'static str),
    Array(Box<List<Datum>>),
    /// An object, its entries in the order of their keys.
    Object(Box<List<Entry>>),
}

/// A value under a name.
#[derive(Debug)]
pub struct Entry {
    pub name: &'static str,
    pub value: Datum,
}

/// A comparison of a column with a value.
#[derive(Debug)]
pub struct Condition {
    pub field: &'static str,
    pub operator: FilterOp,
    pub value: Datum,
}

/// A condition, a comparison of two columns, or several of which one holds.
#[derive(Debug)]
pub enum Tree {
    Leaf(Condition),
    Columns { field: &'static str, operator: ColumnCompareOp, column: &'static str },
    Any(Box<List<Tree>>),
}

/// A key to sort by.
#[derive(Debug)]
pub struct Key {
    pub field: &'static str,
    pub desc: bool,
}

/// Which records to list.
#[derive(Debug)]
pub struct Listing {
    pub filters: List<Condition>,
    pub trees: Option<List<Tree>>,
    pub sort: List<Key>,
    pub limit: Option<i64>,
    pub offset: i64,
    pub columns: Option<List<&'static str>>,
}

/// What to do where the key of a row is taken.
#[derive(Debug)]
pub enum Taken {
    /// Set these columns.
    Overwrite(List<&'static str>),
    /// Count within a window that began after `cutoff`.
    Count { now: i64, cutoff: i64 },
}

/// A row to insert unless its key is taken.
#[derive(Debug)]
pub struct Upserting {
    pub data: List<Entry>,
    pub conflict: List<&'static str>,
    pub taken: Taken,
}

/// One output column of an aggregate.
#[derive(Debug)]
pub enum Measure {
    Count { alias: &'static str },
    Sum { field: &'static str, alias: &'static str, cast_as: Option<CastType> },
    Avg { field: &'static str, alias: &'static str, cast_as: Option<CastType> },
    Max { field: &'static str, alias: &'static str },
    CountWhere { when: List<Tree>, alias: &'static str },
    SumWhere {
        field: &'static str,
        when: List<Tree>,
        alias: &'static str,
        cast_as: Option<CastType>,
    },
}

/// One term to group by.
#[derive(Debug)]
pub enum Group {
    Column(&'static str),
    Day(&'static str),
}

/// A grouped aggregate over every group.
#[derive(Debug)]
pub struct Summary {
    pub select: List<&'static str>,
    pub measures: List<Measure>,
    pub filters: List<Condition>,
    pub groups: List<Group>,
    pub sort: List<Key>,
}

/// A column to declare.
#[derive(Debug)]
pub struct ColumnShape {
    pub name: &'static str,
    pub data_type: DataType,
    pub nullable: bool,
    pub primary_key: bool,
    pub auto_increment: bool,
    pub unique: bool,
}

/// A table to declare.
#[derive(Debug)]
pub struct TableShape {
    pub name: &'static str,
    pub columns: List<ColumnShape>,
    /// The columns of a key over several columns.
    pub primary_key: List<&'static str>,
}

/// A cap on what a table may hold.
#[derive(Debug)]
pub enum Cap {
    CountBelow { filters: List<Condition>, cap: i64 },
    SumAtMost { field: &'static str, filters: List<Condition>, add: i64, cap: i64 },
}

/// One write of a batch.
#[derive(Debug)]
pub enum Write {
    Create { table: &'static str, data: List<Entry> },
    Update { table: &'static str, id: &'static str, data: List<Entry> },
    Delete { table: &'static str, id: &'static str },
    UpdateWhere { table: &'static str, filters: List<Condition>, data: List<Entry> },
    DeleteWhere { table: &'static str, filters: List<Condition> },
    Upsert { table: &'static str, row: Upserting },
}

/// One call of a service.
#[derive(Debug)]
pub enum Call {
    Get { table: &'static str, id: &'static str },
    List { table: &'static str, listing: Listing },
    Count { table: &'static str, filters: List<Condition> },
    Sum { table: &'static str, field: &'static str, filters: List<Condition> },
    Create { table: &'static str, data: List<Entry> },
    CreateMany { table: &'static str, rows: List<List<Entry>> },
    /// Creates this many rows, numbered from zero; every third has a note.
    CreateNumbered { table: &'static str, count: u64 },
    InsertGuarded { table: &'static str, data: List<Entry>, caps: List<Cap> },
    UpdateGuarded {
        table: &'static str,
        filters: List<Condition>,
        data: List<Entry>,
        caps: List<Cap>,
    },
    Update { table: &'static str, id: &'static str, data: List<Entry> },
    Delete { table: &'static str, id: &'static str },
    DeleteWhere { table: &'static str, filters: List<Condition> },
    DeleteWhereCount { table: &'static str, filters: List<Condition> },
    TakeWhere { table: &'static str, filters: List<Condition> },
    UpdateWhere { table: &'static str, filters: List<Condition>, data: List<Entry> },
    UpdateWhereCount { table: &'static str, filters: List<Condition>, data: List<Entry> },
    Increment { table: &'static str, field: &'static str, delta: i64, filters: List<Condition> },
    Upsert { table: &'static str, row: Upserting },
    Aggregate { table: &'static str, summary: Summary },
    /// A statement that reads, with its values written out in it.
    QueryRaw { query: &'static str },
    /// A statement that writes, with its values written out in it.
    ExecRaw { query: &'static str },
    Batch(List<Write>),
    TableExists { table: &'static str },
    Columns { table: &'static str },
    EnsureTable(TableShape),
    EnsureTables(List<TableShape>),
    AddColumn { table: &'static str, column: ColumnShape },
    DropTable { table: &'static str },
    Strict(bool),
    /// As many guarded inserts of one row at a time as given, all at once.
    Race { times: usize, table: &'static str, data: List<Entry>, caps: List<Cap> },
    /// The record whose id was kept under this name.
    GetKept { table: &'static str, kept: &'static str },
    UpdateKept { table: &'static str, kept: &'static str, data: List<Entry> },
    DeleteKept { table: &'static str, kept: &'static str },
    /// Counts the records whose `stamp` is before the time kept under this name.
    CountBefore {
        table: &'static str,
        filters: List<Condition>,
        stamp: &'static str,
        kept: &'static str,
    },
    /// What time is it?
    Clock,
}

// ---------------------------------------------------------------------------
// Writing calls down
// ---------------------------------------------------------------------------

/// A text value.
#[verifier::allow_in_spec]
pub fn text(s: &'static str) -> Datum
    returns
        Datum::Text(s),
{
    Datum::Text(s)
}

/// An integer value.
#[verifier::allow_in_spec]
pub fn number(n: i64) -> Datum
    returns
        Datum::Int(n),
{
    Datum::Int(n)
}

/// A number written with a fraction.
#[verifier::allow_in_spec]
pub fn fraction(
    text: &'static str,
    display: &'static str,
    truncated: i64,
    bits: u64,
) -> Datum
    returns
        (Datum::Real { text, display, truncated, unsigned: None, bits }),
{
    Datum::Real { text, display, truncated, unsigned: None, bits }
}

/// A row without columns.
#[verifier::allow_in_spec]
pub fn row() -> List<Entry>
    returns
        List::<Entry>::Nil,
{
    List::Nil
}

impl List<Entry> {
    /// The row, with one more column.
    #[verifier::allow_in_spec]
    pub fn with(self, name: &'static str, value: Datum) -> Self
        returns
            List::More(Box::new(self), Entry { name, value }),
    {
        List::More(Box::new(self), Entry { name, value })
    }
}

/// `field` compared with `value`.
#[verifier::allow_in_spec]
pub fn filt(field: &'static str, operator: FilterOp, value: Datum) -> Condition
    returns
        (Condition { field, operator, value }),
{
    Condition { field, operator, value }
}

/// `field` is `value`.
#[verifier::allow_in_spec]
pub fn eq(field: &'static str, value: Datum) -> Condition
    returns
        (Condition { field, operator: FilterOp::Equal, value }),
{
    Condition { field, operator: FilterOp::Equal, value }
}

/// Where one condition holds.
#[verifier::allow_in_spec]
pub fn only(condition: Condition) -> List<Condition>
    returns
        list().and(condition),
{
    list().and(condition)
}

/// Where `field` is `value`.
#[verifier::allow_in_spec]
pub fn where_eq(field: &'static str, value: Datum) -> List<Condition>
    returns
        only(eq(field, value)),
{
    only(eq(field, value))
}

/// Everywhere.
#[verifier::allow_in_spec]
pub fn everywhere() -> List<Condition>
    returns
        List::<Condition>::Nil,
{
    List::Nil
}

/// Every record, in no order.
#[verifier::allow_in_spec]
pub fn everything() -> Listing
    returns
        (Listing {
            filters: List::Nil,
            trees: None,
            sort: List::Nil,
            limit: None,
            offset: 0,
            columns: None,
        }),
{
    Listing {
        filters: List::Nil,
        trees: None,
        sort: List::Nil,
        limit: None,
        offset: 0,
        columns: None,
    }
}

impl Listing {
    /// Those for which the condition holds.
    #[verifier::allow_in_spec]
    pub fn filtered(self, condition: Condition) -> Self
        returns
            (Listing { filters: self.filters.and(condition), ..self }),
    {
        Listing {
            filters: self.filters.and(condition),
            trees: self.trees,
            sort: self.sort,
            limit: self.limit,
            offset: self.offset,
            columns: self.columns,
        }
    }

    /// Those for which the tree holds.
    #[verifier::allow_in_spec]
    pub fn within(self, tree: Tree) -> Self
        returns
            (Listing { trees: Some(list().and(tree)), ..self }),
    {
        Listing {
            filters: self.filters,
            trees: Some(list().and(tree)),
            sort: self.sort,
            limit: self.limit,
            offset: self.offset,
            columns: self.columns,
        }
    }

    /// Sorted by one more key.
    #[verifier::allow_in_spec]
    pub fn sorted(self, field: &'static str, desc: bool) -> Self
        returns
            (Listing { sort: self.sort.and(Key { field, desc }), ..self }),
    {
        Listing {
            filters: self.filters,
            trees: self.trees,
            sort: self.sort.and(Key { field, desc }),
            limit: self.limit,
            offset: self.offset,
            columns: self.columns,
        }
    }

    /// At most `limit` of them, after the first `offset`.
    #[verifier::allow_in_spec]
    pub fn paged(self, limit: Option<i64>, offset: i64) -> Self
        returns
            (Listing { limit, offset, ..self }),
    {
        Listing {
            filters: self.filters,
            trees: self.trees,
            sort: self.sort,
            limit,
            offset,
            columns: self.columns,
        }
    }

    /// These columns of them.
    #[verifier::allow_in_spec]
    pub fn showing(self, columns: List<&'static str>) -> Self
        returns
            (Listing { columns: Some(columns), ..self }),
    {
        Listing {
            filters: self.filters,
            trees: self.trees,
            sort: self.sort,
            limit: self.limit,
            offset: self.offset,
            columns: Some(columns),
        }
    }
}

/// A text key.
#[verifier::allow_in_spec]
pub fn pk(name: &'static str) -> ColumnShape
    returns
        (ColumnShape {
            name,
            data_type: DataType::String,
            nullable: false,
            primary_key: true,
            auto_increment: false,
            unique: false,
        }),
{
    ColumnShape {
        name,
        data_type: DataType::String,
        nullable: false,
        primary_key: true,
        auto_increment: false,
        unique: false,
    }
}

/// A key that the database numbers.
#[verifier::allow_in_spec]
pub fn pk_int(name: &'static str) -> ColumnShape
    returns
        (ColumnShape {
            name,
            data_type: DataType::Int,
            nullable: false,
            primary_key: true,
            auto_increment: true,
            unique: false,
        }),
{
    ColumnShape {
        name,
        data_type: DataType::Int,
        nullable: false,
        primary_key: true,
        auto_increment: true,
        unique: false,
    }
}

/// A column that always has a value.
#[verifier::allow_in_spec]
pub fn column(name: &'static str, data_type: DataType) -> ColumnShape
    returns
        (ColumnShape {
            name,
            data_type,
            nullable: false,
            primary_key: false,
            auto_increment: false,
            unique: false,
        }),
{
    ColumnShape {
        name,
        data_type,
        nullable: false,
        primary_key: false,
        auto_increment: false,
        unique: false,
    }
}

/// A column that may be without a value.
#[verifier::allow_in_spec]
pub fn nullable(name: &'static str, data_type: DataType) -> ColumnShape
    returns
        (ColumnShape {
            name,
            data_type,
            nullable: true,
            primary_key: false,
            auto_increment: false,
            unique: false,
        }),
{
    ColumnShape {
        name,
        data_type,
        nullable: true,
        primary_key: false,
        auto_increment: false,
        unique: false,
    }
}

/// A column that may be without a value and holds no value twice.
#[verifier::allow_in_spec]
pub fn unique(name: &'static str, data_type: DataType) -> ColumnShape
    returns
        (ColumnShape {
            name,
            data_type,
            nullable: true,
            primary_key: false,
            auto_increment: false,
            unique: true,
        }),
{
    ColumnShape {
        name,
        data_type,
        nullable: true,
        primary_key: false,
        auto_increment: false,
        unique: true,
    }
}

/// A table of these columns.
#[verifier::allow_in_spec]
pub fn table(name: &'static str, columns: List<ColumnShape>) -> TableShape
    returns
        (TableShape { name, columns, primary_key: List::Nil }),
{
    TableShape { name, columns, primary_key: List::Nil }
}

/// The table most checks use: a text key, text and number columns, a column
/// that may be without a value, and the two timestamps, which are text.
#[verifier::allow_in_spec]
pub fn crud_table(name: &'static str) -> TableShape
    returns
        table(
            name,
            list().and(pk("id")).and(nullable("name", DataType::Text)).and(
                nullable("category", DataType::Text),
            ).and(nullable("score", DataType::Int)).and(nullable("amount", DataType::Float)).and(
                nullable("note", DataType::Text),
            ).and(nullable("created_at", DataType::Text)).and(
                nullable("updated_at", DataType::Text),
            ),
        ),
{
    table(
        name,
        list().and(pk("id")).and(nullable("name", DataType::Text)).and(
            nullable("category", DataType::Text),
        ).and(nullable("score", DataType::Int)).and(nullable("amount", DataType::Float)).and(
            nullable("note", DataType::Text),
        ).and(nullable("created_at", DataType::Text)).and(nullable("updated_at", DataType::Text)),
    )
}

/// A table in the shape of a quota: an owner, a bucket and a size for each
/// row.
#[verifier::allow_in_spec]
pub fn guarded_table() -> TableShape
    returns
        table(
            "conf_guarded",
            list().and(pk("id")).and(nullable("owner", DataType::Text)).and(
                nullable("bucket", DataType::Text),
            ).and(nullable("size", DataType::Int64)).and(nullable("created_at", DataType::Text)).and(
                nullable("updated_at", DataType::Text),
            ),
        ),
{
    table(
        "conf_guarded",
        list().and(pk("id")).and(nullable("owner", DataType::Text)).and(
            nullable("bucket", DataType::Text),
        ).and(nullable("size", DataType::Int64)).and(nullable("created_at", DataType::Text)).and(
            nullable("updated_at", DataType::Text),
        ),
    )
}

} // verus!
