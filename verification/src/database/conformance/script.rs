//! Scripts: calls, each with what its answer must be like.

use vstd::prelude::*;

use crate::database::conformance::judge::{
    Expect, Fault, FieldCheck, Gather, Keep, ListCheck, RecordCheck,
};
use crate::database::conformance::list::{list, List};
use crate::database::conformance::probe::{
    Call, Cap, Condition, Datum, Entry, Listing, Summary, TableShape, Upserting,
};

verus! {

/// Which of two services is called.
#[derive(Clone, Copy, Debug, PartialEq, Eq, Structural)]
pub enum Instance {
    First,
    Second,
}

/// One call, what its answer must be like, and what is checked by it.
#[derive(Debug)]
pub struct Probe {
    pub on: Instance,
    pub call: Call,
    pub expect: Expect,
    pub what: &'static str,
}

/// Probes, in the order in which they are made.
pub type Script = List<Probe>;

/// Reads a record.
#[verifier::allow_in_spec]
pub fn get(table: &'static str, id: &'static str) -> Call
    returns
        (Call::Get { table, id }),
{
    Call::Get { table, id }
}

/// Lists records.
#[verifier::allow_in_spec]
pub fn list_of(table: &'static str, listing: Listing) -> Call
    returns
        (Call::List { table, listing }),
{
    Call::List { table, listing }
}

/// Counts records.
#[verifier::allow_in_spec]
pub fn count(table: &'static str, filters: List<Condition>) -> Call
    returns
        (Call::Count { table, filters }),
{
    Call::Count { table, filters }
}

/// Sums a column.
#[verifier::allow_in_spec]
pub fn sum(table: &'static str, field: &'static str, filters: List<Condition>) -> Call
    returns
        (Call::Sum { table, field, filters }),
{
    Call::Sum { table, field, filters }
}

/// Creates a record.
#[verifier::allow_in_spec]
pub fn create(table: &'static str, data: List<Entry>) -> Call
    returns
        (Call::Create { table, data }),
{
    Call::Create { table, data }
}

/// Creates records.
#[verifier::allow_in_spec]
pub fn create_many(table: &'static str, rows: List<List<Entry>>) -> Call
    returns
        (Call::CreateMany { table, rows }),
{
    Call::CreateMany { table, rows }
}

/// Updates a record.
#[verifier::allow_in_spec]
pub fn update(table: &'static str, id: &'static str, data: List<Entry>) -> Call
    returns
        (Call::Update { table, id, data }),
{
    Call::Update { table, id, data }
}

/// Deletes a record.
#[verifier::allow_in_spec]
pub fn delete(table: &'static str, id: &'static str) -> Call
    returns
        (Call::Delete { table, id }),
{
    Call::Delete { table, id }
}

/// Takes records out.
#[verifier::allow_in_spec]
pub fn take_where(table: &'static str, filters: List<Condition>) -> Call
    returns
        (Call::TakeWhere { table, filters }),
{
    Call::TakeWhere { table, filters }
}

/// Deletes records, and counts them.
#[verifier::allow_in_spec]
pub fn delete_where_count(table: &'static str, filters: List<Condition>) -> Call
    returns
        (Call::DeleteWhereCount { table, filters }),
{
    Call::DeleteWhereCount { table, filters }
}

/// Updates records, and counts them.
#[verifier::allow_in_spec]
pub fn update_where_count(table: &'static str, filters: List<Condition>, data: List<Entry>) -> Call
    returns
        (Call::UpdateWhereCount { table, filters, data }),
{
    Call::UpdateWhereCount { table, filters, data }
}

/// Creates a record within caps.
#[verifier::allow_in_spec]
pub fn insert_guarded(table: &'static str, data: List<Entry>, caps: List<Cap>) -> Call
    returns
        (Call::InsertGuarded { table, data, caps }),
{
    Call::InsertGuarded { table, data, caps }
}

/// Updates records within caps.
#[verifier::allow_in_spec]
pub fn update_guarded(
    table: &'static str,
    filters: List<Condition>,
    data: List<Entry>,
    caps: List<Cap>,
) -> Call
    returns
        (Call::UpdateGuarded { table, filters, data, caps }),
{
    Call::UpdateGuarded { table, filters, data, caps }
}

/// Adds to a column.
#[verifier::allow_in_spec]
pub fn increment(table: &'static str, field: &'static str, delta: i64, filters: List<Condition>) -> Call
    returns
        (Call::Increment { table, field, delta, filters }),
{
    Call::Increment { table, field, delta, filters }
}

/// Creates a record unless its key is taken.
#[verifier::allow_in_spec]
pub fn upsert(table: &'static str, row: Upserting) -> Call
    returns
        (Call::Upsert { table, row }),
{
    Call::Upsert { table, row }
}

/// Aggregates records.
#[verifier::allow_in_spec]
pub fn aggregate(table: &'static str, summary: Summary) -> Call
    returns
        (Call::Aggregate { table, summary }),
{
    Call::Aggregate { table, summary }
}

/// Lists the columns of a table.
#[verifier::allow_in_spec]
pub fn columns_of(table: &'static str) -> Call
    returns
        (Call::Columns { table }),
{
    Call::Columns { table }
}

/// Drops a table.
#[verifier::allow_in_spec]
pub fn drop_table(table: &'static str) -> Call
    returns
        (Call::DropTable { table }),
{
    Call::DropTable { table }
}

/// A call of the first service.
#[verifier::allow_in_spec]
pub fn probe(call: Call, expect: Expect, what: &'static str) -> Probe
    returns
        (Probe { on: Instance::First, call, expect, what }),
{
    Probe { on: Instance::First, call, expect, what }
}

impl Probe {
    /// The same, of the second service.
    #[verifier::allow_in_spec]
    pub fn elsewhere(self) -> Self
        returns
            (Probe { on: Instance::Second, ..self }),
    {
        Probe {
            on: Instance::Second,
            call: self.call,
            expect: self.expect,
            what: self.what,
        }
    }
}

/// The call does not fail.
#[verifier::allow_in_spec]
pub fn done(call: Call, what: &'static str) -> Probe
    returns
        probe(call, Expect::Done, what),
{
    probe(call, Expect::Done, what)
}

/// The call fails so.
#[verifier::allow_in_spec]
pub fn fails(call: Call, fault: Fault, what: &'static str) -> Probe
    returns
        probe(call, Expect::Fails(fault), what),
{
    probe(call, Expect::Fails(fault), what)
}

/// The call is refused as an invalid argument.
#[verifier::allow_in_spec]
pub fn assert_invalid_argument(call: Call, what: &'static str) -> Probe
    returns
        probe(call, Expect::Fails(Fault::InvalidArgument), what),
{
    probe(call, Expect::Fails(Fault::InvalidArgument), what)
}

/// The call answers with a count.
#[verifier::allow_in_spec]
pub fn counts(call: Call, n: i64, what: &'static str) -> Probe
    returns
        probe(call, Expect::Count(n), what),
{
    probe(call, Expect::Count(n), what)
}

/// There is, or is not, such a table.
#[verifier::allow_in_spec]
pub fn there_is(table: &'static str, yes: bool, what: &'static str) -> Probe
    returns
        probe(Call::TableExists { table }, Expect::Exists(yes), what),
{
    probe(Call::TableExists { table }, Expect::Exists(yes), what)
}

/// The call answers with such a record.
#[verifier::allow_in_spec]
pub fn gives(call: Call, checks: List<RecordCheck>, what: &'static str) -> Probe
    returns
        probe(call, Expect::Record { checks, keep: Keep::Nothing }, what),
{
    probe(call, Expect::Record { checks, keep: Keep::Nothing }, what)
}

/// The call answers with such a record, whose id is kept.
#[verifier::allow_in_spec]
pub fn gives_kept(call: Call, checks: List<RecordCheck>, at: &'static str, what: &'static str) -> Probe
    returns
        probe(call, Expect::Record { checks, keep: Keep::Id(at) }, what),
{
    probe(call, Expect::Record { checks, keep: Keep::Id(at) }, what)
}

/// The call answers with such records.
#[verifier::allow_in_spec]
pub fn lists(call: Call, checks: List<ListCheck>, what: &'static str) -> Probe
    returns
        probe(call, Expect::Records { checks, gather: Gather::Nothing }, what),
{
    probe(call, Expect::Records { checks, gather: Gather::Nothing }, what)
}

/// A record with such a column.
#[verifier::allow_in_spec]
pub fn has(name: &'static str, check: FieldCheck) -> List<RecordCheck>
    returns
        list().and(RecordCheck::Field(name, check)),
{
    list().and(RecordCheck::Field(name, check))
}

impl List<RecordCheck> {
    /// And with such a column.
    #[verifier::allow_in_spec]
    pub fn having(self, name: &'static str, check: FieldCheck) -> Self
        returns
            self.and(RecordCheck::Field(name, check)),
    {
        self.and(RecordCheck::Field(name, check))
    }
}

/// This value.
#[verifier::allow_in_spec]
pub fn equals(value: Datum) -> FieldCheck
    returns
        FieldCheck::Is(value),
{
    FieldCheck::Is(value)
}

/// This integer.
#[verifier::allow_in_spec]
pub fn int_is(n: i64) -> FieldCheck
    returns
        FieldCheck::Int(n),
{
    FieldCheck::Int(n)
}

/// Makes a table anew, whatever is left of an earlier run.
#[verifier::allow_in_spec]
pub fn reset(s: Script, table: TableShape) -> Script
    returns
        s.and(
            done(
                drop_table(table.name),
                "schema_drop_table (idempotent) must succeed",
            ),
        ).and(done(Call::EnsureTable(table), "ensure_schema_table must succeed")),
{
    s.and(
        done(
            drop_table(table.name),
            "schema_drop_table (idempotent) must succeed",
        ),
    ).and(done(Call::EnsureTable(table), "ensure_schema_table must succeed"))
}

} // verus!
