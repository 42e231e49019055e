//! What holds of every script of the suite.

use vstd::prelude::*;

use crate::database::conformance::counters;
use crate::database::conformance::judge::{Expect, Fault};
use crate::database::conformance::list::{list, List};
use crate::database::conformance::probe::{Call, TableShape, Write};
use crate::database::conformance::reading;
use crate::database::conformance::records;
use crate::database::conformance::script;
use crate::database::conformance::script::{Probe, Script};
use crate::database::conformance::suite;
use crate::database::conformance::summaries;
use crate::database::conformance::tables;
use crate::database::conformance::values;
use crate::database::conformance::writing;

verus! {

// ---------------------------------------------------------------------------
// Which tables a script reaches
// ---------------------------------------------------------------------------

/// The name of a table that belongs to the suite: it starts with `conf_`.
pub open spec fn ours(name: Seq<char>) -> bool {
    name.len() > 5 && name[0] == 'c' && name[1] == 'o' && name[2] == 'n' && name[3] == 'f'
        && name[4] == '_'
}

/// The table that a write targets.
pub open spec fn target(w: Write) -> Seq<char> {
    match w {
        Write::Create { table, .. } => table@,
        Write::Update { table, .. } => table@,
        Write::Delete { table, .. } => table@,
        Write::UpdateWhere { table, .. } => table@,
        Write::DeleteWhere { table, .. } => table@,
        Write::Upsert { table, .. } => table@,
    }
}

/// Every table that is written to belongs to the suite.
pub open spec fn writes_are_ours(l: List<Write>) -> bool
    decreases l,
{
    match l {
        List::Nil => true,
        List::More(rest, w) => writes_are_ours(*rest) && ours(target(w)),
    }
}

/// Every table that is declared belongs to the suite.
pub open spec fn tables_are_ours(l: List<TableShape>) -> bool
    decreases l,
{
    match l {
        List::Nil => true,
        List::More(rest, t) => tables_are_ours(*rest) && ours(t.name@),
    }
}

/// Every table that a call names belongs to the suite. A raw statement names
/// none.
pub open spec fn call_is_ours(call: Call) -> bool {
    match call {
        Call::Get { table, .. } => ours(table@),
        Call::List { table, .. } => ours(table@),
        Call::Count { table, .. } => ours(table@),
        Call::Sum { table, .. } => ours(table@),
        Call::Create { table, .. } => ours(table@),
        Call::CreateMany { table, .. } => ours(table@),
        Call::CreateNumbered { table, .. } => ours(table@),
        Call::InsertGuarded { table, .. } => ours(table@),
        Call::UpdateGuarded { table, .. } => ours(table@),
        Call::Update { table, .. } => ours(table@),
        Call::Delete { table, .. } => ours(table@),
        Call::DeleteWhere { table, .. } => ours(table@),
        Call::DeleteWhereCount { table, .. } => ours(table@),
        Call::TakeWhere { table, .. } => ours(table@),
        Call::UpdateWhere { table, .. } => ours(table@),
        Call::UpdateWhereCount { table, .. } => ours(table@),
        Call::Increment { table, .. } => ours(table@),
        Call::Upsert { table, .. } => ours(table@),
        Call::Aggregate { table, .. } => ours(table@),
        Call::QueryRaw { .. } => true,
        Call::ExecRaw { .. } => true,
        Call::Batch(writes) => writes_are_ours(writes),
        Call::TableExists { table } => ours(table@),
        Call::Columns { table } => ours(table@),
        Call::EnsureTable(shape) => ours(shape.name@),
        Call::EnsureTables(shapes) => tables_are_ours(shapes),
        Call::AddColumn { table, .. } => ours(table@),
        Call::DropTable { table } => ours(table@),
        Call::Strict(_) => true,
        Call::Race { table, .. } => ours(table@),
        Call::GetKept { table, .. } => ours(table@),
        Call::UpdateKept { table, .. } => ours(table@),
        Call::DeleteKept { table, .. } => ours(table@),
        Call::CountBefore { table, .. } => ours(table@),
        Call::Clock => true,
    }
}

/// The probe must be refused as an invalid argument.
pub open spec fn is_refused(p: Probe) -> bool {
    p.expect matches Expect::Fails(Fault::InvalidArgument)
}

// ---------------------------------------------------------------------------
// Tables that are made anew
// ---------------------------------------------------------------------------

/// The table is dropped somewhere in the script.
pub open spec fn dropped(s: Script, table: Seq<char>) -> bool
    decreases s,
{
    match s {
        List::Nil => false,
        List::More(rest, p) => dropped(*rest, table) || (p.call matches Call::DropTable { table: t }
            && t@ == table),
    }
}

/// The table is dropped and afterwards made somewhere in the script.
pub open spec fn made_anew(s: Script, table: Seq<char>) -> bool
    decreases s,
{
    match s {
        List::Nil => false,
        List::More(rest, p) => made_anew(*rest, table) || (dropped(*rest, table) && (
        p.call matches Call::EnsureTable(shape) && shape.name@ == table)),
    }
}

/// Every table that a batch creates records in was made anew.
pub open spec fn writes_anew(s: Script, l: List<Write>) -> bool
    decreases l,
{
    match l {
        List::Nil => true,
        List::More(rest, w) => writes_anew(s, *rest) && match w {
            Write::Create { table, .. } => made_anew(s, table@),
            Write::Upsert { table, .. } => made_anew(s, table@),
            _ => true,
        },
    }
}

/// A call that creates records does so in a table that was made anew.
pub open spec fn creates_anew(s: Script, call: Call) -> bool {
    match call {
        Call::Create { table, .. } => made_anew(s, table@),
        Call::CreateMany { table, .. } => made_anew(s, table@),
        Call::CreateNumbered { table, .. } => made_anew(s, table@),
        Call::InsertGuarded { table, .. } => made_anew(s, table@),
        Call::Upsert { table, .. } => made_anew(s, table@),
        Call::Race { table, .. } => made_anew(s, table@),
        Call::Batch(writes) => writes_anew(s, writes),
        _ => true,
    }
}

/// Every probe reaches only tables of the suite, and creates records only in
/// tables that were made anew before it, unless it must be refused.
pub open spec fn contained(s: Script) -> bool
    decreases s,
{
    match s {
        List::Nil => true,
        List::More(rest, p) => contained(*rest) && (is_refused(p) || (call_is_ours(p.call)
            && creates_anew(*rest, p.call))),
    }
}

// ---------------------------------------------------------------------------
// What a script asks
// ---------------------------------------------------------------------------

/// `s` is the beginning of `t`.
pub open spec fn begins(s: Script, t: Script) -> bool
    decreases t,
{
    s == t || match t {
        List::Nil => false,
        List::More(rest, _) => begins(s, *rest),
    }
}

/// The operations of a database service.
pub enum Operation {
    Get,
    List,
    Count,
    Sum,
    Create,
    CreateMany,
    InsertGuarded,
    UpdateGuarded,
    Update,
    Delete,
    DeleteWhere,
    DeleteWhereCount,
    TakeWhere,
    UpdateWhere,
    UpdateWhereCount,
    IncrementFieldWhere,
    Upsert,
    Aggregate,
    QueryRaw,
    ExecRaw,
    Batch,
    SchemaTableExists,
    SchemaColumns,
    EnsureSchemaTable,
    EnsureSchemaTables,
    SchemaAddColumn,
    SchemaDropTable,
    SetStrictSchema,
}

/// The call is of the operation.
pub open spec fn is_of(op: Operation, call: Call) -> bool {
    match op {
        Operation::Get => call is Get,
        Operation::List => call is List,
        Operation::Count => call is Count,
        Operation::Sum => call is Sum,
        Operation::Create => call is Create,
        Operation::CreateMany => call is CreateMany,
        Operation::InsertGuarded => call is InsertGuarded,
        Operation::UpdateGuarded => call is UpdateGuarded,
        Operation::Update => call is Update,
        Operation::Delete => call is Delete,
        Operation::DeleteWhere => call is DeleteWhere,
        Operation::DeleteWhereCount => call is DeleteWhereCount,
        Operation::TakeWhere => call is TakeWhere,
        Operation::UpdateWhere => call is UpdateWhere,
        Operation::UpdateWhereCount => call is UpdateWhereCount,
        Operation::IncrementFieldWhere => call is Increment,
        Operation::Upsert => call is Upsert,
        Operation::Aggregate => call is Aggregate,
        Operation::QueryRaw => call is QueryRaw,
        Operation::ExecRaw => call is ExecRaw,
        Operation::Batch => call is Batch,
        Operation::SchemaTableExists => call is TableExists,
        Operation::SchemaColumns => call is Columns,
        Operation::EnsureSchemaTable => call is EnsureTable,
        Operation::EnsureSchemaTables => call is EnsureTables,
        Operation::SchemaAddColumn => call is AddColumn,
        Operation::SchemaDropTable => call is DropTable,
        Operation::SetStrictSchema => call is Strict,
    }
}

/// A call of the operation is somewhere in the script.
pub open spec fn drives(s: Script, op: Operation) -> bool
    decreases s,
{
    match s {
        List::Nil => false,
        List::More(rest, p) => drives(*rest, op) || is_of(op, p.call),
    }
}

/// What a script asks, every script that begins with it asks.
proof fn lemma_drives(s: Script, t: Script, op: Operation)
    requires
        begins(s, t),
        drives(s, op),
    ensures
        drives(t, op),
    decreases t,
{
    if s != t {
        match t {
            List::Nil => {},
            List::More(rest, _) => {
                lemma_drives(s, *rest, op);
            },
        }
    }
}

/// The beginning of a beginning.
proof fn lemma_begins(s: Script, t: Script, u: Script)
    requires
        begins(s, t),
        begins(t, u),
    ensures
        begins(s, u),
    decreases u,
{
    if t != u {
        match u {
            List::Nil => {},
            List::More(rest, _) => {
                lemma_begins(s, t, *rest);
            },
        }
    }
}

proof fn lemma_check_schema_management(s: Script)
    requires
        contained(s),
    ensures
        contained(tables::check_schema_management(s)),
        begins(s, tables::check_schema_management(s)),
{
    reveal_strlit("conf_schema_a");
    reveal_strlit("conf_schema_b");
    reveal_strlit("conf_schema_x");
    reveal_with_fuel(contained, 90);
    reveal_with_fuel(made_anew, 90);
    reveal_with_fuel(dropped, 90);
    reveal_with_fuel(begins, 90);
    reveal_with_fuel(writes_are_ours, 10);
    reveal_with_fuel(writes_anew, 10);
    reveal_with_fuel(tables_are_ours, 3);
}

proof fn lemma_check_create_get(s: Script)
    requires
        contained(s),
    ensures
        contained(records::check_create_get(s)),
        begins(s, records::check_create_get(s)),
{
    reveal_strlit("conf_no_such_table");
    reveal_strlit("conf_read");
    reveal_with_fuel(contained, 90);
    reveal_with_fuel(made_anew, 90);
    reveal_with_fuel(dropped, 90);
    reveal_with_fuel(begins, 90);
    reveal_with_fuel(writes_are_ours, 10);
    reveal_with_fuel(writes_anew, 10);
    reveal_with_fuel(tables_are_ours, 3);
}

proof fn lemma_check_generated_ids(s: Script)
    requires
        contained(s),
    ensures
        contained(records::check_generated_ids(s)),
        begins(s, records::check_generated_ids(s)),
{
    reveal_strlit("conf_serial");
    reveal_with_fuel(contained, 90);
    reveal_with_fuel(made_anew, 90);
    reveal_with_fuel(dropped, 90);
    reveal_with_fuel(begins, 90);
    reveal_with_fuel(writes_are_ours, 10);
    reveal_with_fuel(writes_anew, 10);
    reveal_with_fuel(tables_are_ours, 3);
}

proof fn lemma_check_count_and_sum(s: Script)
    requires
        contained(s),
    ensures
        contained(reading::check_count_and_sum(s)),
        begins(s, reading::check_count_and_sum(s)),
{
    reveal_strlit("conf_absent_table");
    reveal_strlit("conf_read");
    reveal_with_fuel(contained, 90);
    reveal_with_fuel(made_anew, 90);
    reveal_with_fuel(dropped, 90);
    reveal_with_fuel(begins, 90);
    reveal_with_fuel(writes_are_ours, 10);
    reveal_with_fuel(writes_anew, 10);
    reveal_with_fuel(tables_are_ours, 3);
}

proof fn lemma_check_list(s: Script)
    requires
        contained(s),
    ensures
        contained(reading::check_list(s)),
        begins(s, reading::check_list(s)),
{
    reveal_strlit("conf_absent_table");
    reveal_strlit("conf_read");
    reveal_with_fuel(contained, 90);
    reveal_with_fuel(made_anew, 90);
    reveal_with_fuel(dropped, 90);
    reveal_with_fuel(begins, 90);
    reveal_with_fuel(writes_are_ours, 10);
    reveal_with_fuel(writes_anew, 10);
    reveal_with_fuel(tables_are_ours, 3);
}

proof fn lemma_check_list_tiebreak(s: Script)
    requires
        contained(s),
    ensures
        contained(reading::check_list_tiebreak(s)),
        begins(s, reading::check_list_tiebreak(s)),
{
    reveal_strlit("conf_tie_hash");
    reveal_strlit("conf_tie_id");
    reveal_strlit("conf_tie_keyless");
    reveal_strlit("conf_tie_minted");
    reveal_strlit("conf_tie_pair");
    reveal_with_fuel(contained, 90);
    reveal_with_fuel(made_anew, 90);
    reveal_with_fuel(dropped, 90);
    reveal_with_fuel(begins, 90);
    reveal_with_fuel(writes_are_ours, 10);
    reveal_with_fuel(writes_anew, 10);
    reveal_with_fuel(tables_are_ours, 3);
}

proof fn lemma_check_update_family(s: Script)
    requires
        contained(s),
    ensures
        contained(records::check_update_family(s)),
        begins(s, records::check_update_family(s)),
{
    reveal_strlit("conf_update");
    reveal_with_fuel(contained, 90);
    reveal_with_fuel(made_anew, 90);
    reveal_with_fuel(dropped, 90);
    reveal_with_fuel(begins, 90);
    reveal_with_fuel(writes_are_ours, 10);
    reveal_with_fuel(writes_anew, 10);
    reveal_with_fuel(tables_are_ours, 3);
}

proof fn lemma_check_delete_family(s: Script)
    requires
        contained(s),
    ensures
        contained(records::check_delete_family(s)),
        begins(s, records::check_delete_family(s)),
{
    reveal_strlit("conf_delete");
    reveal_with_fuel(contained, 90);
    reveal_with_fuel(made_anew, 90);
    reveal_with_fuel(dropped, 90);
    reveal_with_fuel(begins, 90);
    reveal_with_fuel(writes_are_ours, 10);
    reveal_with_fuel(writes_anew, 10);
    reveal_with_fuel(tables_are_ours, 3);
}

proof fn lemma_check_take_where(s: Script)
    requires
        contained(s),
    ensures
        contained(records::check_take_where(s)),
        begins(s, records::check_take_where(s)),
{
    reveal_strlit("conf_take");
    reveal_with_fuel(contained, 90);
    reveal_with_fuel(made_anew, 90);
    reveal_with_fuel(dropped, 90);
    reveal_with_fuel(begins, 90);
    reveal_with_fuel(writes_are_ours, 10);
    reveal_with_fuel(writes_anew, 10);
    reveal_with_fuel(tables_are_ours, 3);
}

proof fn lemma_check_create_many(s: Script)
    requires
        contained(s),
    ensures
        contained(records::check_create_many(s)),
        begins(s, records::check_create_many(s)),
{
    reveal_strlit("conf_create_many");
    reveal_with_fuel(contained, 90);
    reveal_with_fuel(made_anew, 90);
    reveal_with_fuel(dropped, 90);
    reveal_with_fuel(begins, 90);
    reveal_with_fuel(writes_are_ours, 10);
    reveal_with_fuel(writes_anew, 10);
    reveal_with_fuel(tables_are_ours, 3);
}

proof fn lemma_check_batch(s: Script)
    requires
        contained(s),
    ensures
        contained(writing::check_batch(s)),
        begins(s, writing::check_batch(s)),
{
    reveal_strlit("conf_batch");
    reveal_strlit("conf_batch_missing");
    reveal_strlit("conf_batch_other");
    reveal_with_fuel(contained, 90);
    reveal_with_fuel(made_anew, 90);
    reveal_with_fuel(dropped, 90);
    reveal_with_fuel(begins, 90);
    reveal_with_fuel(writes_are_ours, 10);
    reveal_with_fuel(writes_anew, 10);
    reveal_with_fuel(tables_are_ours, 3);
}

proof fn lemma_check_batch_delete_where(s: Script)
    requires
        contained(s),
    ensures
        contained(writing::check_batch_delete_where(s)),
        begins(s, writing::check_batch_delete_where(s)),
{
    reveal_strlit("conf_batch_replace");
    reveal_strlit("conf_batch_replace_missing");
    reveal_with_fuel(contained, 90);
    reveal_with_fuel(made_anew, 90);
    reveal_with_fuel(dropped, 90);
    reveal_with_fuel(begins, 90);
    reveal_with_fuel(writes_are_ours, 10);
    reveal_with_fuel(writes_anew, 10);
    reveal_with_fuel(tables_are_ours, 3);
}

proof fn lemma_check_guarded_writes(s: Script)
    requires
        contained(s),
    ensures
        contained(writing::check_guarded_writes(s)),
        begins(s, writing::check_guarded_writes(s)),
{
    reveal_strlit("conf_guarded");
    reveal_strlit("conf_guarded_missing");
    reveal_with_fuel(contained, 90);
    reveal_with_fuel(made_anew, 90);
    reveal_with_fuel(dropped, 90);
    reveal_with_fuel(begins, 90);
    reveal_with_fuel(writes_are_ours, 10);
    reveal_with_fuel(writes_anew, 10);
    reveal_with_fuel(tables_are_ours, 3);
}

proof fn lemma_check_increment(s: Script)
    requires
        contained(s),
    ensures
        contained(counters::check_increment(s)),
        begins(s, counters::check_increment(s)),
{
    reveal_strlit("conf_incr");
    reveal_with_fuel(contained, 90);
    reveal_with_fuel(made_anew, 90);
    reveal_with_fuel(dropped, 90);
    reveal_with_fuel(begins, 90);
    reveal_with_fuel(writes_are_ours, 10);
    reveal_with_fuel(writes_anew, 10);
    reveal_with_fuel(tables_are_ours, 3);
}

proof fn lemma_check_upsert_set_columns(s: Script)
    requires
        contained(s),
    ensures
        contained(counters::check_upsert_set_columns(s)),
        begins(s, counters::check_upsert_set_columns(s)),
{
    reveal_strlit("conf_upsert");
    reveal_with_fuel(contained, 90);
    reveal_with_fuel(made_anew, 90);
    reveal_with_fuel(dropped, 90);
    reveal_with_fuel(begins, 90);
    reveal_with_fuel(writes_are_ours, 10);
    reveal_with_fuel(writes_anew, 10);
    reveal_with_fuel(tables_are_ours, 3);
}

proof fn lemma_check_upsert_windowed_counter(s: Script)
    requires
        contained(s),
    ensures
        contained(counters::check_upsert_windowed_counter(s)),
        begins(s, counters::check_upsert_windowed_counter(s)),
{
    reveal_strlit("conf_rl");
    reveal_with_fuel(contained, 90);
    reveal_with_fuel(made_anew, 90);
    reveal_with_fuel(dropped, 90);
    reveal_with_fuel(begins, 90);
    reveal_with_fuel(writes_are_ours, 10);
    reveal_with_fuel(writes_anew, 10);
    reveal_with_fuel(tables_are_ours, 3);
}

proof fn lemma_check_upsert_windowed_counter_honours_its_columns(s: Script)
    requires
        contained(s),
    ensures
        contained(counters::check_upsert_windowed_counter_honours_its_columns(s)),
        begins(s, counters::check_upsert_windowed_counter_honours_its_columns(s)),
{
    reveal_strlit("conf_rl_ip");
    reveal_with_fuel(contained, 90);
    reveal_with_fuel(made_anew, 90);
    reveal_with_fuel(dropped, 90);
    reveal_with_fuel(begins, 90);
    reveal_with_fuel(writes_are_ours, 10);
    reveal_with_fuel(writes_anew, 10);
    reveal_with_fuel(tables_are_ours, 3);
}

proof fn lemma_check_aggregate(s: Script)
    requires
        contained(s),
    ensures
        contained(summaries::check_aggregate(s)),
        begins(s, summaries::check_aggregate(s)),
{
    reveal_strlit("conf_read");
    reveal_with_fuel(contained, 90);
    reveal_with_fuel(made_anew, 90);
    reveal_with_fuel(dropped, 90);
    reveal_with_fuel(begins, 90);
    reveal_with_fuel(writes_are_ours, 10);
    reveal_with_fuel(writes_anew, 10);
    reveal_with_fuel(tables_are_ours, 3);
}

proof fn lemma_check_aggregate_money(s: Script)
    requires
        contained(s),
    ensures
        contained(summaries::check_aggregate_money(s)),
        begins(s, summaries::check_aggregate_money(s)),
{
    reveal_strlit("conf_money");
    reveal_with_fuel(contained, 90);
    reveal_with_fuel(made_anew, 90);
    reveal_with_fuel(dropped, 90);
    reveal_with_fuel(begins, 90);
    reveal_with_fuel(writes_are_ours, 10);
    reveal_with_fuel(writes_anew, 10);
    reveal_with_fuel(tables_are_ours, 3);
}

proof fn lemma_check_raw_sql(s: Script)
    requires
        contained(s),
    ensures
        contained(reading::check_raw_sql(s)),
        begins(s, reading::check_raw_sql(s)),
{
    reveal_strlit("conf_exec");
    reveal_with_fuel(contained, 90);
    reveal_with_fuel(made_anew, 90);
    reveal_with_fuel(dropped, 90);
    reveal_with_fuel(begins, 90);
    reveal_with_fuel(writes_are_ours, 10);
    reveal_with_fuel(writes_anew, 10);
    reveal_with_fuel(tables_are_ours, 3);
}

proof fn lemma_check_json_value_round_trip(s: Script)
    requires
        contained(s),
    ensures
        contained(values::check_json_value_round_trip(s)),
        begins(s, values::check_json_value_round_trip(s)),
{
    reveal_strlit("conf_json");
    reveal_with_fuel(contained, 90);
    reveal_with_fuel(made_anew, 90);
    reveal_with_fuel(dropped, 90);
    reveal_with_fuel(begins, 90);
    reveal_with_fuel(writes_are_ours, 10);
    reveal_with_fuel(writes_anew, 10);
    reveal_with_fuel(tables_are_ours, 3);
}

proof fn lemma_check_typed_values_round_trip(s: Script)
    requires
        contained(s),
    ensures
        contained(values::check_typed_values_round_trip(s)),
        begins(s, values::check_typed_values_round_trip(s)),
{
    reveal_strlit("conf_typed");
    reveal_with_fuel(contained, 90);
    reveal_with_fuel(made_anew, 90);
    reveal_with_fuel(dropped, 90);
    reveal_with_fuel(begins, 90);
    reveal_with_fuel(writes_are_ours, 10);
    reveal_with_fuel(writes_anew, 10);
    reveal_with_fuel(tables_are_ours, 3);
}

proof fn lemma_check_names_are_verbatim_and_reads_never_reshape(s: Script)
    requires
        contained(s),
    ensures
        contained(tables::check_names_are_verbatim_and_reads_never_reshape(s)),
        begins(s, tables::check_names_are_verbatim_and_reads_never_reshape(s)),
{
    reveal_strlit("conf_a-b");
    reveal_strlit("conf_ab");
    reveal_with_fuel(contained, 90);
    reveal_with_fuel(made_anew, 90);
    reveal_with_fuel(dropped, 90);
    reveal_with_fuel(begins, 90);
    reveal_with_fuel(writes_are_ours, 10);
    reveal_with_fuel(writes_anew, 10);
    reveal_with_fuel(tables_are_ours, 3);
}

proof fn lemma_check_names_longer_than_postgres_keeps_are_refused(s: Script)
    requires
        contained(s),
    ensures
        contained(tables::check_names_longer_than_postgres_keeps_are_refused(s)),
        begins(s, tables::check_names_longer_than_postgres_keeps_are_refused(s)),
{
    reveal_strlit("conf_llllllllllllllllllllllllllllllllllllllllllllllllllllllllll");
    reveal_with_fuel(contained, 90);
    reveal_with_fuel(made_anew, 90);
    reveal_with_fuel(dropped, 90);
    reveal_with_fuel(begins, 90);
    reveal_with_fuel(writes_are_ours, 10);
    reveal_with_fuel(writes_anew, 10);
    reveal_with_fuel(tables_are_ours, 3);
}

proof fn lemma_check_table_created_by_another_instance_is_seen(s: Script)
    requires
        contained(s),
    ensures
        contained(suite::check_table_created_by_another_instance_is_seen(s)),
        begins(s, suite::check_table_created_by_another_instance_is_seen(s)),
{
    reveal_strlit("conf_shared_late");
    reveal_with_fuel(contained, 90);
    reveal_with_fuel(made_anew, 90);
    reveal_with_fuel(dropped, 90);
    reveal_with_fuel(begins, 90);
    reveal_with_fuel(writes_are_ours, 10);
    reveal_with_fuel(writes_anew, 10);
    reveal_with_fuel(tables_are_ours, 3);
}

proof fn lemma_check_create_get_drives(s: Script)
    ensures
        drives(records::check_create_get(s), Operation::Get),
        drives(records::check_create_get(s), Operation::Create),
        drives(records::check_create_get(s), Operation::SchemaColumns),
{
    reveal_with_fuel(drives, 90);
}

proof fn lemma_check_list_drives(s: Script)
    ensures
        drives(reading::check_list(s), Operation::List),
{
    reveal_with_fuel(drives, 90);
}

proof fn lemma_check_count_and_sum_drives(s: Script)
    ensures
        drives(reading::check_count_and_sum(s), Operation::Count),
        drives(reading::check_count_and_sum(s), Operation::Sum),
{
    reveal_with_fuel(drives, 90);
}

proof fn lemma_check_generated_ids_drives(s: Script)
    ensures
        drives(records::check_generated_ids(s), Operation::CreateMany),
        drives(records::check_generated_ids(s), Operation::InsertGuarded),
{
    reveal_with_fuel(drives, 90);
}

proof fn lemma_check_guarded_writes_drives(s: Script)
    ensures
        drives(writing::check_guarded_writes(s), Operation::UpdateGuarded),
{
    reveal_with_fuel(drives, 90);
}

proof fn lemma_check_update_family_drives(s: Script)
    ensures
        drives(records::check_update_family(s), Operation::Update),
        drives(records::check_update_family(s), Operation::UpdateWhere),
        drives(records::check_update_family(s), Operation::UpdateWhereCount),
{
    reveal_with_fuel(drives, 90);
}

proof fn lemma_check_delete_family_drives(s: Script)
    ensures
        drives(records::check_delete_family(s), Operation::Delete),
        drives(records::check_delete_family(s), Operation::DeleteWhere),
        drives(records::check_delete_family(s), Operation::DeleteWhereCount),
{
    reveal_with_fuel(drives, 90);
}

proof fn lemma_check_take_where_drives(s: Script)
    ensures
        drives(records::check_take_where(s), Operation::TakeWhere),
{
    reveal_with_fuel(drives, 90);
}

proof fn lemma_check_increment_drives(s: Script)
    ensures
        drives(counters::check_increment(s), Operation::IncrementFieldWhere),
{
    reveal_with_fuel(drives, 90);
}

proof fn lemma_check_upsert_set_columns_drives(s: Script)
    ensures
        drives(counters::check_upsert_set_columns(s), Operation::Upsert),
{
    reveal_with_fuel(drives, 90);
}

proof fn lemma_check_aggregate_drives(s: Script)
    ensures
        drives(summaries::check_aggregate(s), Operation::Aggregate),
{
    reveal_with_fuel(drives, 90);
}

proof fn lemma_check_raw_sql_drives(s: Script)
    ensures
        drives(reading::check_raw_sql(s), Operation::QueryRaw),
        drives(reading::check_raw_sql(s), Operation::ExecRaw),
{
    reveal_with_fuel(drives, 90);
}

proof fn lemma_check_batch_delete_where_drives(s: Script)
    ensures
        drives(writing::check_batch_delete_where(s), Operation::Batch),
{
    reveal_with_fuel(drives, 90);
}

proof fn lemma_check_schema_management_drives(s: Script)
    ensures
        drives(tables::check_schema_management(s), Operation::SchemaTableExists),
        drives(tables::check_schema_management(s), Operation::EnsureSchemaTable),
        drives(tables::check_schema_management(s), Operation::EnsureSchemaTables),
        drives(tables::check_schema_management(s), Operation::SchemaAddColumn),
        drives(tables::check_schema_management(s), Operation::SchemaDropTable),
{
    reveal_with_fuel(drives, 90);
}

/// The suite reaches only tables of its own, whose names start with `conf_`, and
/// creates records only in tables that it dropped and made anew before: it can
/// be run again on a database that keeps what an earlier run left. Only what must
/// be refused is exempt.
pub proof fn the_suite_is_contained()
    ensures
        contained(suite::run_conformance()),
{
    let s0 = list().and(script::done(Call::Strict(false), "set_strict_schema"));
    let s1 = tables::check_schema_management(s0);
    let s2 = records::check_create_get(s1);
    let s3 = records::check_generated_ids(s2);
    let s4 = reading::check_count_and_sum(s3);
    let s5 = reading::check_list(s4);
    let s6 = reading::check_list_tiebreak(s5);
    let s7 = records::check_update_family(s6);
    let s8 = records::check_delete_family(s7);
    let s9 = records::check_take_where(s8);
    let s10 = records::check_create_many(s9);
    let s11 = writing::check_batch(s10);
    let s12 = writing::check_batch_delete_where(s11);
    let s13 = writing::check_guarded_writes(s12);
    let s14 = counters::check_increment(s13);
    let s15 = counters::check_upsert_set_columns(s14);
    let s16 = counters::check_upsert_windowed_counter(s15);
    let s17 = counters::check_upsert_windowed_counter_honours_its_columns(s16);
    let s18 = summaries::check_aggregate(s17);
    let s19 = summaries::check_aggregate_money(s18);
    let s20 = reading::check_raw_sql(s19);
    let s21 = values::check_json_value_round_trip(s20);
    let s22 = values::check_typed_values_round_trip(s21);
    let s23 = tables::check_names_are_verbatim_and_reads_never_reshape(s22);
    let s24 = tables::check_names_longer_than_postgres_keeps_are_refused(s23);
    reveal_with_fuel(contained, 2);
    lemma_check_schema_management(s0);
    lemma_check_create_get(s1);
    lemma_check_generated_ids(s2);
    lemma_check_count_and_sum(s3);
    lemma_check_list(s4);
    lemma_check_list_tiebreak(s5);
    lemma_check_update_family(s6);
    lemma_check_delete_family(s7);
    lemma_check_take_where(s8);
    lemma_check_create_many(s9);
    lemma_check_batch(s10);
    lemma_check_batch_delete_where(s11);
    lemma_check_guarded_writes(s12);
    lemma_check_increment(s13);
    lemma_check_upsert_set_columns(s14);
    lemma_check_upsert_windowed_counter(s15);
    lemma_check_upsert_windowed_counter_honours_its_columns(s16);
    lemma_check_aggregate(s17);
    lemma_check_aggregate_money(s18);
    lemma_check_raw_sql(s19);
    lemma_check_json_value_round_trip(s20);
    lemma_check_typed_values_round_trip(s21);
    lemma_check_names_are_verbatim_and_reads_never_reshape(s22);
    lemma_check_names_longer_than_postgres_keeps_are_refused(s23);
}

/// So does the suite for two services.
pub proof fn the_suite_for_two_is_contained()
    ensures
        contained(suite::run_two_instance_conformance()),
{
    reveal_with_fuel(contained, 3);
    let s0 = list().and(script::done(Call::Strict(false), "set_strict_schema"));
    let s1 = s0.and(script::done(Call::Strict(false), "set_strict_schema").elsewhere());
    lemma_check_table_created_by_another_instance_is_seen(s1);
}

/// The suite drives every operation of the service.
pub proof fn every_operation_is_driven(op: Operation)
    ensures
        drives(suite::run_conformance(), op),
{
    let s0 = list().and(script::done(Call::Strict(false), "set_strict_schema"));
    let s1 = tables::check_schema_management(s0);
    let s2 = records::check_create_get(s1);
    let s3 = records::check_generated_ids(s2);
    let s4 = reading::check_count_and_sum(s3);
    let s5 = reading::check_list(s4);
    let s6 = reading::check_list_tiebreak(s5);
    let s7 = records::check_update_family(s6);
    let s8 = records::check_delete_family(s7);
    let s9 = records::check_take_where(s8);
    let s10 = records::check_create_many(s9);
    let s11 = writing::check_batch(s10);
    let s12 = writing::check_batch_delete_where(s11);
    let s13 = writing::check_guarded_writes(s12);
    let s14 = counters::check_increment(s13);
    let s15 = counters::check_upsert_set_columns(s14);
    let s16 = counters::check_upsert_windowed_counter(s15);
    let s17 = counters::check_upsert_windowed_counter_honours_its_columns(s16);
    let s18 = summaries::check_aggregate(s17);
    let s19 = summaries::check_aggregate_money(s18);
    let s20 = reading::check_raw_sql(s19);
    let s21 = values::check_json_value_round_trip(s20);
    let s22 = values::check_typed_values_round_trip(s21);
    let s23 = tables::check_names_are_verbatim_and_reads_never_reshape(s22);
    let s24 = tables::check_names_longer_than_postgres_keeps_are_refused(s23);
    reveal_with_fuel(contained, 2);
    lemma_check_schema_management(s0);
    lemma_check_create_get(s1);
    lemma_check_generated_ids(s2);
    lemma_check_count_and_sum(s3);
    lemma_check_list(s4);
    lemma_check_list_tiebreak(s5);
    lemma_check_update_family(s6);
    lemma_check_delete_family(s7);
    lemma_check_take_where(s8);
    lemma_check_create_many(s9);
    lemma_check_batch(s10);
    lemma_check_batch_delete_where(s11);
    lemma_check_guarded_writes(s12);
    lemma_check_increment(s13);
    lemma_check_upsert_set_columns(s14);
    lemma_check_upsert_windowed_counter(s15);
    lemma_check_upsert_windowed_counter_honours_its_columns(s16);
    lemma_check_aggregate(s17);
    lemma_check_aggregate_money(s18);
    lemma_check_raw_sql(s19);
    lemma_check_json_value_round_trip(s20);
    lemma_check_typed_values_round_trip(s21);
    lemma_check_names_are_verbatim_and_reads_never_reshape(s22);
    lemma_check_names_longer_than_postgres_keeps_are_refused(s23);
    // Each step begins the last one.
    lemma_begins(s22, s23, s24);
    lemma_begins(s21, s22, s24);
    lemma_begins(s20, s21, s24);
    lemma_begins(s19, s20, s24);
    lemma_begins(s18, s19, s24);
    lemma_begins(s17, s18, s24);
    lemma_begins(s16, s17, s24);
    lemma_begins(s15, s16, s24);
    lemma_begins(s14, s15, s24);
    lemma_begins(s13, s14, s24);
    lemma_begins(s12, s13, s24);
    lemma_begins(s11, s12, s24);
    lemma_begins(s10, s11, s24);
    lemma_begins(s9, s10, s24);
    lemma_begins(s8, s9, s24);
    lemma_begins(s7, s8, s24);
    lemma_begins(s6, s7, s24);
    lemma_begins(s5, s6, s24);
    lemma_begins(s4, s5, s24);
    lemma_begins(s3, s4, s24);
    lemma_begins(s2, s3, s24);
    lemma_begins(s1, s2, s24);
    lemma_begins(s0, s1, s24);
    reveal_with_fuel(drives, 2);
    lemma_check_create_get_drives(s1);
    lemma_check_list_drives(s4);
    lemma_check_count_and_sum_drives(s3);
    lemma_check_generated_ids_drives(s2);
    lemma_check_guarded_writes_drives(s12);
    lemma_check_update_family_drives(s6);
    lemma_check_delete_family_drives(s7);
    lemma_check_take_where_drives(s8);
    lemma_check_increment_drives(s13);
    lemma_check_upsert_set_columns_drives(s14);
    lemma_check_aggregate_drives(s17);
    lemma_check_raw_sql_drives(s19);
    lemma_check_batch_delete_where_drives(s11);
    lemma_check_schema_management_drives(s0);
    match op {
        Operation::Get => lemma_drives(s2, s24, op),
        Operation::List => lemma_drives(s5, s24, op),
        Operation::Count => lemma_drives(s4, s24, op),
        Operation::Sum => lemma_drives(s4, s24, op),
        Operation::Create => lemma_drives(s2, s24, op),
        Operation::CreateMany => lemma_drives(s3, s24, op),
        Operation::InsertGuarded => lemma_drives(s3, s24, op),
        Operation::UpdateGuarded => lemma_drives(s13, s24, op),
        Operation::Update => lemma_drives(s7, s24, op),
        Operation::Delete => lemma_drives(s8, s24, op),
        Operation::DeleteWhere => lemma_drives(s8, s24, op),
        Operation::DeleteWhereCount => lemma_drives(s8, s24, op),
        Operation::TakeWhere => lemma_drives(s9, s24, op),
        Operation::UpdateWhere => lemma_drives(s7, s24, op),
        Operation::UpdateWhereCount => lemma_drives(s7, s24, op),
        Operation::IncrementFieldWhere => lemma_drives(s14, s24, op),
        Operation::Upsert => lemma_drives(s15, s24, op),
        Operation::Aggregate => lemma_drives(s18, s24, op),
        Operation::QueryRaw => lemma_drives(s20, s24, op),
        Operation::ExecRaw => lemma_drives(s20, s24, op),
        Operation::Batch => lemma_drives(s12, s24, op),
        Operation::SchemaTableExists => lemma_drives(s1, s24, op),
        Operation::SchemaColumns => lemma_drives(s2, s24, op),
        Operation::EnsureSchemaTable => lemma_drives(s1, s24, op),
        Operation::EnsureSchemaTables => lemma_drives(s1, s24, op),
        Operation::SchemaAddColumn => lemma_drives(s1, s24, op),
        Operation::SchemaDropTable => lemma_drives(s1, s24, op),
        Operation::SetStrictSchema => lemma_drives(s0, s24, op),
    }
}

} // verus!
