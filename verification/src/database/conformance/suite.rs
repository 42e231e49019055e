//! The suite as a whole.

use vstd::prelude::*;

use crate::database::conformance::judge::{Expect, ListCheck, RecordCheck};
use crate::database::conformance::list::list;
use crate::database::conformance::probe::{
    crud_table, everything, everywhere, number, row, text, Call,
};
use crate::database::conformance::script::{
    count, counts, create, done, drop_table, gives_kept, list_of, lists, probe, sum, Script,
};
use crate::database::conformance::records::{
    check_create_get, check_create_many, check_delete_family, check_generated_ids,
    check_take_where, check_update_family,
};
use crate::database::conformance::tables::{
    check_names_are_verbatim_and_reads_never_reshape,
    check_names_longer_than_postgres_keeps_are_refused, check_schema_management,
};
use crate::database::conformance::reading::{
    check_count_and_sum, check_list, check_list_tiebreak, check_raw_sql,
};
use crate::database::conformance::writing::{
    check_batch, check_batch_delete_where, check_guarded_writes,
};
use crate::database::conformance::counters::{
    check_increment, check_upsert_set_columns, check_upsert_windowed_counter,
    check_upsert_windowed_counter_honours_its_columns,
};
use crate::database::conformance::summaries::{check_aggregate, check_aggregate_money};
use crate::database::conformance::values::{
    check_json_value_round_trip, check_typed_values_round_trip,
};
use crate::double::Within;

verus! {

/// The whole suite for one service. The schema is not strict while it runs.
#[verifier::allow_in_spec]
pub fn run_conformance() -> Script
    returns
        ({
            let s = list().and(done(Call::Strict(false), "set_strict_schema"));
            let s = check_schema_management(s);
            let s = check_create_get(s);
            let s = check_generated_ids(s);
            let s = check_count_and_sum(s);
            let s = check_list(s);
            let s = check_list_tiebreak(s);
            let s = check_update_family(s);
            let s = check_delete_family(s);
            let s = check_take_where(s);
            let s = check_create_many(s);
            let s = check_batch(s);
            let s = check_batch_delete_where(s);
            let s = check_guarded_writes(s);
            let s = check_increment(s);
            let s = check_upsert_set_columns(s);
            let s = check_upsert_windowed_counter(s);
            let s = check_upsert_windowed_counter_honours_its_columns(s);
            let s = check_aggregate(s);
            let s = check_aggregate_money(s);
            let s = check_raw_sql(s);
            let s = check_json_value_round_trip(s);
            let s = check_typed_values_round_trip(s);
            let s = check_names_are_verbatim_and_reads_never_reshape(s);
            check_names_longer_than_postgres_keeps_are_refused(s)
        }),
{
    let s = list().and(done(Call::Strict(false), "set_strict_schema"));
    let s = check_schema_management(s);
    let s = check_create_get(s);
    let s = check_generated_ids(s);
    let s = check_count_and_sum(s);
    let s = check_list(s);
    let s = check_list_tiebreak(s);
    let s = check_update_family(s);
    let s = check_delete_family(s);
    let s = check_take_where(s);
    let s = check_create_many(s);
    let s = check_batch(s);
    let s = check_batch_delete_where(s);
    let s = check_guarded_writes(s);
    let s = check_increment(s);
    let s = check_upsert_set_columns(s);
    let s = check_upsert_windowed_counter(s);
    let s = check_upsert_windowed_counter_honours_its_columns(s);
    let s = check_aggregate(s);
    let s = check_aggregate_money(s);
    let s = check_raw_sql(s);
    let s = check_json_value_round_trip(s);
    let s = check_typed_values_round_trip(s);
    let s = check_names_are_verbatim_and_reads_never_reshape(s);
    check_names_longer_than_postgres_keeps_are_refused(s)
}

/// A table that the first service saw missing is there for it once the second has
/// made it: that it was missing was not remembered.
#[verifier::allow_in_spec]
pub fn check_table_created_by_another_instance_is_seen(s: Script) -> Script
    returns
        ({
            let s = s.and(
                done(
                    drop_table("conf_shared_late"),
                    "schema_drop_table (idempotent) must succeed",
                ).elsewhere(),
            );
            let s = s.and(
                lists(
                    list_of("conf_shared_late", everything()),
                    list().and(ListCheck::Len(0)),
                    "the table is missing",
                ),
            );
            let s = s.and(
                counts(count("conf_shared_late", everywhere()), 0, "the table is missing to count"),
            );
            let s = s.and(
                done(
                    Call::EnsureTable(crud_table("conf_shared_late")),
                    "the other instance creates the table",
                ).elsewhere(),
            );
            let s = s.and(
                gives_kept(
                    create(
                        "conf_shared_late",
                        row().with("id", text("late-1")).with("name", text("seen")).with(
                            "score",
                            number(7),
                        ),
                    ),
                    list(),
                    "late",
                    "the other instance inserts a row",
                ).elsewhere(),
            );
            let created = list().and(RecordCheck::IdKept("late"));
            let s = s.and(
                lists(
                    list_of("conf_shared_late", everything()),
                    list().and(ListCheck::Len(1)).and(ListCheck::At(0, created)),
                    "a table another instance created must be visible to list",
                ),
            );
            let s = s.and(counts(count("conf_shared_late", everywhere()), 1, "and to count"));
            let s = s.and(
                probe(
                    sum("conf_shared_late", "score", everywhere()),
                    Expect::SumNear { whole: 7, within: Within::Epsilon },
                    "and to sum",
                ),
            );
            s.and(done(drop_table("conf_shared_late"), "drop the shared table").elsewhere())
        }),
{
    let s = s.and(
        done(
            drop_table("conf_shared_late"),
            "schema_drop_table (idempotent) must succeed",
        ).elsewhere(),
    );
    let s = s.and(
        lists(
            list_of("conf_shared_late", everything()),
            list().and(ListCheck::Len(0)),
            "the table is missing",
        ),
    );
    let s = s.and(
        counts(count("conf_shared_late", everywhere()), 0, "the table is missing to count"),
    );
    let s = s.and(
        done(
            Call::EnsureTable(crud_table("conf_shared_late")),
            "the other instance creates the table",
        ).elsewhere(),
    );
    let s = s.and(
        gives_kept(
            create(
                "conf_shared_late",
                row().with("id", text("late-1")).with("name", text("seen")).with(
                    "score",
                    number(7),
                ),
            ),
            list(),
            "late",
            "the other instance inserts a row",
        ).elsewhere(),
    );
    let created = list().and(RecordCheck::IdKept("late"));
    let s = s.and(
        lists(
            list_of("conf_shared_late", everything()),
            list().and(ListCheck::Len(1)).and(ListCheck::At(0, created)),
            "a table another instance created must be visible to list",
        ),
    );
    let s = s.and(counts(count("conf_shared_late", everywhere()), 1, "and to count"));
    let s = s.and(
        probe(
            sum("conf_shared_late", "score", everywhere()),
            Expect::SumNear { whole: 7, within: Within::Epsilon },
            "and to sum",
        ),
    );
    s.and(done(drop_table("conf_shared_late"), "drop the shared table").elsewhere())
}

/// The suite for two services over one database, neither of which may keep an
/// answer that the other has made stale.
#[verifier::allow_in_spec]
pub fn run_two_instance_conformance() -> Script
    returns
        ({
            let s = list().and(done(Call::Strict(false), "set_strict_schema"));
            let s = s.and(done(Call::Strict(false), "set_strict_schema").elsewhere());
            check_table_created_by_another_instance_is_seen(s)
        }),
{
    let s = list().and(done(Call::Strict(false), "set_strict_schema"));
    let s = s.and(done(Call::Strict(false), "set_strict_schema").elsewhere());
    check_table_created_by_another_instance_is_seen(s)
}

} // verus!
