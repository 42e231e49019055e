//! What is asked of single records, and of many at once.

use vstd::prelude::*;

use crate::database::conformance::judge::{
    Effect, Expect, Fault, FieldCheck, Keep, ListCheck, RecordCheck,
};
use crate::database::conformance::list::{list, List};
use crate::database::conformance::probe::{
    crud_table, eq, everything, everywhere, fraction, nullable, number, pk_int, row, table, text,
    where_eq, Call, Datum, Entry, Write,
};
use crate::database::conformance::script::{
    columns_of, count, counts, create, create_many, delete, delete_where_count, done, equals,
    fails, get, gives, gives_kept, has, insert_guarded, int_is, list_of, lists, probe, reset,
    take_where, update, update_where_count, Probe, Script,
};
use crate::database::schema::DataType;

verus! {

/// A record that read checks share.
#[verifier::allow_in_spec]
pub fn seed_read(
    s: Script,
    id: &'static str,
    name: &'static str,
    category: &'static str,
    score: i64,
    amount: Datum,
    note: Option<&'static str>,
    created: &'static str,
) -> Script
    returns
        ({
            let data = row().with("id", text(id)).with("name", text(name)).with(
                "category",
                text(category),
            ).with("score", number(score)).with("amount", amount).with("created_at", text(created));
            let data = match note {
                Some(n) => data.with("note", text(n)),
                None => data,
            };
            s.and(
                gives(
                    create("conf_read", data),
                    list().and(RecordCheck::Id(id)),
                    "create must preserve the supplied id",
                ),
            )
        }),
{
    let data = row().with("id", text(id)).with("name", text(name)).with(
        "category",
        text(category),
    ).with("score", number(score)).with("amount", amount).with("created_at", text(created));
    let data = match note {
        Some(n) => data.with("note", text(n)),
        None => data,
    };
    s.and(
        gives(
            create("conf_read", data),
            list().and(RecordCheck::Id(id)),
            "create must preserve the supplied id",
        ),
    )
}

/// Five records that read checks share; nothing changes them afterwards.
#[verifier::allow_in_spec]
pub fn seed_read_fixture(s: Script) -> Script
    returns
        ({
            let s = reset(s, crud_table("conf_read"));
            let s = seed_read(
                s,
                "r1",
                "alpha",
                "x",
                10,
                fraction("10.0", "10", 10, 0x4024_0000_0000_0000),
                Some("hi"),
                "2026-01-15",
            );
            let s = seed_read(
                s,
                "r2",
                "bravo",
                "x",
                20,
                fraction("20.0", "20", 20, 0x4034_0000_0000_0000),
                None,
                "2026-01-15",
            );
            let s = seed_read(
                s,
                "r3",
                "charlie",
                "y",
                5,
                fraction("5.0", "5", 5, 0x4014_0000_0000_0000),
                None,
                "2026-01-16",
            );
            let s = seed_read(
                s,
                "r4",
                "delta",
                "y",
                5,
                fraction("5.0", "5", 5, 0x4014_0000_0000_0000),
                None,
                "2026-01-16",
            );
            seed_read(
                s,
                "r5",
                "echo",
                "z",
                100,
                fraction("100.0", "100", 100, 0x4059_0000_0000_0000),
                None,
                "2026-01-16",
            )
        }),
{
    let s = reset(s, crud_table("conf_read"));
    let s = seed_read(
        s,
        "r1",
        "alpha",
        "x",
        10,
        fraction("10.0", "10", 10, 0x4024_0000_0000_0000),
        Some("hi"),
        "2026-01-15",
    );
    let s = seed_read(
        s,
        "r2",
        "bravo",
        "x",
        20,
        fraction("20.0", "20", 20, 0x4034_0000_0000_0000),
        None,
        "2026-01-15",
    );
    let s = seed_read(
        s,
        "r3",
        "charlie",
        "y",
        5,
        fraction("5.0", "5", 5, 0x4014_0000_0000_0000),
        None,
        "2026-01-16",
    );
    let s = seed_read(
        s,
        "r4",
        "delta",
        "y",
        5,
        fraction("5.0", "5", 5, 0x4014_0000_0000_0000),
        None,
        "2026-01-16",
    );
    seed_read(
        s,
        "r5",
        "echo",
        "z",
        100,
        fraction("100.0", "100", 100, 0x4059_0000_0000_0000),
        None,
        "2026-01-16",
    )
}

/// What is created is read back, an id is made up where none is given, and a
/// taken id is refused without touching its record.
#[verifier::allow_in_spec]
pub fn check_create_get(s: Script) -> Script
    returns
        ({
            let s = seed_read_fixture(s);
            let s = s.and(
                gives(
                    get("conf_read", "r1"),
                    list().and(RecordCheck::Id("r1")).having("name", equals(text("alpha"))).having(
                        "category",
                        equals(text("x")),
                    ).having("score", int_is(10)).having("note", equals(text("hi"))),
                    "create then get round-trips every stored field",
                ),
            );
            let s = s.and(
                gives_kept(
                    create(
                        "conf_read",
                        row().with("name", text("auto")).with("category", text("gen")).with(
                            "score",
                            number(1),
                        ),
                    ),
                    list().and(RecordCheck::SomeId),
                    "auto",
                    "backend must synthesize a non-empty id",
                ),
            );
            let s = s.and(
                gives(
                    Call::GetKept { table: "conf_read", kept: "auto" },
                    has("name", equals(text("auto"))),
                    "get generated id",
                ),
            );
            let s = s.and(
                gives(
                    get("conf_read", "r2"),
                    has("note", equals(Datum::Null)),
                    "unset nullable column must be NULL, not absent or a wrong default",
                ),
            );
            let s = s.and(
                fails(get("conf_read", "does-not-exist"), Fault::NotFound, "missing row must error"),
            );
            let s = s.and(
                probe(
                    get("conf_read", "r1"),
                    Expect::Record { checks: list(), keep: Keep::Data },
                    "get r1",
                ),
            );
            let s = s.and(
                fails(
                    create(
                        "conf_read",
                        row().with("id", text("r1")).with("name", text("overwritten")).with(
                            "score",
                            number(999),
                        ),
                    ),
                    Fault::AlreadyExists,
                    "a create with a taken id must fail as AlreadyExists",
                ),
            );
            let s = s.and(
                gives(
                    get("conf_read", "r1"),
                    list().and(RecordCheck::DataKept),
                    "a refused create must not touch the row",
                ),
            );
            let s = s.and(
                probe(
                    columns_of("conf_read"),
                    Expect::Columns(
                        list().and("id").and("name").and("score").and("created_at").and("updated_at"),
                    ),
                    "schema_columns must list the columns",
                ),
            );
            let s = s.and(
                probe(
                    columns_of("conf_no_such_table"),
                    Expect::NoColumns,
                    "schema_columns of a missing table",
                ),
            );
            let s = s.and(
                done(Call::DeleteKept { table: "conf_read", kept: "auto" }, "cleanup auto row"),
            );
            s.and(
                counts(
                    count("conf_read", everywhere()),
                    5,
                    "fixture must hold exactly five rows for downstream read checks",
                ),
            )
        }),
{
    let s = seed_read_fixture(s);
    let s = s.and(
        gives(
            get("conf_read", "r1"),
            list().and(RecordCheck::Id("r1")).having("name", equals(text("alpha"))).having(
                "category",
                equals(text("x")),
            ).having("score", int_is(10)).having("note", equals(text("hi"))),
            "create then get round-trips every stored field",
        ),
    );
    let s = s.and(
        gives_kept(
            create(
                "conf_read",
                row().with("name", text("auto")).with("category", text("gen")).with(
                    "score",
                    number(1),
                ),
            ),
            list().and(RecordCheck::SomeId),
            "auto",
            "backend must synthesize a non-empty id",
        ),
    );
    let s = s.and(
        gives(
            Call::GetKept { table: "conf_read", kept: "auto" },
            has("name", equals(text("auto"))),
            "get generated id",
        ),
    );
    let s = s.and(
        gives(
            get("conf_read", "r2"),
            has("note", equals(Datum::Null)),
            "unset nullable column must be NULL, not absent or a wrong default",
        ),
    );
    let s = s.and(
        fails(get("conf_read", "does-not-exist"), Fault::NotFound, "missing row must error"),
    );
    let s = s.and(
        probe(
            get("conf_read", "r1"),
            Expect::Record { checks: list(), keep: Keep::Data },
            "get r1",
        ),
    );
    let s = s.and(
        fails(
            create(
                "conf_read",
                row().with("id", text("r1")).with("name", text("overwritten")).with(
                    "score",
                    number(999),
                ),
            ),
            Fault::AlreadyExists,
            "a create with a taken id must fail as AlreadyExists",
        ),
    );
    let s = s.and(
        gives(
            get("conf_read", "r1"),
            list().and(RecordCheck::DataKept),
            "a refused create must not touch the row",
        ),
    );
    let s = s.and(
        probe(
            columns_of("conf_read"),
            Expect::Columns(
                list().and("id").and("name").and("score").and("created_at").and("updated_at"),
            ),
            "schema_columns must list the columns",
        ),
    );
    let s = s.and(
        probe(
            columns_of("conf_no_such_table"),
            Expect::NoColumns,
            "schema_columns of a missing table",
        ),
    );
    let s = s.and(
        done(Call::DeleteKept { table: "conf_read", kept: "auto" }, "cleanup auto row"),
    );
    s.and(
        counts(
            count("conf_read", everywhere()),
            5,
            "fixture must hold exactly five rows for downstream read checks",
        ),
    )
}

/// A table that numbers its own rows fills the id on every way to create one,
/// and no id is made up for it.
#[verifier::allow_in_spec]
pub fn check_generated_ids(s: Script) -> Script
    returns
        ({
            let s = reset(
                s,
                table(
                    "conf_serial",
                    list().and(pk_int("id")).and(nullable("name", DataType::Text)).and(
                        nullable("created_at", DataType::Text),
                    ).and(nullable("updated_at", DataType::Text)),
                ),
            );
            let s = s.and(
                gives_kept(
                    create("conf_serial", row().with("name", text("first"))),
                    list().and(RecordCheck::IdSpells("id")),
                    "first",
                    "create without an id in a table that numbers its rows",
                ),
            );
            let s = s.and(
                gives_kept(
                    create("conf_serial", row().with("name", text("second"))),
                    list().and(RecordCheck::IdSpells("id")).and(RecordCheck::IdNotKept("first")),
                    "second",
                    "each row gets its own id",
                ),
            );
            let s = s.and(
                gives(
                    Call::GetKept { table: "conf_serial", kept: "first" },
                    has("name", equals(text("first"))).having("id", FieldCheck::SpellsKept("first")),
                    "get by the first returned id",
                ),
            );
            let s = s.and(
                gives(
                    Call::GetKept { table: "conf_serial", kept: "second" },
                    has("name", equals(text("second"))).having("id", FieldCheck::SpellsKept("second")),
                    "get by the second returned id",
                ),
            );
            let s = s.and(
                gives(
                    Call::UpdateKept {
                        table: "conf_serial",
                        kept: "first",
                        data: row().with("name", text("renamed")),
                    },
                    has("name", equals(text("renamed"))),
                    "update by the returned id",
                ),
            );
            let s = s.and(
                done(
                    Call::DeleteKept { table: "conf_serial", kept: "second" },
                    "delete by the returned id",
                ),
            );
            let s = s.and(
                counts(
                    create_many(
                        "conf_serial",
                        list().and(row().with("name", text("many-1"))).and(
                            row().with("name", text("many-2")),
                        ),
                    ),
                    2,
                    "create_many without ids",
                ),
            );
            let batched = Write::Create {
                table: "conf_serial",
                data: row().with("name", text("batched")),
            };
            let s = s.and(
                probe(
                    Call::Batch(list().and(batched)),
                    Expect::Effects {
                        count: Some(1),
                        effects: list().and((0usize, Effect::Created(has("id", FieldCheck::Integer)))),
                        keep_id: None,
                    },
                    "batch create without an id",
                ),
            );
            let s = s.and(
                probe(
                    insert_guarded("conf_serial", row().with("name", text("guarded")), list()),
                    Expect::Inserted(has("id", FieldCheck::Integer)),
                    "guarded insert without an id",
                ),
            );
            s.and(
                lists(
                    list_of("conf_serial", everything()),
                    list().and(ListCheck::DistinctInts { column: "id", count: 5 }),
                    "five rows, five distinct ids",
                ),
            )
        }),
{
    let s = reset(
        s,
        table(
            "conf_serial",
            list().and(pk_int("id")).and(nullable("name", DataType::Text)).and(
                nullable("created_at", DataType::Text),
            ).and(nullable("updated_at", DataType::Text)),
        ),
    );
    let s = s.and(
        gives_kept(
            create("conf_serial", row().with("name", text("first"))),
            list().and(RecordCheck::IdSpells("id")),
            "first",
            "create without an id in a table that numbers its rows",
        ),
    );
    let s = s.and(
        gives_kept(
            create("conf_serial", row().with("name", text("second"))),
            list().and(RecordCheck::IdSpells("id")).and(RecordCheck::IdNotKept("first")),
            "second",
            "each row gets its own id",
        ),
    );
    let s = s.and(
        gives(
            Call::GetKept { table: "conf_serial", kept: "first" },
            has("name", equals(text("first"))).having("id", FieldCheck::SpellsKept("first")),
            "get by the first returned id",
        ),
    );
    let s = s.and(
        gives(
            Call::GetKept { table: "conf_serial", kept: "second" },
            has("name", equals(text("second"))).having("id", FieldCheck::SpellsKept("second")),
            "get by the second returned id",
        ),
    );
    let s = s.and(
        gives(
            Call::UpdateKept {
                table: "conf_serial",
                kept: "first",
                data: row().with("name", text("renamed")),
            },
            has("name", equals(text("renamed"))),
            "update by the returned id",
        ),
    );
    let s = s.and(
        done(
            Call::DeleteKept { table: "conf_serial", kept: "second" },
            "delete by the returned id",
        ),
    );
    let s = s.and(
        counts(
            create_many(
                "conf_serial",
                list().and(row().with("name", text("many-1"))).and(
                    row().with("name", text("many-2")),
                ),
            ),
            2,
            "create_many without ids",
        ),
    );
    let batched = Write::Create {
        table: "conf_serial",
        data: row().with("name", text("batched")),
    };
    let s = s.and(
        probe(
            Call::Batch(list().and(batched)),
            Expect::Effects {
                count: Some(1),
                effects: list().and((0usize, Effect::Created(has("id", FieldCheck::Integer)))),
                keep_id: None,
            },
            "batch create without an id",
        ),
    );
    let s = s.and(
        probe(
            insert_guarded("conf_serial", row().with("name", text("guarded")), list()),
            Expect::Inserted(has("id", FieldCheck::Integer)),
            "guarded insert without an id",
        ),
    );
    s.and(
        lists(
            list_of("conf_serial", everything()),
            list().and(ListCheck::DistinctInts { column: "id", count: 5 }),
            "five rows, five distinct ids",
        ),
    )
}

/// A record in a category.
#[verifier::allow_in_spec]
pub fn seed_update(
    s: Script,
    table: &'static str,
    id: &'static str,
    category: &'static str,
    what: &'static str,
) -> Script
    returns
        s.and(
            done(
                create(
                    table,
                    row().with("id", text(id)).with("category", text(category)).with(
                        "name",
                        text("orig"),
                    ).with("score", number(1)),
                ),
                what,
            ),
        ),
{
    s.and(
        done(
            create(
                table,
                row().with("id", text(id)).with("category", text(category)).with(
                    "name",
                    text("orig"),
                ).with("score", number(1)),
            ),
            what,
        ),
    )
}

/// The record has such a score.
#[verifier::allow_in_spec]
pub fn scores(table: &'static str, id: &'static str, n: i64, what: &'static str) -> Probe
    returns
        gives(get(table, id), has("score", int_is(n)), what),
{
    gives(get(table, id), has("score", int_is(n)), what)
}

/// The record has such a name.
#[verifier::allow_in_spec]
pub fn named(table: &'static str, id: &'static str, name: &'static str, what: &'static str) -> Probe
    returns
        gives(get(table, id), has("name", equals(text(name))), what),
{
    gives(get(table, id), has("name", equals(text(name))), what)
}

/// An update reaches its record, or every record that matches, and no other.
#[verifier::allow_in_spec]
pub fn check_update_family(s: Script) -> Script
    returns
        ({
            let s = reset(s, crud_table("conf_update"));
            let s = seed_update(s, "conf_update", "u1", "a", "seed conf_update");
            let s = seed_update(s, "conf_update", "u2", "a", "seed conf_update");
            let s = seed_update(s, "conf_update", "u3", "b", "seed conf_update");
            let s = s.and(
                gives(
                    update("conf_update", "u1", row().with("score", number(9))),
                    has("score", int_is(9)),
                    "returned record reflects update",
                ),
            );
            let s = s.and(scores("conf_update", "u1", 9, "persisted update"));
            let s = s.and(scores("conf_update", "u2", 1, "sibling row untouched"));
            let s = s.and(
                done(
                    Call::UpdateWhere {
                        table: "conf_update",
                        filters: where_eq("category", text("a")),
                        data: row().with("name", text("X")),
                    },
                    "update_where a",
                ),
            );
            let s = s.and(named("conf_update", "u1", "X", "category=a rows renamed"));
            let s = s.and(named("conf_update", "u2", "X", "category=a rows renamed"));
            let s = s.and(
                named("conf_update", "u3", "orig", "category=b row untouched by category=a update"),
            );
            let s = s.and(
                counts(
                    update_where_count(
                        "conf_update",
                        where_eq("category", text("b")),
                        row().with("name", text("Y")),
                    ),
                    1,
                    "exactly one category=b row updated",
                ),
            );
            let s = s.and(named("conf_update", "u3", "Y", "get u3"));
            s.and(
                counts(
                    update_where_count(
                        "conf_update",
                        where_eq("category", text("nomatch")),
                        row().with("name", text("Z")),
                    ),
                    0,
                    "no matching rows -> zero updated",
                ),
            )
        }),
{
    let s = reset(s, crud_table("conf_update"));
    let s = seed_update(s, "conf_update", "u1", "a", "seed conf_update");
    let s = seed_update(s, "conf_update", "u2", "a", "seed conf_update");
    let s = seed_update(s, "conf_update", "u3", "b", "seed conf_update");
    let s = s.and(
        gives(
            update("conf_update", "u1", row().with("score", number(9))),
            has("score", int_is(9)),
            "returned record reflects update",
        ),
    );
    let s = s.and(scores("conf_update", "u1", 9, "persisted update"));
    let s = s.and(scores("conf_update", "u2", 1, "sibling row untouched"));
    let s = s.and(
        done(
            Call::UpdateWhere {
                table: "conf_update",
                filters: where_eq("category", text("a")),
                data: row().with("name", text("X")),
            },
            "update_where a",
        ),
    );
    let s = s.and(named("conf_update", "u1", "X", "category=a rows renamed"));
    let s = s.and(named("conf_update", "u2", "X", "category=a rows renamed"));
    let s = s.and(
        named("conf_update", "u3", "orig", "category=b row untouched by category=a update"),
    );
    let s = s.and(
        counts(
            update_where_count(
                "conf_update",
                where_eq("category", text("b")),
                row().with("name", text("Y")),
            ),
            1,
            "exactly one category=b row updated",
        ),
    );
    let s = s.and(named("conf_update", "u3", "Y", "get u3"));
    s.and(
        counts(
            update_where_count(
                "conf_update",
                where_eq("category", text("nomatch")),
                row().with("name", text("Z")),
            ),
            0,
            "no matching rows -> zero updated",
        ),
    )
}

/// A record in a category.
#[verifier::allow_in_spec]
pub fn seed_delete(s: Script, id: &'static str, category: &'static str) -> Script
    returns
        s.and(
            done(
                create(
                    "conf_delete",
                    row().with("id", text(id)).with("category", text(category)),
                ),
                "seed conf_delete",
            ),
        ),
{
    s.and(
        done(
            create(
                "conf_delete",
                row().with("id", text(id)).with("category", text(category)),
            ),
            "seed conf_delete",
        ),
    )
}

/// A delete removes its record, or every record that matches, and counts them.
#[verifier::allow_in_spec]
pub fn check_delete_family(s: Script) -> Script
    returns
        ({
            let s = reset(s, crud_table("conf_delete"));
            let s = seed_delete(s, "d1", "a");
            let s = seed_delete(s, "d2", "a");
            let s = seed_delete(s, "d3", "b");
            let s = seed_delete(s, "d4", "b");
            let s = seed_delete(s, "d5", "c");
            let s = s.and(done(delete("conf_delete", "d5"), "delete d5"));
            let s = s.and(
                fails(get("conf_delete", "d5"), Fault::NotFound, "deleted row must be NotFound"),
            );
            let s = s.and(counts(count("conf_delete", everywhere()), 4, "count after delete"));
            let s = s.and(
                done(
                    Call::DeleteWhere {
                        table: "conf_delete",
                        filters: where_eq("category", text("a")),
                    },
                    "delete_where a",
                ),
            );
            let s = s.and(
                counts(
                    count("conf_delete", where_eq("category", text("a"))),
                    0,
                    "all category=a rows deleted",
                ),
            );
            let s = s.and(counts(count("conf_delete", everywhere()), 2, "count after delete_where"));
            let s = s.and(
                counts(
                    delete_where_count("conf_delete", where_eq("category", text("b"))),
                    2,
                    "two category=b rows removed",
                ),
            );
            let s = s.and(
                counts(count("conf_delete", everywhere()), 0, "count after delete_where_count"),
            );
            s.and(
                counts(
                    delete_where_count("conf_delete", where_eq("category", text("gone"))),
                    0,
                    "no matching rows -> zero removed",
                ),
            )
        }),
{
    let s = reset(s, crud_table("conf_delete"));
    let s = seed_delete(s, "d1", "a");
    let s = seed_delete(s, "d2", "a");
    let s = seed_delete(s, "d3", "b");
    let s = seed_delete(s, "d4", "b");
    let s = seed_delete(s, "d5", "c");
    let s = s.and(done(delete("conf_delete", "d5"), "delete d5"));
    let s = s.and(
        fails(get("conf_delete", "d5"), Fault::NotFound, "deleted row must be NotFound"),
    );
    let s = s.and(counts(count("conf_delete", everywhere()), 4, "count after delete"));
    let s = s.and(
        done(
            Call::DeleteWhere {
                table: "conf_delete",
                filters: where_eq("category", text("a")),
            },
            "delete_where a",
        ),
    );
    let s = s.and(
        counts(
            count("conf_delete", where_eq("category", text("a"))),
            0,
            "all category=a rows deleted",
        ),
    );
    let s = s.and(counts(count("conf_delete", everywhere()), 2, "count after delete_where"));
    let s = s.and(
        counts(
            delete_where_count("conf_delete", where_eq("category", text("b"))),
            2,
            "two category=b rows removed",
        ),
    );
    let s = s.and(
        counts(count("conf_delete", everywhere()), 0, "count after delete_where_count"),
    );
    s.and(
        counts(
            delete_where_count("conf_delete", where_eq("category", text("gone"))),
            0,
            "no matching rows -> zero removed",
        ),
    )
}

/// A record in a category.
#[verifier::allow_in_spec]
pub fn seed_take(s: Script, id: &'static str, category: &'static str) -> Script
    returns
        s.and(
            done(
                create(
                    "conf_take",
                    row().with("id", text(id)).with("category", text(category)).with(
                        "name",
                        text(id),
                    ),
                ),
                "seed conf_take",
            ),
        ),
{
    s.and(
        done(
            create(
                "conf_take",
                row().with("id", text(id)).with("category", text(category)).with(
                    "name",
                    text(id),
                ),
            ),
            "seed conf_take",
        ),
    )
}

/// What is taken is given back and gone.
#[verifier::allow_in_spec]
pub fn check_take_where(s: Script) -> Script
    returns
        ({
            let s = reset(s, crud_table("conf_take"));
            let s = seed_take(s, "t1", "x");
            let s = seed_take(s, "t2", "x");
            let s = seed_take(s, "t3", "y");
            let s = s.and(
                lists(
                    take_where("conf_take", where_eq("category", text("x"))),
                    list().and(ListCheck::Len(2)).and(
                        ListCheck::IdsInAnyOrder(list().and("t1").and("t2")),
                    ),
                    "returned rows carry their ids",
                ),
            );
            let s = s.and(
                counts(
                    count("conf_take", everywhere()),
                    1,
                    "taken rows are gone; only t3 remains",
                ),
            );
            s.and(
                lists(
                    take_where("conf_take", where_eq("category", text("x"))),
                    list().and(ListCheck::Len(0)),
                    "nothing left to take",
                ),
            )
        }),
{
    let s = reset(s, crud_table("conf_take"));
    let s = seed_take(s, "t1", "x");
    let s = seed_take(s, "t2", "x");
    let s = seed_take(s, "t3", "y");
    let s = s.and(
        lists(
            take_where("conf_take", where_eq("category", text("x"))),
            list().and(ListCheck::Len(2)).and(
                ListCheck::IdsInAnyOrder(list().and("t1").and("t2")),
            ),
            "returned rows carry their ids",
        ),
    );
    let s = s.and(
        counts(
            count("conf_take", everywhere()),
            1,
            "taken rows are gone; only t3 remains",
        ),
    );
    s.and(
        lists(
            take_where("conf_take", where_eq("category", text("x"))),
            list().and(ListCheck::Len(0)),
            "nothing left to take",
        ),
    )
}

/// A row that has an id only.
#[verifier::allow_in_spec]
pub fn identified(id: &'static str) -> List<Entry>
    returns
        row().with("id", text(id)),
{
    row().with("id", text(id))
}

/// Many records are created at once, or none of them.
#[verifier::allow_in_spec]
pub fn check_create_many(s: Script) -> Script
    returns
        ({
            let s = reset(s, crud_table("conf_create_many"));
            let s = s.and(
                counts(
                    Call::CreateNumbered { table: "conf_create_many", count: 100 },
                    100,
                    "create_many reports every row inserted",
                ),
            );
            let s = s.and(
                counts(count("conf_create_many", everywhere()), 100, "all 100 rows landed"),
            );
            let s = s.and(
                counts(
                    count("conf_create_many", where_eq("note", text("third"))),
                    34,
                    "the sparse column landed on exactly the rows that carried it",
                ),
            );
            let stamped = list().and(RecordCheck::SomeId).having("score", int_is(42)).having(
                "created_at",
                FieldCheck::Text,
            ).having("updated_at", FieldCheck::Text);
            let s = s.and(
                lists(
                    list_of("conf_create_many", everything().filtered(eq("name", text("m042")))),
                    list().and(ListCheck::Len(1)).and(ListCheck::At(0, stamped)),
                    "rows are stamped like create",
                ),
            );
            let s = s.and(
                done(create("conf_create_many", identified("taken")), "seed the conflicting id"),
            );
            let s = s.and(
                fails(
                    create_many(
                        "conf_create_many",
                        list().and(identified("fresh1")).and(identified("fresh2")).and(
                            identified("taken"),
                        ).and(identified("fresh3")),
                    ),
                    Fault::AlreadyExists,
                    "a duplicate key fails the call as AlreadyExists",
                ),
            );
            let s = s.and(
                counts(
                    count("conf_create_many", everywhere()),
                    101,
                    "no row of the failed call landed",
                ),
            );
            let s = s.and(
                fails(
                    get("conf_create_many", "fresh1"),
                    Fault::NotFound,
                    "fresh1 must not exist after the failed call",
                ),
            );
            let s = s.and(
                fails(
                    get("conf_create_many", "fresh2"),
                    Fault::NotFound,
                    "fresh2 must not exist after the failed call",
                ),
            );
            let s = s.and(
                fails(
                    get("conf_create_many", "fresh3"),
                    Fault::NotFound,
                    "fresh3 must not exist after the failed call",
                ),
            );
            s.and(counts(create_many("conf_create_many", list()), 0, "empty create_many"))
        }),
{
    let s = reset(s, crud_table("conf_create_many"));
    let s = s.and(
        counts(
            Call::CreateNumbered { table: "conf_create_many", count: 100 },
            100,
            "create_many reports every row inserted",
        ),
    );
    let s = s.and(
        counts(count("conf_create_many", everywhere()), 100, "all 100 rows landed"),
    );
    let s = s.and(
        counts(
            count("conf_create_many", where_eq("note", text("third"))),
            34,
            "the sparse column landed on exactly the rows that carried it",
        ),
    );
    let stamped = list().and(RecordCheck::SomeId).having("score", int_is(42)).having(
        "created_at",
        FieldCheck::Text,
    ).having("updated_at", FieldCheck::Text);
    let s = s.and(
        lists(
            list_of("conf_create_many", everything().filtered(eq("name", text("m042")))),
            list().and(ListCheck::Len(1)).and(ListCheck::At(0, stamped)),
            "rows are stamped like create",
        ),
    );
    let s = s.and(
        done(create("conf_create_many", identified("taken")), "seed the conflicting id"),
    );
    let s = s.and(
        fails(
            create_many(
                "conf_create_many",
                list().and(identified("fresh1")).and(identified("fresh2")).and(
                    identified("taken"),
                ).and(identified("fresh3")),
            ),
            Fault::AlreadyExists,
            "a duplicate key fails the call as AlreadyExists",
        ),
    );
    let s = s.and(
        counts(
            count("conf_create_many", everywhere()),
            101,
            "no row of the failed call landed",
        ),
    );
    let s = s.and(
        fails(
            get("conf_create_many", "fresh1"),
            Fault::NotFound,
            "fresh1 must not exist after the failed call",
        ),
    );
    let s = s.and(
        fails(
            get("conf_create_many", "fresh2"),
            Fault::NotFound,
            "fresh2 must not exist after the failed call",
        ),
    );
    let s = s.and(
        fails(
            get("conf_create_many", "fresh3"),
            Fault::NotFound,
            "fresh3 must not exist after the failed call",
        ),
    );
    s.and(counts(create_many("conf_create_many", list()), 0, "empty create_many"))
}

} // verus!
