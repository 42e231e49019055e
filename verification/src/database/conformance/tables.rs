//! What is asked of tables and of names.

use vstd::prelude::*;

use crate::database::conformance::judge::{Expect, ListCheck};
use crate::database::conformance::list::{list, List};
use crate::database::conformance::probe::{
    crud_table, eq, everything, everywhere, nullable, row, text, where_eq, Call, Cap, Condition,
    Group, Measure, Summary, Taken, Upserting, Write,
};
use crate::database::conformance::script::{
    aggregate, assert_invalid_argument, columns_of, count, counts, create, delete,
    delete_where_count, done, drop_table, equals, get, gives, has, insert_guarded, list_of, lists,
    probe, reset, sum, take_where, there_is, update_where_count, upsert, Script,
};
use crate::database::schema::DataType;

verus! {

/// Tables come and go: one by one and several at once, and a column that is
/// added can be written.
#[verifier::allow_in_spec]
pub fn check_schema_management(s: Script) -> Script
    returns
        ({
            let s = s.and(done(drop_table("conf_schema_x"), "pre-drop x"));
            let s = s.and(there_is("conf_schema_x", false, "table must not exist before creation"));
            let s = s.and(done(Call::EnsureTable(crud_table("conf_schema_x")), "ensure x"));
            let s = s.and(
                there_is("conf_schema_x", true, "table must exist after ensure_schema_table"),
            );
            let extra = nullable("extra", DataType::Text);
            let s = s.and(
                done(Call::AddColumn { table: "conf_schema_x", column: extra }, "add_column extra"),
            );
            let s = s.and(
                done(
                    create("conf_schema_x", row().with("id", text("sx1")).with("extra", text("v"))),
                    "write to added column",
                ),
            );
            let s = s.and(
                gives(
                    get("conf_schema_x", "sx1"),
                    has("extra", equals(text("v"))),
                    "value stored in the newly added column round-trips",
                ),
            );
            let s = s.and(done(drop_table("conf_schema_a"), "pre-drop a"));
            let s = s.and(done(drop_table("conf_schema_b"), "pre-drop b"));
            let both = list().and(crud_table("conf_schema_a")).and(crud_table("conf_schema_b"));
            let s = s.and(done(Call::EnsureTables(both), "ensure_schema_tables"));
            let s = s.and(there_is("conf_schema_a", true, "a created"));
            let s = s.and(there_is("conf_schema_b", true, "b created"));
            let s = s.and(done(drop_table("conf_schema_x"), "drop x"));
            let s = s.and(
                there_is("conf_schema_x", false, "table must not exist after schema_drop_table"),
            );
            let s = s.and(done(drop_table("conf_schema_a"), "drop a"));
            s.and(done(drop_table("conf_schema_b"), "drop b"))
        }),
{
    let s = s.and(done(drop_table("conf_schema_x"), "pre-drop x"));
    let s = s.and(there_is("conf_schema_x", false, "table must not exist before creation"));
    let s = s.and(done(Call::EnsureTable(crud_table("conf_schema_x")), "ensure x"));
    let s = s.and(
        there_is("conf_schema_x", true, "table must exist after ensure_schema_table"),
    );
    let extra = nullable("extra", DataType::Text);
    let s = s.and(
        done(Call::AddColumn { table: "conf_schema_x", column: extra }, "add_column extra"),
    );
    let s = s.and(
        done(
            create("conf_schema_x", row().with("id", text("sx1")).with("extra", text("v"))),
            "write to added column",
        ),
    );
    let s = s.and(
        gives(
            get("conf_schema_x", "sx1"),
            has("extra", equals(text("v"))),
            "value stored in the newly added column round-trips",
        ),
    );
    let s = s.and(done(drop_table("conf_schema_a"), "pre-drop a"));
    let s = s.and(done(drop_table("conf_schema_b"), "pre-drop b"));
    let both = list().and(crud_table("conf_schema_a")).and(crud_table("conf_schema_b"));
    let s = s.and(done(Call::EnsureTables(both), "ensure_schema_tables"));
    let s = s.and(there_is("conf_schema_a", true, "a created"));
    let s = s.and(there_is("conf_schema_b", true, "b created"));
    let s = s.and(done(drop_table("conf_schema_x"), "drop x"));
    let s = s.and(
        there_is("conf_schema_x", false, "table must not exist after schema_drop_table"),
    );
    let s = s.and(done(drop_table("conf_schema_a"), "drop a"));
    s.and(done(drop_table("conf_schema_b"), "drop b"))
}

/// Names that are no plain identifiers, or another spelling of a name, are
/// refused.
#[verifier::allow_in_spec]
pub fn refuses_other_names(s: Script) -> Script
    returns
        ({
            let s = s.and(assert_invalid_argument(list_of("CONF_AB", everything()), "list CONF_AB"));
            let s = s.and(
                assert_invalid_argument(drop_table("conf_a-b"), "schema_drop_table conf_a-b"),
            );
            let extra = nullable("extra", DataType::Text);
            let s = s.and(
                assert_invalid_argument(
                    Call::AddColumn { table: "conf_a-b", column: extra },
                    "schema_add_column conf_a-b",
                ),
            );
            let extra = nullable("Extra", DataType::Text);
            let s = s.and(
                assert_invalid_argument(
                    Call::AddColumn { table: "conf_ab", column: extra },
                    "schema_add_column Extra",
                ),
            );
            let s = s.and(
                assert_invalid_argument(
                    upsert(
                        "conf_ab",
                        Upserting {
                            data: row().with("id", text("r1")).with("Name", text("u")),
                            conflict: list().and("id"),
                            taken: Taken::Overwrite(list().and("Name")),
                        },
                    ),
                    "upsert setting Name",
                ),
            );
            let s = s.and(assert_invalid_argument(list_of("conf_a-b", everything()), "list conf_a-b"));
            let s = s.and(assert_invalid_argument(count("conf_a-b", everywhere()), "count conf_a-b"));
            let s = s.and(assert_invalid_argument(get("conf_a-b", "r1"), "get conf_a-b"));
            let s = s.and(
                assert_invalid_argument(
                    create("conf_a-b", row().with("name", text("b"))),
                    "create conf_a-b",
                ),
            );
            let s = s.and(assert_invalid_argument(delete("conf_a-b", "r1"), "delete conf_a-b"));
            s.and(
                assert_invalid_argument(
                    create("conf_ab", row().with("no-te", text("x"))),
                    "create with a non-identifier data key",
                ),
            )
        }),
{
    let s = s.and(assert_invalid_argument(list_of("CONF_AB", everything()), "list CONF_AB"));
    let s = s.and(
        assert_invalid_argument(drop_table("conf_a-b"), "schema_drop_table conf_a-b"),
    );
    let extra = nullable("extra", DataType::Text);
    let s = s.and(
        assert_invalid_argument(
            Call::AddColumn { table: "conf_a-b", column: extra },
            "schema_add_column conf_a-b",
        ),
    );
    let extra = nullable("Extra", DataType::Text);
    let s = s.and(
        assert_invalid_argument(
            Call::AddColumn { table: "conf_ab", column: extra },
            "schema_add_column Extra",
        ),
    );
    let s = s.and(
        assert_invalid_argument(
            upsert(
                "conf_ab",
                Upserting {
                    data: row().with("id", text("r1")).with("Name", text("u")),
                    conflict: list().and("id"),
                    taken: Taken::Overwrite(list().and("Name")),
                },
            ),
            "upsert setting Name",
        ),
    );
    let s = s.and(assert_invalid_argument(list_of("conf_a-b", everything()), "list conf_a-b"));
    let s = s.and(assert_invalid_argument(count("conf_a-b", everywhere()), "count conf_a-b"));
    let s = s.and(assert_invalid_argument(get("conf_a-b", "r1"), "get conf_a-b"));
    let s = s.and(
        assert_invalid_argument(
            create("conf_a-b", row().with("name", text("b"))),
            "create conf_a-b",
        ),
    );
    let s = s.and(assert_invalid_argument(delete("conf_a-b", "r1"), "delete conf_a-b"));
    s.and(
        assert_invalid_argument(
            create("conf_ab", row().with("no-te", text("x"))),
            "create with a non-identifier data key",
        ),
    )
}

/// A condition on a column that the table lacks.
#[verifier::allow_in_spec]
pub fn unknown() -> List<Condition>
    returns
        where_eq("zz", text("x")),
{
    where_eq("zz", text("x"))
}

/// A column that the table lacks is refused, wherever it is named.
#[verifier::allow_in_spec]
pub fn refuses_unknown_columns(s: Script) -> Script
    returns
        ({
            let s = s.and(
                assert_invalid_argument(
                    list_of("conf_ab", everything().sorted("zz", false)),
                    "list sorted on an unknown column",
                ),
            );
            let s = s.and(
                assert_invalid_argument(
                    list_of("conf_ab", everything().filtered(eq("zz", text("x")))),
                    "list filtered on an unknown column",
                ),
            );
            let s = s.and(
                assert_invalid_argument(
                    list_of("conf_ab", everything().showing(list().and("zz"))),
                    "list projecting an unknown column",
                ),
            );
            let s = s.and(
                assert_invalid_argument(count("conf_ab", unknown()), "count on an unknown column"),
            );
            let s = s.and(
                assert_invalid_argument(
                    take_where("conf_ab", unknown()),
                    "take_where on an unknown column",
                ),
            );
            let s = s.and(
                assert_invalid_argument(
                    delete_where_count("conf_ab", unknown()),
                    "delete_where_count on an unknown column",
                ),
            );
            let s = s.and(
                assert_invalid_argument(
                    update_where_count("conf_ab", unknown(), row().with("note", text("n"))),
                    "update_where_count on an unknown column",
                ),
            );
            let write = Write::DeleteWhere { table: "conf_ab", filters: unknown() };
            let s = s.and(
                assert_invalid_argument(
                    Call::Batch(list().and(write)),
                    "batch delete-where on an unknown column",
                ),
            );
            let cap = Cap::CountBelow { filters: unknown(), cap: 10 };
            let s = s.and(
                assert_invalid_argument(
                    insert_guarded("conf_ab", row().with("name", text("g")), list().and(cap)),
                    "insert_guarded with a guard on an unknown column",
                ),
            );
            s.and(
                assert_invalid_argument(
                    sum("conf_ab", "zz", everywhere()),
                    "sum of an unknown column",
                ),
            )
        }),
{
    let s = s.and(
        assert_invalid_argument(
            list_of("conf_ab", everything().sorted("zz", false)),
            "list sorted on an unknown column",
        ),
    );
    let s = s.and(
        assert_invalid_argument(
            list_of("conf_ab", everything().filtered(eq("zz", text("x")))),
            "list filtered on an unknown column",
        ),
    );
    let s = s.and(
        assert_invalid_argument(
            list_of("conf_ab", everything().showing(list().and("zz"))),
            "list projecting an unknown column",
        ),
    );
    let s = s.and(
        assert_invalid_argument(count("conf_ab", unknown()), "count on an unknown column"),
    );
    let s = s.and(
        assert_invalid_argument(
            take_where("conf_ab", unknown()),
            "take_where on an unknown column",
        ),
    );
    let s = s.and(
        assert_invalid_argument(
            delete_where_count("conf_ab", unknown()),
            "delete_where_count on an unknown column",
        ),
    );
    let s = s.and(
        assert_invalid_argument(
            update_where_count("conf_ab", unknown(), row().with("note", text("n"))),
            "update_where_count on an unknown column",
        ),
    );
    let write = Write::DeleteWhere { table: "conf_ab", filters: unknown() };
    let s = s.and(
        assert_invalid_argument(
            Call::Batch(list().and(write)),
            "batch delete-where on an unknown column",
        ),
    );
    let cap = Cap::CountBelow { filters: unknown(), cap: 10 };
    let s = s.and(
        assert_invalid_argument(
            insert_guarded("conf_ab", row().with("name", text("g")), list().and(cap)),
            "insert_guarded with a guard on an unknown column",
        ),
    );
    s.and(
        assert_invalid_argument(
            sum("conf_ab", "zz", everywhere()),
            "sum of an unknown column",
        ),
    )
}

/// An aggregate of every record.
#[verifier::allow_in_spec]
pub fn measures(measures: List<Measure>, groups: List<Group>) -> Summary
    returns
        (Summary { select: list(), measures, filters: list(), groups, sort: list() }),
{
    Summary { select: list(), measures, filters: list(), groups, sort: list() }
}

/// A name is used as it is or refused, never rewritten, and what only reads never
/// adds a column. `conf_a-b`, stripped of its hyphen, is the name of a table that
/// exists.
#[verifier::allow_in_spec]
pub fn check_names_are_verbatim_and_reads_never_reshape(s: Script) -> Script
    returns
        ({
            let s = reset(s, crud_table("conf_ab"));
            let s = s.and(
                done(
                    create("conf_ab", row().with("id", text("r1")).with("name", text("a"))),
                    "seed conf_ab",
                ),
            );
            let s = s.and(probe(columns_of("conf_ab"), Expect::KeepColumns, "schema_columns"));
            let s = refuses_other_names(s);
            let s = refuses_unknown_columns(s);
            let highest = Measure::Max { field: "zz", alias: "m" };
            let s = s.and(
                assert_invalid_argument(
                    aggregate("conf_ab", measures(list().and(highest), list())),
                    "aggregate over an unknown column",
                ),
            );
            let by = Group::Column("zz");
            let s = s.and(
                assert_invalid_argument(
                    aggregate(
                        "conf_ab",
                        measures(list().and(Measure::Count { alias: "c" }), list().and(by)),
                    ),
                    "aggregate grouped by an unknown column",
                ),
            );
            let s = s.and(
                assert_invalid_argument(
                    aggregate(
                        "conf_ab",
                        measures(list().and(Measure::Count { alias: "Total" }), list()),
                    ),
                    "aggregate with a non-identifier alias",
                ),
            );
            let s = s.and(
                probe(
                    columns_of("conf_ab"),
                    Expect::ColumnsKept,
                    "no refused request added a column",
                ),
            );
            s.and(
                lists(
                    list_of("conf_ab", everything()),
                    list().and(ListCheck::Ids(list().and("r1"))),
                    "no refused request changed a row",
                ),
            )
        }),
{
    let s = reset(s, crud_table("conf_ab"));
    let s = s.and(
        done(
            create("conf_ab", row().with("id", text("r1")).with("name", text("a"))),
            "seed conf_ab",
        ),
    );
    let s = s.and(probe(columns_of("conf_ab"), Expect::KeepColumns, "schema_columns"));
    let s = refuses_other_names(s);
    let s = refuses_unknown_columns(s);
    let highest = Measure::Max { field: "zz", alias: "m" };
    let s = s.and(
        assert_invalid_argument(
            aggregate("conf_ab", measures(list().and(highest), list())),
            "aggregate over an unknown column",
        ),
    );
    let by = Group::Column("zz");
    let s = s.and(
        assert_invalid_argument(
            aggregate(
                "conf_ab",
                measures(list().and(Measure::Count { alias: "c" }), list().and(by)),
            ),
            "aggregate grouped by an unknown column",
        ),
    );
    let s = s.and(
        assert_invalid_argument(
            aggregate(
                "conf_ab",
                measures(list().and(Measure::Count { alias: "Total" }), list()),
            ),
            "aggregate with a non-identifier alias",
        ),
    );
    let s = s.and(
        probe(
            columns_of("conf_ab"),
            Expect::ColumnsKept,
            "no refused request added a column",
        ),
    );
    s.and(
        lists(
            list_of("conf_ab", everything()),
            list().and(ListCheck::Ids(list().and("r1"))),
            "no refused request changed a row",
        ),
    )
}

/// A name that is longer than PostgreSQL keeps is refused: the server would cut it
/// to 63 bytes, and so reach the table of the shorter name.
#[verifier::allow_in_spec]
pub fn check_names_longer_than_postgres_keeps_are_refused(s: Script) -> Script
    returns
        ({
            let kept = "conf_llllllllllllllllllllllllllllllllllllllllllllllllllllllllll";
            let longer = "conf_llllllllllllllllllllllllllllllllllllllllllllllllllllllllllx";
            let long_column = "cccccccccccccccccccccccccccccccccccccccccccccccccccccccccccccccc";
            let s = reset(s, crud_table(kept));
            let s = s.and(
                done(
                    create(kept, row().with("id", text("r1")).with("name", text("a"))),
                    "seed the 63-byte table",
                ),
            );
            let s = s.and(
                assert_invalid_argument(list_of(longer, everything()), "list a 64-byte name"),
            );
            let s = s.and(
                assert_invalid_argument(
                    create(longer, row().with("name", text("b"))),
                    "create in a 64-byte name",
                ),
            );
            let s = s.and(
                assert_invalid_argument(
                    count(kept, where_eq(long_column, text("x"))),
                    "count filtered on a 64-byte column",
                ),
            );
            let s = s.and(counts(count(kept, everywhere()), 1, "nothing reached the 63-byte table"));
            s.and(done(drop_table(kept), "drop the 63-byte table"))
        }),
{
    let kept = "conf_llllllllllllllllllllllllllllllllllllllllllllllllllllllllll";
    let longer = "conf_llllllllllllllllllllllllllllllllllllllllllllllllllllllllllx";
    let long_column = "cccccccccccccccccccccccccccccccccccccccccccccccccccccccccccccccc";
    let s = reset(s, crud_table(kept));
    let s = s.and(
        done(
            create(kept, row().with("id", text("r1")).with("name", text("a"))),
            "seed the 63-byte table",
        ),
    );
    let s = s.and(
        assert_invalid_argument(list_of(longer, everything()), "list a 64-byte name"),
    );
    let s = s.and(
        assert_invalid_argument(
            create(longer, row().with("name", text("b"))),
            "create in a 64-byte name",
        ),
    );
    let s = s.and(
        assert_invalid_argument(
            count(kept, where_eq(long_column, text("x"))),
            "count filtered on a 64-byte column",
        ),
    );
    let s = s.and(counts(count(kept, everywhere()), 1, "nothing reached the 63-byte table"));
    s.and(done(drop_table(kept), "drop the 63-byte table"))
}

} // verus!
