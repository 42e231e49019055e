//! What is asked of reads.

use vstd::prelude::*;

use crate::database::conformance::judge::{Expect, FieldCheck, Gather, ListCheck, RecordCheck};
use crate::database::conformance::list::{list, List};
use crate::database::conformance::probe::{
    column, crud_table, eq, everything, everywhere, filt, number, only, pk, row, table, text,
    where_eq, Call, Datum, Group, Listing, Measure, Summary, TableShape, Taken, Tree, Upserting,
};
use crate::database::conformance::script::{
    aggregate, assert_invalid_argument, count, counts, create, done, get, gives, has, int_is,
    list_of, lists, probe, reset, sum, upsert, Probe, Script,
};
use crate::database::filter::FilterOp;
use crate::database::schema::DataType;
use crate::double::Within;

verus! {

/// Each operator keeps the records it is meant to keep.
#[verifier::allow_in_spec]
pub fn check_filters(s: Script) -> Script
    returns
        ({
            let s = s.and(counts(count("conf_read", everywhere()), 5, "unfiltered count"));
            let s = s.and(
                counts(
                    count("conf_read", only(filt("category", FilterOp::Equal, text("x")))),
                    2,
                    "Equal",
                ),
            );
            let s = s.and(
                counts(
                    count("conf_read", only(filt("category", FilterOp::NotEqual, text("x")))),
                    3,
                    "NotEqual",
                ),
            );
            let s = s.and(
                counts(
                    count("conf_read", only(filt("score", FilterOp::GreaterThan, number(10)))),
                    2,
                    "GreaterThan (20, 100)",
                ),
            );
            let s = s.and(
                counts(
                    count("conf_read", only(filt("score", FilterOp::GreaterEqual, number(10)))),
                    3,
                    "GreaterEqual (10, 20, 100)",
                ),
            );
            let s = s.and(
                counts(
                    count("conf_read", only(filt("score", FilterOp::LessThan, number(10)))),
                    2,
                    "LessThan (5, 5)",
                ),
            );
            let s = s.and(
                counts(
                    count("conf_read", only(filt("score", FilterOp::LessEqual, number(5)))),
                    2,
                    "LessEqual (5, 5)",
                ),
            );
            let s = s.and(
                counts(
                    count("conf_read", only(filt("name", FilterOp::Like, text("a%")))),
                    1,
                    "Like 'a%' matches only alpha",
                ),
            );
            let either = Datum::Array(Box::new(list().and(text("x")).and(text("z"))));
            let s = s.and(
                counts(
                    count("conf_read", only(filt("category", FilterOp::In, either))),
                    3,
                    "In [x, z] (r1, r2, r5)",
                ),
            );
            let s = s.and(
                counts(
                    count("conf_read", only(filt("note", FilterOp::IsNull, Datum::Null))),
                    4,
                    "IsNull note (all but r1)",
                ),
            );
            let s = s.and(
                counts(
                    count("conf_read", only(filt("note", FilterOp::IsNotNull, Datum::Null))),
                    1,
                    "IsNotNull note (only r1)",
                ),
            );
            s
        }),
{
    let s = s.and(counts(count("conf_read", everywhere()), 5, "unfiltered count"));
    let s = s.and(
        counts(
            count("conf_read", only(filt("category", FilterOp::Equal, text("x")))),
            2,
            "Equal",
        ),
    );
    let s = s.and(
        counts(
            count("conf_read", only(filt("category", FilterOp::NotEqual, text("x")))),
            3,
            "NotEqual",
        ),
    );
    let s = s.and(
        counts(
            count("conf_read", only(filt("score", FilterOp::GreaterThan, number(10)))),
            2,
            "GreaterThan (20, 100)",
        ),
    );
    let s = s.and(
        counts(
            count("conf_read", only(filt("score", FilterOp::GreaterEqual, number(10)))),
            3,
            "GreaterEqual (10, 20, 100)",
        ),
    );
    let s = s.and(
        counts(
            count("conf_read", only(filt("score", FilterOp::LessThan, number(10)))),
            2,
            "LessThan (5, 5)",
        ),
    );
    let s = s.and(
        counts(
            count("conf_read", only(filt("score", FilterOp::LessEqual, number(5)))),
            2,
            "LessEqual (5, 5)",
        ),
    );
    let s = s.and(
        counts(
            count("conf_read", only(filt("name", FilterOp::Like, text("a%")))),
            1,
            "Like 'a%' matches only alpha",
        ),
    );
    let either = Datum::Array(Box::new(list().and(text("x")).and(text("z"))));
    let s = s.and(
        counts(
            count("conf_read", only(filt("category", FilterOp::In, either))),
            3,
            "In [x, z] (r1, r2, r5)",
        ),
    );
    let s = s.and(
        counts(
            count("conf_read", only(filt("note", FilterOp::IsNull, Datum::Null))),
            4,
            "IsNull note (all but r1)",
        ),
    );
    let s = s.and(
        counts(
            count("conf_read", only(filt("note", FilterOp::IsNotNull, Datum::Null))),
            1,
            "IsNotNull note (only r1)",
        ),
    );
    s
}

/// Records are counted and summed by every operator, over text, integers and
/// fractions; a table that is missing has none.
#[verifier::allow_in_spec]
pub fn check_count_and_sum(s: Script) -> Script
    returns
        ({
            let s = check_filters(s);
            let s = s.and(
                probe(
                    sum("conf_read", "amount", everywhere()),
                    Expect::SumNear { whole: 140, within: Within::Billionth },
                    "sum of all amounts == 140",
                ),
            );
            let s = s.and(
                probe(
                    sum("conf_read", "amount", where_eq("category", text("x"))),
                    Expect::SumNear { whole: 30, within: Within::Billionth },
                    "sum of category=x amounts == 30",
                ),
            );
            let s = s.and(
                probe(
                    sum("conf_read", "score", everywhere()),
                    Expect::SumNear { whole: 140, within: Within::Billionth },
                    "sum of all scores == 140",
                ),
            );
            let s = s.and(
                probe(
                    sum("conf_read", "score", where_eq("category", text("y"))),
                    Expect::SumNear { whole: 10, within: Within::Billionth },
                    "sum of category=y scores == 10",
                ),
            );
            let s = s.and(
                counts(
                    count("conf_absent_table", everywhere()),
                    0,
                    "count on a non-existent table returns 0",
                ),
            );
            let s = s.and(
                probe(
                    sum("conf_absent_table", "score", everywhere()),
                    Expect::SumNear { whole: 0, within: Within::Epsilon },
                    "sum on a non-existent table returns 0",
                ),
            );
            let summary = Summary {
                select: list().and("category"),
                measures: list().and(Measure::Count { alias: "cnt" }),
                filters: list(),
                groups: list().and(Group::Column("category")),
                sort: list(),
            };
            s.and(
                lists(
                    aggregate("conf_absent_table", summary),
                    list().and(ListCheck::Len(0)),
                    "aggregate on a non-existent table has no groups",
                ),
            )
        }),
{
    let s = check_filters(s);
    let s = s.and(
        probe(
            sum("conf_read", "amount", everywhere()),
            Expect::SumNear { whole: 140, within: Within::Billionth },
            "sum of all amounts == 140",
        ),
    );
    let s = s.and(
        probe(
            sum("conf_read", "amount", where_eq("category", text("x"))),
            Expect::SumNear { whole: 30, within: Within::Billionth },
            "sum of category=x amounts == 30",
        ),
    );
    let s = s.and(
        probe(
            sum("conf_read", "score", everywhere()),
            Expect::SumNear { whole: 140, within: Within::Billionth },
            "sum of all scores == 140",
        ),
    );
    let s = s.and(
        probe(
            sum("conf_read", "score", where_eq("category", text("y"))),
            Expect::SumNear { whole: 10, within: Within::Billionth },
            "sum of category=y scores == 10",
        ),
    );
    let s = s.and(
        counts(
            count("conf_absent_table", everywhere()),
            0,
            "count on a non-existent table returns 0",
        ),
    );
    let s = s.and(
        probe(
            sum("conf_absent_table", "score", everywhere()),
            Expect::SumNear { whole: 0, within: Within::Epsilon },
            "sum on a non-existent table returns 0",
        ),
    );
    let summary = Summary {
        select: list().and("category"),
        measures: list().and(Measure::Count { alias: "cnt" }),
        filters: list(),
        groups: list().and(Group::Column("category")),
        sort: list(),
    };
    s.and(
        lists(
            aggregate("conf_absent_table", summary),
            list().and(ListCheck::Len(0)),
            "aggregate on a non-existent table has no groups",
        ),
    )
}

/// The texts in a column, in order.
#[verifier::allow_in_spec]
pub fn keyed(column: &'static str, values: List<&'static str>) -> ListCheck
    returns
        (ListCheck::Keys { columns: list().and(column), values }),
{
    ListCheck::Keys { columns: list().and(column), values }
}

/// Records are listed filtered, sorted, paged and by column; the count over all
/// pages is that of the records that match.
#[verifier::allow_in_spec]
pub fn check_list(s: Script) -> Script
    returns
        ({
            let s = s.and(
                lists(
                    list_of(
                        "conf_read",
                        everything().filtered(eq("category", text("y"))).sorted("score", false).sorted(
                            "name",
                            false,
                        ).paged(Some(10), 0),
                    ),
                    list().and(keyed("name", list().and("charlie").and("delta"))).and(
                        ListCheck::Total(2),
                    ),
                    "total_count must be the filtered count, not the full table",
                ),
            );
            let top = ListCheck::Ints { column: "score", numbers: list().and(100).and(20) };
            let s = s.and(
                lists(
                    list_of("conf_read", everything().sorted("score", true).paged(Some(2), 0)),
                    list().and(top).and(ListCheck::Len(2)).and(ListCheck::Total(5)),
                    "descending score, limited to 2",
                ),
            );
            let next = ListCheck::Ints { column: "score", numbers: list().and(20).and(10) };
            let s = s.and(
                lists(
                    list_of("conf_read", everything().sorted("score", true).paged(Some(2), 1)),
                    list().and(next),
                    "offset=1 skips the top row",
                ),
            );
            let s = s.and(
                lists(
                    list_of("conf_read", everything()),
                    list().and(ListCheck::Len(5)),
                    "no limit returns every row",
                ),
            );
            let s = s.and(
                assert_invalid_argument(
                    list_of("conf_read", everything().paged(Some(0), 0)),
                    "a zero limit",
                ),
            );
            let s = s.and(
                assert_invalid_argument(
                    list_of("conf_read", everything().paged(None, 1)),
                    "an offset with no limit",
                ),
            );
            let projected = has("name", FieldCheck::Present).having("score", FieldCheck::Absent).having(
                "category",
                FieldCheck::Absent,
            );
            let s = s.and(
                lists(
                    list_of(
                        "conf_read",
                        everything().filtered(eq("id", text("r1"))).showing(
                            list().and("id").and("name"),
                        ),
                    ),
                    list().and(ListCheck::At(0, projected)),
                    "only the requested columns come back",
                ),
            );
            let group = Tree::Any(
                Box::new(
                    list().and(Tree::Leaf(eq("category", text("x")))).and(
                        Tree::Leaf(eq("category", text("z"))),
                    ),
                ),
            );
            let s = s.and(
                lists(
                    list_of("conf_read", everything().within(group).sorted("name", false)),
                    list().and(keyed("name", list().and("alpha").and("bravo").and("echo"))).and(
                        ListCheck::Total(3),
                    ),
                    "OR group returns only x|z rows, not all five",
                ),
            );
            s.and(
                lists(
                    list_of("conf_absent_table", everything()),
                    list().and(ListCheck::Len(0)).and(ListCheck::Total(0)),
                    "list missing table",
                ),
            )
        }),
{
    let s = s.and(
        lists(
            list_of(
                "conf_read",
                everything().filtered(eq("category", text("y"))).sorted("score", false).sorted(
                    "name",
                    false,
                ).paged(Some(10), 0),
            ),
            list().and(keyed("name", list().and("charlie").and("delta"))).and(
                ListCheck::Total(2),
            ),
            "total_count must be the filtered count, not the full table",
        ),
    );
    let top = ListCheck::Ints { column: "score", numbers: list().and(100).and(20) };
    let s = s.and(
        lists(
            list_of("conf_read", everything().sorted("score", true).paged(Some(2), 0)),
            list().and(top).and(ListCheck::Len(2)).and(ListCheck::Total(5)),
            "descending score, limited to 2",
        ),
    );
    let next = ListCheck::Ints { column: "score", numbers: list().and(20).and(10) };
    let s = s.and(
        lists(
            list_of("conf_read", everything().sorted("score", true).paged(Some(2), 1)),
            list().and(next),
            "offset=1 skips the top row",
        ),
    );
    let s = s.and(
        lists(
            list_of("conf_read", everything()),
            list().and(ListCheck::Len(5)),
            "no limit returns every row",
        ),
    );
    let s = s.and(
        assert_invalid_argument(
            list_of("conf_read", everything().paged(Some(0), 0)),
            "a zero limit",
        ),
    );
    let s = s.and(
        assert_invalid_argument(
            list_of("conf_read", everything().paged(None, 1)),
            "an offset with no limit",
        ),
    );
    let projected = has("name", FieldCheck::Present).having("score", FieldCheck::Absent).having(
        "category",
        FieldCheck::Absent,
    );
    let s = s.and(
        lists(
            list_of(
                "conf_read",
                everything().filtered(eq("id", text("r1"))).showing(
                    list().and("id").and("name"),
                ),
            ),
            list().and(ListCheck::At(0, projected)),
            "only the requested columns come back",
        ),
    );
    let group = Tree::Any(
        Box::new(
            list().and(Tree::Leaf(eq("category", text("x")))).and(
                Tree::Leaf(eq("category", text("z"))),
            ),
        ),
    );
    let s = s.and(
        lists(
            list_of("conf_read", everything().within(group).sorted("name", false)),
            list().and(keyed("name", list().and("alpha").and("bravo").and("echo"))).and(
                ListCheck::Total(3),
            ),
            "OR group returns only x|z rows, not all five",
        ),
    );
    s.and(
        lists(
            list_of("conf_absent_table", everything()),
            list().and(ListCheck::Len(0)).and(ListCheck::Total(0)),
            "list missing table",
        ),
    )
}

/// A page of two records, whose sort keys tie.
#[verifier::allow_in_spec]
pub fn tied(sorted: bool, desc: bool, offset: i64) -> Listing
    returns
        ({
            let all = everything().paged(Some(2), offset);
            if sorted {
                all.sorted("created_at", desc)
            } else {
                all
            }
        }),
{
    let all = everything().paged(Some(2), offset);
    if sorted {
        all.sorted("created_at", desc)
    } else {
        all
    }
}

/// A page of five records holds these.
#[verifier::allow_in_spec]
pub fn page(
    table: &'static str,
    listing: Listing,
    column: &'static str,
    values: List<&'static str>,
    what: &'static str,
) -> Probe
    returns
        lists(
            list_of(table, listing),
            list().and(ListCheck::Total(5)).and(keyed(column, values)),
            what,
        ),
{
    lists(
        list_of(table, listing),
        list().and(ListCheck::Total(5)).and(keyed(column, values)),
        what,
    )
}

/// Three pages of five labelled records, taken together.
#[verifier::allow_in_spec]
pub fn gathers_pages(
    s: Script,
    table: &'static str,
    desc: bool,
    last: ListCheck,
    what: &'static str,
) -> Script
    returns
        ({
            let s = s.and(
                probe(
                    list_of(table, tied(true, desc, 0)),
                    Expect::Records {
                        checks: list().and(ListCheck::Total(5)),
                        gather: Gather::First(list().and("label")),
                    },
                    what,
                ),
            );
            let s = s.and(
                probe(
                    list_of(table, tied(true, desc, 2)),
                    Expect::Records {
                        checks: list().and(ListCheck::Total(5)),
                        gather: Gather::Next(list().and("label")),
                    },
                    what,
                ),
            );
            s.and(
                lists(
                    list_of(table, tied(true, desc, 4)),
                    list().and(ListCheck::Total(5)).and(last),
                    what,
                ),
            )
        }),
{
    let s = s.and(
        probe(
            list_of(table, tied(true, desc, 0)),
            Expect::Records {
                checks: list().and(ListCheck::Total(5)),
                gather: Gather::First(list().and("label")),
            },
            what,
        ),
    );
    let s = s.and(
        probe(
            list_of(table, tied(true, desc, 2)),
            Expect::Records {
                checks: list().and(ListCheck::Total(5)),
                gather: Gather::Next(list().and("label")),
            },
            what,
        ),
    );
    s.and(
        lists(
            list_of(table, tied(true, desc, 4)),
            list().and(ListCheck::Total(5)).and(last),
            what,
        ),
    )
}

/// A record whose sort key ties with the others.
#[verifier::allow_in_spec]
pub fn seed_tie(s: Script, table: &'static str, column: &'static str, value: &'static str) -> Script
    returns
        s.and(
            done(
                create(
                    table,
                    row().with(column, text(value)).with(
                        "created_at",
                        text("2026-01-01T00:00:00Z"),
                    ),
                ),
                "seed a tie",
            ),
        ),
{
    s.and(
        done(
            create(
                table,
                row().with(column, text(value)).with(
                    "created_at",
                    text("2026-01-01T00:00:00Z"),
                ),
            ),
            "seed a tie",
        ),
    )
}

/// Five records, created out of key order.
#[verifier::allow_in_spec]
pub fn seed_ties(s: Script, table: &'static str, column: &'static str) -> Script
    returns
        ({
            let s = seed_tie(s, table, column, "c");
            let s = seed_tie(s, table, column, "a");
            let s = seed_tie(s, table, column, "e");
            let s = seed_tie(s, table, column, "b");
            seed_tie(s, table, column, "d")
        }),
{
    let s = seed_tie(s, table, column, "c");
    let s = seed_tie(s, table, column, "a");
    let s = seed_tie(s, table, column, "e");
    let s = seed_tie(s, table, column, "b");
    seed_tie(s, table, column, "d")
}

/// Ties break on the id, in the direction of the last sort key.
#[verifier::allow_in_spec]
pub fn ties_by_id(s: Script) -> Script
    returns
        ({
            let shape = table(
                "conf_tie_id",
                list().and(pk("id")).and(column("created_at", DataType::Text)),
            );
            let s = seed_ties(reset(s, shape), "conf_tie_id", "id");
            let down = "newest-first ties break id-descending";
            let ends = list().and("e").and("d");
            let s = s.and(page("conf_tie_id", tied(true, true, 0), "id", ends, down));
            let ends = list().and("c").and("b");
            let s = s.and(page("conf_tie_id", tied(true, true, 2), "id", ends, down));
            let s = s.and(page("conf_tie_id", tied(true, true, 4), "id", list().and("a"), down));
            let up = "oldest-first ties break id-ascending";
            let ends = list().and("a").and("b");
            let s = s.and(page("conf_tie_id", tied(true, false, 0), "id", ends, up));
            let ends = list().and("c").and("d");
            let s = s.and(page("conf_tie_id", tied(true, false, 2), "id", ends, up));
            let s = s.and(page("conf_tie_id", tied(true, false, 4), "id", list().and("e"), up));
            let key_order = "a paged list with no sort is in key order";
            let ends = list().and("a").and("b");
            let s = s.and(page("conf_tie_id", tied(false, false, 0), "id", ends, key_order));
            let ends = list().and("c").and("d");
            let s = s.and(page("conf_tie_id", tied(false, false, 2), "id", ends, key_order));
            s.and(page("conf_tie_id", tied(false, false, 4), "id", list().and("e"), key_order))
        }),
{
    let shape = table(
        "conf_tie_id",
        list().and(pk("id")).and(column("created_at", DataType::Text)),
    );
    let s = seed_ties(reset(s, shape), "conf_tie_id", "id");
    let down = "newest-first ties break id-descending";
    let ends = list().and("e").and("d");
    let s = s.and(page("conf_tie_id", tied(true, true, 0), "id", ends, down));
    let ends = list().and("c").and("b");
    let s = s.and(page("conf_tie_id", tied(true, true, 2), "id", ends, down));
    let s = s.and(page("conf_tie_id", tied(true, true, 4), "id", list().and("a"), down));
    let up = "oldest-first ties break id-ascending";
    let ends = list().and("a").and("b");
    let s = s.and(page("conf_tie_id", tied(true, false, 0), "id", ends, up));
    let ends = list().and("c").and("d");
    let s = s.and(page("conf_tie_id", tied(true, false, 2), "id", ends, up));
    let s = s.and(page("conf_tie_id", tied(true, false, 4), "id", list().and("e"), up));
    let key_order = "a paged list with no sort is in key order";
    let ends = list().and("a").and("b");
    let s = s.and(page("conf_tie_id", tied(false, false, 0), "id", ends, key_order));
    let ends = list().and("c").and("d");
    let s = s.and(page("conf_tie_id", tied(false, false, 2), "id", ends, key_order));
    s.and(page("conf_tie_id", tied(false, false, 4), "id", list().and("e"), key_order))
}

/// Ties break on an id that was made up, and so in the order of creation.
#[verifier::allow_in_spec]
pub fn ties_by_minted_id(s: Script) -> Script
    returns
        ({
            let shape = table(
                "conf_tie_minted",
                list().and(pk("id")).and(column("label", DataType::Text)).and(
                    column("created_at", DataType::Text),
                ),
            );
            let s = seed_ties(reset(s, shape), "conf_tie_minted", "label");
            let created = ListCheck::Gathered {
                columns: list().and("label"),
                values: list().and("c").and("a").and("e").and("b").and("d"),
            };
            let s = gathers_pages(
                s,
                "conf_tie_minted",
                false,
                created,
                "oldest-first ties on a minted id list in creation order",
            );
            let reversed = ListCheck::Gathered {
                columns: list().and("label"),
                values: list().and("d").and("b").and("e").and("a").and("c"),
            };
            gathers_pages(
                s,
                "conf_tie_minted",
                true,
                reversed,
                "newest-first ties on a minted id list in reverse creation order",
            )
        }),
{
    let shape = table(
        "conf_tie_minted",
        list().and(pk("id")).and(column("label", DataType::Text)).and(
            column("created_at", DataType::Text),
        ),
    );
    let s = seed_ties(reset(s, shape), "conf_tie_minted", "label");
    let created = ListCheck::Gathered {
        columns: list().and("label"),
        values: list().and("c").and("a").and("e").and("b").and("d"),
    };
    let s = gathers_pages(
        s,
        "conf_tie_minted",
        false,
        created,
        "oldest-first ties on a minted id list in creation order",
    );
    let reversed = ListCheck::Gathered {
        columns: list().and("label"),
        values: list().and("d").and("b").and("e").and("a").and("c"),
    };
    gathers_pages(
        s,
        "conf_tie_minted",
        true,
        reversed,
        "newest-first ties on a minted id list in reverse creation order",
    )
}

/// A record keyed by a hash.
#[verifier::allow_in_spec]
pub fn seed_hash(s: Script, hash: &'static str) -> Script
    returns
        s.and(
            done(
                upsert(
                    "conf_tie_hash",
                    Upserting {
                        data: row().with("token_hash", text(hash)).with(
                            "created_at",
                            text("2026-01-01T00:00:00Z"),
                        ),
                        conflict: list().and("token_hash"),
                        taken: Taken::Overwrite(list().and("created_at")),
                    },
                ),
                "seed conf_tie_hash",
            ),
        ),
{
    s.and(
        done(
            upsert(
                "conf_tie_hash",
                Upserting {
                    data: row().with("token_hash", text(hash)).with(
                        "created_at",
                        text("2026-01-01T00:00:00Z"),
                    ),
                    conflict: list().and("token_hash"),
                    taken: Taken::Overwrite(list().and("created_at")),
                },
            ),
            "seed conf_tie_hash",
        ),
    )
}

/// Ties break on a key that is no id.
#[verifier::allow_in_spec]
pub fn ties_by_hash(s: Script) -> Script
    returns
        ({
            let shape = table(
                "conf_tie_hash",
                list().and(pk("token_hash")).and(column("created_at", DataType::Text)),
            );
            let s = reset(s, shape);
            let s = seed_hash(s, "c");
            let s = seed_hash(s, "a");
            let s = seed_hash(s, "e");
            let s = seed_hash(s, "b");
            let s = seed_hash(s, "d");
            let what = "a non-`id` key breaks the tie";
            let ends = list().and("e").and("d");
            let s = s.and(page("conf_tie_hash", tied(true, true, 0), "token_hash", ends, what));
            let ends = list().and("c").and("b");
            let s = s.and(page("conf_tie_hash", tied(true, true, 2), "token_hash", ends, what));
            let ends = list().and("a");
            s.and(page("conf_tie_hash", tied(true, true, 4), "token_hash", ends, what))
        }),
{
    let shape = table(
        "conf_tie_hash",
        list().and(pk("token_hash")).and(column("created_at", DataType::Text)),
    );
    let s = reset(s, shape);
    let s = seed_hash(s, "c");
    let s = seed_hash(s, "a");
    let s = seed_hash(s, "e");
    let s = seed_hash(s, "b");
    let s = seed_hash(s, "d");
    let what = "a non-`id` key breaks the tie";
    let ends = list().and("e").and("d");
    let s = s.and(page("conf_tie_hash", tied(true, true, 0), "token_hash", ends, what));
    let ends = list().and("c").and("b");
    let s = s.and(page("conf_tie_hash", tied(true, true, 2), "token_hash", ends, what));
    let ends = list().and("a");
    s.and(page("conf_tie_hash", tied(true, true, 4), "token_hash", ends, what))
}

/// A record keyed by a pair.
#[verifier::allow_in_spec]
pub fn seed_pair(s: Script, user: &'static str, role: &'static str) -> Script
    returns
        s.and(
            done(
                upsert(
                    "conf_tie_pair",
                    Upserting {
                        data: row().with("user_id", text(user)).with("role_id", text(role)).with(
                            "created_at",
                            text("2026-01-01T00:00:00Z"),
                        ),
                        conflict: list().and("user_id").and("role_id"),
                        taken: Taken::Overwrite(list().and("created_at")),
                    },
                ),
                "seed conf_tie_pair",
            ),
        ),
{
    s.and(
        done(
            upsert(
                "conf_tie_pair",
                Upserting {
                    data: row().with("user_id", text(user)).with("role_id", text(role)).with(
                        "created_at",
                        text("2026-01-01T00:00:00Z"),
                    ),
                    conflict: list().and("user_id").and("role_id"),
                    taken: Taken::Overwrite(list().and("created_at")),
                },
            ),
            "seed conf_tie_pair",
        ),
    )
}

/// A page of records keyed by a pair holds these.
#[verifier::allow_in_spec]
pub fn pair_page(offset: i64, values: List<&'static str>) -> Probe
    returns
        ({
            let pairs = ListCheck::Keys { columns: list().and("user_id").and("role_id"), values };
            lists(
                list_of("conf_tie_pair", tied(true, false, offset)),
                list().and(ListCheck::Total(5)).and(pairs),
                "a composite key breaks the tie column by column, in key order",
            )
        }),
{
    let pairs = ListCheck::Keys { columns: list().and("user_id").and("role_id"), values };
    lists(
        list_of("conf_tie_pair", tied(true, false, offset)),
        list().and(ListCheck::Total(5)).and(pairs),
        "a composite key breaks the tie column by column, in key order",
    )
}

/// Ties break on a key of two columns, in key order and not in column order.
#[verifier::allow_in_spec]
pub fn ties_by_pair(s: Script) -> Script
    returns
        ({
            let shape = TableShape {
                name: "conf_tie_pair",
                columns: list().and(column("role_id", DataType::Text)).and(
                    column("user_id", DataType::Text),
                ).and(column("created_at", DataType::Text)),
                primary_key: list().and("user_id").and("role_id"),
            };
            let s = reset(s, shape);
            let s = seed_pair(s, "u2", "r1");
            let s = seed_pair(s, "u1", "r2");
            let s = seed_pair(s, "u3", "r1");
            let s = seed_pair(s, "u1", "r1");
            let s = seed_pair(s, "u2", "r2");
            let s = s.and(pair_page(0, list().and("u1/r1").and("u1/r2")));
            let s = s.and(pair_page(2, list().and("u2/r1").and("u2/r2")));
            s.and(pair_page(4, list().and("u3/r1")))
        }),
{
    let shape = TableShape {
        name: "conf_tie_pair",
        columns: list().and(column("role_id", DataType::Text)).and(
            column("user_id", DataType::Text),
        ).and(column("created_at", DataType::Text)),
        primary_key: list().and("user_id").and("role_id"),
    };
    let s = reset(s, shape);
    let s = seed_pair(s, "u2", "r1");
    let s = seed_pair(s, "u1", "r2");
    let s = seed_pair(s, "u3", "r1");
    let s = seed_pair(s, "u1", "r1");
    let s = seed_pair(s, "u2", "r2");
    let s = s.and(pair_page(0, list().and("u1/r1").and("u1/r2")));
    let s = s.and(pair_page(2, list().and("u2/r1").and("u2/r2")));
    s.and(pair_page(4, list().and("u3/r1")))
}

/// Without a key nothing breaks the tie, and still every record is on a page.
#[verifier::allow_in_spec]
pub fn ties_without_a_key(s: Script) -> Script
    returns
        ({
            let shape = table(
                "conf_tie_keyless",
                list().and(column("label", DataType::Text)).and(column("created_at", DataType::Text)),
            );
            let s = seed_ties(reset(s, shape), "conf_tie_keyless", "label");
            let every = ListCheck::GatheredDistinct { columns: list().and("label"), count: 5 };
            gathers_pages(
                s,
                "conf_tie_keyless",
                true,
                every,
                "a keyless table still lists every row",
            )
        }),
{
    let shape = table(
        "conf_tie_keyless",
        list().and(column("label", DataType::Text)).and(column("created_at", DataType::Text)),
    );
    let s = seed_ties(reset(s, shape), "conf_tie_keyless", "label");
    let every = ListCheck::GatheredDistinct { columns: list().and("label"), count: 5 };
    gathers_pages(
        s,
        "conf_tie_keyless",
        true,
        every,
        "a keyless table still lists every row",
    )
}

/// Five records share one sort key and are created out of key order. Paging
/// through them gives each exactly once, in the order of the primary key.
#[verifier::allow_in_spec]
pub fn check_list_tiebreak(s: Script) -> Script
    returns
        ({
            let s = ties_by_id(s);
            let s = ties_by_minted_id(s);
            let s = ties_by_hash(s);
            let s = ties_by_pair(s);
            ties_without_a_key(s)
        }),
{
    let s = ties_by_id(s);
    let s = ties_by_minted_id(s);
    let s = ties_by_hash(s);
    let s = ties_by_pair(s);
    ties_without_a_key(s)
}

/// A record without a score.
#[verifier::allow_in_spec]
pub fn seed_exec(s: Script, id: &'static str) -> Script
    returns
        s.and(
            done(
                create("conf_exec", row().with("id", text(id)).with("score", number(0))),
                "seed conf_exec",
            ),
        ),
{
    s.and(
        done(
            create("conf_exec", row().with("id", text(id)).with("score", number(0))),
            "seed conf_exec",
        ),
    )
}

/// Raw statements read and write, and count what they change.
#[verifier::allow_in_spec]
pub fn check_raw_sql(s: Script) -> Script
    returns
        ({
            let r5 = list().and(RecordCheck::Id("r5")).having("score", int_is(100));
            let s = s.and(
                lists(
                    Call::QueryRaw { query: "SELECT id, score FROM conf_read WHERE category = 'z'" },
                    list().and(ListCheck::Len(1)).and(ListCheck::At(0, r5)),
                    "one category=z row",
                ),
            );
            let s = reset(s, crud_table("conf_exec"));
            let s = seed_exec(s, "e1");
            let s = seed_exec(s, "e2");
            let s = s.and(
                counts(
                    Call::ExecRaw { query: "UPDATE conf_exec SET score = 42 WHERE id = 'e1'" },
                    1,
                    "exec_raw returns rows_affected",
                ),
            );
            let s = s.and(gives(get("conf_exec", "e1"), has("score", int_is(42)), "get e1"));
            let s = s.and(
                gives(
                    get("conf_exec", "e2"),
                    has("score", int_is(0)),
                    "exec_raw touched only the WHERE-matched row",
                ),
            );
            let s = s.and(
                counts(
                    Call::ExecRaw { query: "DELETE FROM conf_exec WHERE id = 'e2'" },
                    1,
                    "exec_raw delete affected-row count",
                ),
            );
            s.and(counts(count("conf_exec", everywhere()), 1, "count after exec_raw"))
        }),
{
    let r5 = list().and(RecordCheck::Id("r5")).having("score", int_is(100));
    let s = s.and(
        lists(
            Call::QueryRaw { query: "SELECT id, score FROM conf_read WHERE category = 'z'" },
            list().and(ListCheck::Len(1)).and(ListCheck::At(0, r5)),
            "one category=z row",
        ),
    );
    let s = reset(s, crud_table("conf_exec"));
    let s = seed_exec(s, "e1");
    let s = seed_exec(s, "e2");
    let s = s.and(
        counts(
            Call::ExecRaw { query: "UPDATE conf_exec SET score = 42 WHERE id = 'e1'" },
            1,
            "exec_raw returns rows_affected",
        ),
    );
    let s = s.and(gives(get("conf_exec", "e1"), has("score", int_is(42)), "get e1"));
    let s = s.and(
        gives(
            get("conf_exec", "e2"),
            has("score", int_is(0)),
            "exec_raw touched only the WHERE-matched row",
        ),
    );
    let s = s.and(
        counts(
            Call::ExecRaw { query: "DELETE FROM conf_exec WHERE id = 'e2'" },
            1,
            "exec_raw delete affected-row count",
        ),
    );
    s.and(counts(count("conf_exec", everywhere()), 1, "count after exec_raw"))
}

} // verus!
