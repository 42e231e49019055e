//! What is asked of increments and of upserts.

use vstd::prelude::*;

use crate::database::conformance::judge::{Expect, FieldCheck};
use crate::database::conformance::list::{list, List};
use crate::database::conformance::probe::{
    everywhere, filt, nullable, number, only, pk, row, table, text, unique, where_eq, Call, Entry,
    Taken, Upserting,
};
use crate::database::conformance::script::{
    assert_invalid_argument, count, counts, create, done, equals, get, gives, has, increment,
    int_is, probe, reset, upsert, Script,
};
use crate::database::conformance::records::{named, scores};
use crate::database::filter::FilterOp;
use crate::database::schema::DataType;

verus! {

/// A record with a score.
#[verifier::allow_in_spec]
pub fn seed_incr(s: Script, id: &'static str, score: i64) -> Script
    returns
        s.and(
            done(
                create("conf_incr", row().with("id", text(id)).with("score", number(score))),
                "seed conf_incr",
            ),
        ),
{
    s.and(
        done(
            create("conf_incr", row().with("id", text(id)).with("score", number(score))),
            "seed conf_incr",
        ),
    )
}

/// A column is added to, in one step with the condition on it.
#[verifier::allow_in_spec]
pub fn check_increment(s: Script) -> Script
    returns
        ({
            let shape = table(
                "conf_incr",
                list().and(pk("id")).and(nullable("score", DataType::Int)).and(
                    nullable("created_at", DataType::Text),
                ).and(nullable("updated_at", DataType::Text)),
            );
            let s = reset(s, shape);
            let s = seed_incr(s, "i1", 0);
            let s = seed_incr(s, "i2", 0);
            let s = seed_incr(s, "i3", 10);
            let s = s.and(
                counts(
                    increment(
                        "conf_incr",
                        "score",
                        5,
                        only(filt("score", FilterOp::LessThan, number(10))),
                    ),
                    2,
                    "only i1 and i2 match score < 10",
                ),
            );
            let s = s.and(scores("conf_incr", "i1", 5, "i1 is bumped"));
            let s = s.and(scores("conf_incr", "i2", 5, "i2 is bumped"));
            let s = s.and(
                scores("conf_incr", "i3", 10, "row failing the CAS predicate is untouched"),
            );
            let s = s.and(
                counts(
                    increment("conf_incr", "score", -5 as i64, where_eq("id", text("i1"))),
                    1,
                    "decrement",
                ),
            );
            let s = s.and(scores("conf_incr", "i1", 0, "i1 is back"));
            s.and(
                counts(
                    increment("conf_incr", "score", 1, where_eq("id", text("nope"))),
                    0,
                    "increment no match",
                ),
            )
        }),
{
    let shape = table(
        "conf_incr",
        list().and(pk("id")).and(nullable("score", DataType::Int)).and(
            nullable("created_at", DataType::Text),
        ).and(nullable("updated_at", DataType::Text)),
    );
    let s = reset(s, shape);
    let s = seed_incr(s, "i1", 0);
    let s = seed_incr(s, "i2", 0);
    let s = seed_incr(s, "i3", 10);
    let s = s.and(
        counts(
            increment(
                "conf_incr",
                "score",
                5,
                only(filt("score", FilterOp::LessThan, number(10))),
            ),
            2,
            "only i1 and i2 match score < 10",
        ),
    );
    let s = s.and(scores("conf_incr", "i1", 5, "i1 is bumped"));
    let s = s.and(scores("conf_incr", "i2", 5, "i2 is bumped"));
    let s = s.and(
        scores("conf_incr", "i3", 10, "row failing the CAS predicate is untouched"),
    );
    let s = s.and(
        counts(
            increment("conf_incr", "score", -5 as i64, where_eq("id", text("i1"))),
            1,
            "decrement",
        ),
    );
    let s = s.and(scores("conf_incr", "i1", 0, "i1 is back"));
    s.and(
        counts(
            increment("conf_incr", "score", 1, where_eq("id", text("nope"))),
            0,
            "increment no match",
        ),
    )
}

/// Creates the record, or renames it.
#[verifier::allow_in_spec]
pub fn writes_name(name: &'static str) -> Call
    returns
        upsert(
            "conf_upsert",
            Upserting {
                data: row().with("id", text("w1")).with("name", text(name)),
                conflict: list().and("id"),
                taken: Taken::Overwrite(list().and("name")),
            },
        ),
{
    upsert(
        "conf_upsert",
        Upserting {
            data: row().with("id", text("w1")).with("name", text(name)),
            conflict: list().and("id"),
            taken: Taken::Overwrite(list().and("name")),
        },
    )
}

/// The first upsert inserts a row, the second updates it.
#[verifier::allow_in_spec]
pub fn check_upsert_set_columns(s: Script) -> Script
    returns
        ({
            let shape = table(
                "conf_upsert",
                list().and(pk("id")).and(nullable("name", DataType::Text)),
            );
            let s = reset(s, shape);
            let s = s.and(counts(writes_name("a"), 1, "insert affects one row"));
            let s = s.and(named("conf_upsert", "w1", "a", "the row was inserted"));
            let s = s.and(counts(writes_name("b"), 1, "conflict update affects one row"));
            let s = s.and(named("conf_upsert", "w1", "b", "on-conflict updated a -> b"));
            s.and(
                counts(
                    count("conf_upsert", everywhere()),
                    1,
                    "still one row: updated, not inserted",
                ),
            )
        }),
{
    let shape = table(
        "conf_upsert",
        list().and(pk("id")).and(nullable("name", DataType::Text)),
    );
    let s = reset(s, shape);
    let s = s.and(counts(writes_name("a"), 1, "insert affects one row"));
    let s = s.and(named("conf_upsert", "w1", "a", "the row was inserted"));
    let s = s.and(counts(writes_name("b"), 1, "conflict update affects one row"));
    let s = s.and(named("conf_upsert", "w1", "b", "on-conflict updated a -> b"));
    s.and(
        counts(
            count("conf_upsert", everywhere()),
            1,
            "still one row: updated, not inserted",
        ),
    )
}

/// Counts within a window of a minute.
#[verifier::allow_in_spec]
pub fn counter(data: List<Entry>, conflict: List<&'static str>) -> Upserting
    returns
        (Upserting {
            data,
            conflict,
            taken: Taken::Count { now: 1_700_000_000, cutoff: 1_699_999_940 },
        }),
{
    Upserting {
        data,
        conflict,
        taken: Taken::Count { now: 1_700_000_000, cutoff: 1_699_999_940 },
    }
}

/// Counts a request of a user.
#[verifier::allow_in_spec]
pub fn counts_user(id: &'static str, key: &'static str) -> Call
    returns
        upsert(
            "conf_rl",
            counter(row().with("id", text(id)).with("key", text(key)), list().and("key")),
        ),
{
    upsert(
        "conf_rl",
        counter(row().with("id", text(id)).with("key", text(key)), list().and("key")),
    )
}

/// A counter counts within its window, keeps the time of creation, and stamps
/// RFC 3339 timestamps, which order as text.
#[verifier::allow_in_spec]
pub fn check_upsert_windowed_counter(s: Script) -> Script
    returns
        ({
            let shape = table(
                "conf_rl",
                list().and(pk("id")).and(unique("key", DataType::Text)).and(
                    nullable("count", DataType::Int),
                ).and(nullable("window_start", DataType::Int64)).and(
                    nullable("created_at", DataType::Text),
                ).and(nullable("updated_at", DataType::Text)),
            );
            let s = reset(s, shape);
            let s = s.and(
                done(
                    Call::ExecRaw {
                        query: "INSERT INTO conf_rl (id, key, count, window_start, created_at, updated_at) VALUES ('seed', 'user:1', 1, 1700000000, 'SENTINEL-CREATED', 'SENTINEL-UPDATED')",
                    },
                    "seed rate-limit row",
                ),
            );
            let s = s.and(
                counts(
                    counts_user("fresh-id", "user:1"),
                    1,
                    "conflict update affects the one matching row",
                ),
            );
            let s = s.and(
                gives(
                    get("conf_rl", "seed"),
                    has("count", int_is(2)).having("created_at", equals(text("SENTINEL-CREATED"))).having(
                        "updated_at",
                        FieldCheck::IsNot(text("SENTINEL-UPDATED")),
                    ),
                    "created_at is immutable and updated_at re-stamped on conflict",
                ),
            );
            let s = s.and(counts(counts_user("fresh-id", "user:1"), 1, "windowed upsert 2"));
            let s = s.and(
                gives(
                    get("conf_rl", "seed"),
                    has("count", int_is(3)),
                    "count incremented 2 -> 3 on the second in-window upsert",
                ),
            );
            let s = s.and(
                counts(
                    count("conf_rl", everywhere()),
                    1,
                    "conflicting upserts never inserted a duplicate row",
                ),
            );
            let s = s.and(probe(Call::Clock, Expect::KeepTime("clock"), "the time before"));
            let s = s.and(
                done(counts_user("fresh-2", "user:2"), "windowed upsert inserting a fresh row"),
            );
            let s = s.and(
                gives(
                    get("conf_rl", "fresh-2"),
                    has("count", int_is(1)).having("created_at", FieldCheck::Stamp).having(
                        "updated_at",
                        FieldCheck::SameAs("created_at"),
                    ),
                    "one instant stamps both timestamp columns",
                ),
            );
            s.and(
                counts(
                    Call::CountBefore {
                        table: "conf_rl",
                        filters: where_eq("key", text("user:2")),
                        stamp: "updated_at",
                        kept: "clock",
                    },
                    0,
                    "a row stamped after a time compares as later than it",
                ),
            )
        }),
{
    let shape = table(
        "conf_rl",
        list().and(pk("id")).and(unique("key", DataType::Text)).and(
            nullable("count", DataType::Int),
        ).and(nullable("window_start", DataType::Int64)).and(
            nullable("created_at", DataType::Text),
        ).and(nullable("updated_at", DataType::Text)),
    );
    let s = reset(s, shape);
    let s = s.and(
        done(
            Call::ExecRaw {
                query: "INSERT INTO conf_rl (id, key, count, window_start, created_at, updated_at) VALUES ('seed', 'user:1', 1, 1700000000, 'SENTINEL-CREATED', 'SENTINEL-UPDATED')",
            },
            "seed rate-limit row",
        ),
    );
    let s = s.and(
        counts(
            counts_user("fresh-id", "user:1"),
            1,
            "conflict update affects the one matching row",
        ),
    );
    let s = s.and(
        gives(
            get("conf_rl", "seed"),
            has("count", int_is(2)).having("created_at", equals(text("SENTINEL-CREATED"))).having(
                "updated_at",
                FieldCheck::IsNot(text("SENTINEL-UPDATED")),
            ),
            "created_at is immutable and updated_at re-stamped on conflict",
        ),
    );
    let s = s.and(counts(counts_user("fresh-id", "user:1"), 1, "windowed upsert 2"));
    let s = s.and(
        gives(
            get("conf_rl", "seed"),
            has("count", int_is(3)),
            "count incremented 2 -> 3 on the second in-window upsert",
        ),
    );
    let s = s.and(
        counts(
            count("conf_rl", everywhere()),
            1,
            "conflicting upserts never inserted a duplicate row",
        ),
    );
    let s = s.and(probe(Call::Clock, Expect::KeepTime("clock"), "the time before"));
    let s = s.and(
        done(counts_user("fresh-2", "user:2"), "windowed upsert inserting a fresh row"),
    );
    let s = s.and(
        gives(
            get("conf_rl", "fresh-2"),
            has("count", int_is(1)).having("created_at", FieldCheck::Stamp).having(
                "updated_at",
                FieldCheck::SameAs("created_at"),
            ),
            "one instant stamps both timestamp columns",
        ),
    );
    s.and(
        counts(
            Call::CountBefore {
                table: "conf_rl",
                filters: where_eq("key", text("user:2")),
                stamp: "updated_at",
                kept: "clock",
            },
            0,
            "a row stamped after a time compares as later than it",
        ),
    )
}

/// Counts a request from an address.
#[verifier::allow_in_spec]
pub fn counts_ip(data: List<Entry>, conflict: List<&'static str>) -> Call
    returns
        upsert("conf_rl_ip", counter(data, conflict)),
{
    upsert("conf_rl_ip", counter(data, conflict))
}

/// A counter is keyed by the column it is told to be keyed by, and refuses what
/// it would not write.
#[verifier::allow_in_spec]
pub fn check_upsert_windowed_counter_honours_its_columns(s: Script) -> Script
    returns
        ({
            let shape = table(
                "conf_rl_ip",
                list().and(pk("id")).and(unique("ip", DataType::Text)).and(
                    nullable("key", DataType::Text),
                ).and(nullable("count", DataType::Int)).and(nullable("window_start", DataType::Int64)).and(
                    nullable("created_at", DataType::Text),
                ).and(nullable("updated_at", DataType::Text)),
            );
            let s = reset(s, shape);
            let s = s.and(
                done(
                    counts_ip(
                        row().with("id", text("r1")).with("ip", text("10.0.0.1")),
                        list().and("ip"),
                    ),
                    "a counter keyed by `ip` takes its value from data[\"ip\"]",
                ),
            );
            let s = s.and(
                gives(
                    get("conf_rl_ip", "r1"),
                    has("ip", equals(text("10.0.0.1"))).having("count", int_is(1)),
                    "get r1",
                ),
            );
            let s = s.and(
                assert_invalid_argument(
                    counts_ip(
                        row().with("id", text("r2")).with("key", text("a")).with("ip", text("b")),
                        list().and("ip"),
                    ),
                    "a data field the counter would not write",
                ),
            );
            let s = s.and(
                assert_invalid_argument(
                    counts_ip(
                        row().with("id", text("r3")).with("ip", text("c")).with("key", text("d")),
                        list().and("ip").and("key"),
                    ),
                    "a second conflict column",
                ),
            );
            let s = s.and(
                assert_invalid_argument(
                    counts_ip(row().with("id", number(4)).with("ip", text("e")), list().and("ip")),
                    "a non-string id",
                ),
            );
            s.and(counts(count("conf_rl_ip", everywhere()), 1, "no refused request wrote a row"))
        }),
{
    let shape = table(
        "conf_rl_ip",
        list().and(pk("id")).and(unique("ip", DataType::Text)).and(
            nullable("key", DataType::Text),
        ).and(nullable("count", DataType::Int)).and(nullable("window_start", DataType::Int64)).and(
            nullable("created_at", DataType::Text),
        ).and(nullable("updated_at", DataType::Text)),
    );
    let s = reset(s, shape);
    let s = s.and(
        done(
            counts_ip(
                row().with("id", text("r1")).with("ip", text("10.0.0.1")),
                list().and("ip"),
            ),
            "a counter keyed by `ip` takes its value from data[\"ip\"]",
        ),
    );
    let s = s.and(
        gives(
            get("conf_rl_ip", "r1"),
            has("ip", equals(text("10.0.0.1"))).having("count", int_is(1)),
            "get r1",
        ),
    );
    let s = s.and(
        assert_invalid_argument(
            counts_ip(
                row().with("id", text("r2")).with("key", text("a")).with("ip", text("b")),
                list().and("ip"),
            ),
            "a data field the counter would not write",
        ),
    );
    let s = s.and(
        assert_invalid_argument(
            counts_ip(
                row().with("id", text("r3")).with("ip", text("c")).with("key", text("d")),
                list().and("ip").and("key"),
            ),
            "a second conflict column",
        ),
    );
    let s = s.and(
        assert_invalid_argument(
            counts_ip(row().with("id", number(4)).with("ip", text("e")), list().and("ip")),
            "a non-string id",
        ),
    );
    s.and(counts(count("conf_rl_ip", everywhere()), 1, "no refused request wrote a row"))
}

} // verus!
