//! What is asked of batches and of guarded writes.

use vstd::prelude::*;

use crate::database::conformance::judge::{
    Effect, Expect, Fault, FieldCheck, ListCheck, RecordCheck,
};
use crate::database::conformance::list::{list, List};
use crate::database::conformance::probe::{
    crud_table, eq, everything, everywhere, filt, guarded_table, number, row, text, where_eq,
    Call, Cap, Condition, Entry, Taken, Upserting, Write,
};
use crate::database::conformance::script::{
    count, counts, create, done, drop_table, equals, fails, get, gives, has, insert_guarded,
    int_is, list_of, lists, probe, reset, update_guarded, update_where_count, Probe, Script,
};
use crate::database::conformance::records::{identified, named, scores, seed_update};
use crate::database::filter::FilterOp;

verus! {

/// Creates the record, or renames it.
#[verifier::allow_in_spec]
pub fn upserted(id: &'static str, name: &'static str) -> Write
    returns
        (Write::Upsert {
            table: "conf_batch",
            row: Upserting {
                data: row().with("id", text(id)).with("name", text(name)),
                conflict: list().and("id"),
                taken: Taken::Overwrite(list().and("name")),
            },
        }),
{
    Write::Upsert {
        table: "conf_batch",
        row: Upserting {
            data: row().with("id", text(id)).with("name", text(name)),
            conflict: list().and("id"),
            taken: Taken::Overwrite(list().and("name")),
        },
    }
}

/// Creates a record.
#[verifier::allow_in_spec]
pub fn creates(table: &'static str, data: List<Entry>) -> Write
    returns
        (Write::Create { table, data }),
{
    Write::Create { table, data }
}

/// Updates a record.
#[verifier::allow_in_spec]
pub fn updates(table: &'static str, id: &'static str, data: List<Entry>) -> Write
    returns
        (Write::Update { table, id, data }),
{
    Write::Update { table, id, data }
}

/// Updates records.
#[verifier::allow_in_spec]
pub fn updates_where(table: &'static str, filters: List<Condition>, data: List<Entry>) -> Write
    returns
        (Write::UpdateWhere { table, filters, data }),
{
    Write::UpdateWhere { table, filters, data }
}

/// Writes of every kind but one, to two tables; the second sees the first.
#[verifier::allow_in_spec]
pub fn mixed_writes() -> List<Write>
    returns
        ({
            let writes = list().and(
                creates("conf_batch", row().with("id", text("b4")).with("name", text("new"))),
            );
            let writes = writes.and(updates("conf_batch", "b4", row().with("score", number(7))));
            let writes = writes.and(updates("conf_batch", "b1", row().with("score", number(5))));
            let writes = writes.and(Write::Delete { table: "conf_batch", id: "b2" });
            let writes = writes.and(
                updates_where(
                    "conf_batch",
                    where_eq("category", text("b")),
                    row().with("name", text("Y")),
                ),
            );
            let writes = writes.and(upserted("b5", "upserted"));
            let writes = writes.and(updates("conf_batch", "missing", row().with("score", number(0))));
            let writes = writes.and(Write::Delete { table: "conf_batch", id: "missing" });
            writes.and(creates("conf_batch_other", row().with("name", text("elsewhere"))))
        }),
{
    let writes = list().and(
        creates("conf_batch", row().with("id", text("b4")).with("name", text("new"))),
    );
    let writes = writes.and(updates("conf_batch", "b4", row().with("score", number(7))));
    let writes = writes.and(updates("conf_batch", "b1", row().with("score", number(5))));
    let writes = writes.and(Write::Delete { table: "conf_batch", id: "b2" });
    let writes = writes.and(
        updates_where(
            "conf_batch",
            where_eq("category", text("b")),
            row().with("name", text("Y")),
        ),
    );
    let writes = writes.and(upserted("b5", "upserted"));
    let writes = writes.and(updates("conf_batch", "missing", row().with("score", number(0))));
    let writes = writes.and(Write::Delete { table: "conf_batch", id: "missing" });
    writes.and(creates("conf_batch_other", row().with("name", text("elsewhere"))))
}

/// What they do, one by one.
#[verifier::allow_in_spec]
pub fn mixed_effects() -> List<(usize, Effect)>
    returns
        ({
            let b4 = list().and(RecordCheck::Id("b4")).having("name", equals(text("new")));
            let effects = list().and((0usize, Effect::Created(b4.having("created_at", FieldCheck::Text))));
            let b4 = list().and(RecordCheck::Id("b4")).having("score", int_is(7)).having(
                "name",
                equals(text("new")),
            );
            let effects = effects.and((1usize, Effect::Updated(b4)));
            let effects = effects.and((2usize, Effect::Updated(has("score", int_is(5)))));
            let effects = effects.and((3usize, Effect::Deleted(1)));
            let effects = effects.and((4usize, Effect::UpdatedWhere(1)));
            let effects = effects.and((5usize, Effect::Upserted(1)));
            let effects = effects.and((6usize, Effect::NotUpdated));
            let effects = effects.and((7usize, Effect::Deleted(0)));
            effects.and((8usize, Effect::Created(list().and(RecordCheck::SomeId))))
        }),
{
    let b4 = list().and(RecordCheck::Id("b4")).having("name", equals(text("new")));
    let effects = list().and((0usize, Effect::Created(b4.having("created_at", FieldCheck::Text))));
    let b4 = list().and(RecordCheck::Id("b4")).having("score", int_is(7)).having(
        "name",
        equals(text("new")),
    );
    let effects = effects.and((1usize, Effect::Updated(b4)));
    let effects = effects.and((2usize, Effect::Updated(has("score", int_is(5)))));
    let effects = effects.and((3usize, Effect::Deleted(1)));
    let effects = effects.and((4usize, Effect::UpdatedWhere(1)));
    let effects = effects.and((5usize, Effect::Upserted(1)));
    let effects = effects.and((6usize, Effect::NotUpdated));
    let effects = effects.and((7usize, Effect::Deleted(0)));
    effects.and((8usize, Effect::Created(list().and(RecordCheck::SomeId))))
}

/// A batch over two tables takes effect in order, and each effect is told.
#[verifier::allow_in_spec]
pub fn batch_lands(s: Script) -> Script
    returns
        ({
            let s = reset(s, crud_table("conf_batch"));
            let s = reset(s, crud_table("conf_batch_other"));
            let s = seed_update(s, "conf_batch", "b1", "a", "seed conf_batch");
            let s = seed_update(s, "conf_batch", "b2", "a", "seed conf_batch");
            let s = seed_update(s, "conf_batch", "b3", "b", "seed conf_batch");
            let s = s.and(
                probe(
                    Call::Batch(mixed_writes()),
                    Expect::Effects {
                        count: Some(9),
                        effects: mixed_effects(),
                        keep_id: Some((8, "elsewhere")),
                    },
                    "mixed batch",
                ),
            );
            let s = s.and(scores("conf_batch", "b4", 7, "b4"));
            let s = s.and(scores("conf_batch", "b1", 5, "b1"));
            let s = s.and(fails(get("conf_batch", "b2"), Fault::NotFound, "b2"));
            let s = s.and(named("conf_batch", "b3", "Y", "b3"));
            let s = s.and(named("conf_batch", "b5", "upserted", "b5"));
            s.and(
                gives(
                    Call::GetKept { table: "conf_batch_other", kept: "elsewhere" },
                    has("name", equals(text("elsewhere"))),
                    "other collection",
                ),
            )
        }),
{
    let s = reset(s, crud_table("conf_batch"));
    let s = reset(s, crud_table("conf_batch_other"));
    let s = seed_update(s, "conf_batch", "b1", "a", "seed conf_batch");
    let s = seed_update(s, "conf_batch", "b2", "a", "seed conf_batch");
    let s = seed_update(s, "conf_batch", "b3", "b", "seed conf_batch");
    let s = s.and(
        probe(
            Call::Batch(mixed_writes()),
            Expect::Effects {
                count: Some(9),
                effects: mixed_effects(),
                keep_id: Some((8, "elsewhere")),
            },
            "mixed batch",
        ),
    );
    let s = s.and(scores("conf_batch", "b4", 7, "b4"));
    let s = s.and(scores("conf_batch", "b1", 5, "b1"));
    let s = s.and(fails(get("conf_batch", "b2"), Fault::NotFound, "b2"));
    let s = s.and(named("conf_batch", "b3", "Y", "b3"));
    let s = s.and(named("conf_batch", "b5", "upserted", "b5"));
    s.and(
        gives(
            Call::GetKept { table: "conf_batch_other", kept: "elsewhere" },
            has("name", equals(text("elsewhere"))),
            "other collection",
        ),
    )
}

/// Writes of which the last fails.
#[verifier::allow_in_spec]
pub fn failing_writes() -> List<Write>
    returns
        ({
            let writes = list().and(creates("conf_batch", identified("rolled")));
            let writes = writes.and(updates("conf_batch", "b1", row().with("name", text("rolled"))));
            let writes = writes.and(Write::Delete { table: "conf_batch", id: "b4" });
            let writes = writes.and(
                updates_where(
                    "conf_batch_other",
                    where_eq("name", text("elsewhere")),
                    row().with("name", text("rolled")),
                ),
            );
            let writes = writes.and(upserted("b5", "rolled"));
            writes.and(creates("conf_batch", identified("b3")))
        }),
{
    let writes = list().and(creates("conf_batch", identified("rolled")));
    let writes = writes.and(updates("conf_batch", "b1", row().with("name", text("rolled"))));
    let writes = writes.and(Write::Delete { table: "conf_batch", id: "b4" });
    let writes = writes.and(
        updates_where(
            "conf_batch_other",
            where_eq("name", text("elsewhere")),
            row().with("name", text("rolled")),
        ),
    );
    let writes = writes.and(upserted("b5", "rolled"));
    writes.and(creates("conf_batch", identified("b3")))
}

/// One write that fails undoes every write of its batch.
#[verifier::allow_in_spec]
pub fn batch_is_undone(s: Script) -> Script
    returns
        ({
            let s = s.and(
                probe(count("conf_batch", everywhere()), Expect::KeepCount("before"), "count"),
            );
            let s = s.and(
                fails(Call::Batch(failing_writes()), Fault::Any, "a duplicate key fails the batch"),
            );
            let s = s.and(
                probe(
                    count("conf_batch", everywhere()),
                    Expect::CountKept("before"),
                    "no row added or removed by the failed batch",
                ),
            );
            let s = s.and(
                fails(get("conf_batch", "rolled"), Fault::NotFound, "the create was rolled back"),
            );
            let s = s.and(named("conf_batch", "b1", "orig", "the update was rolled back"));
            let s = s.and(done(get("conf_batch", "b4"), "the delete was rolled back"));
            let s = s.and(named("conf_batch", "b5", "upserted", "the upsert was rolled back"));
            s.and(
                gives(
                    Call::GetKept { table: "conf_batch_other", kept: "elsewhere" },
                    has("name", equals(text("elsewhere"))),
                    "the other collection's update was rolled back too",
                ),
            )
        }),
{
    let s = s.and(
        probe(count("conf_batch", everywhere()), Expect::KeepCount("before"), "count"),
    );
    let s = s.and(
        fails(Call::Batch(failing_writes()), Fault::Any, "a duplicate key fails the batch"),
    );
    let s = s.and(
        probe(
            count("conf_batch", everywhere()),
            Expect::CountKept("before"),
            "no row added or removed by the failed batch",
        ),
    );
    let s = s.and(
        fails(get("conf_batch", "rolled"), Fault::NotFound, "the create was rolled back"),
    );
    let s = s.and(named("conf_batch", "b1", "orig", "the update was rolled back"));
    let s = s.and(done(get("conf_batch", "b4"), "the delete was rolled back"));
    let s = s.and(named("conf_batch", "b5", "upserted", "the upsert was rolled back"));
    s.and(
        gives(
            Call::GetKept { table: "conf_batch_other", kept: "elsewhere" },
            has("name", equals(text("elsewhere"))),
            "the other collection's update was rolled back too",
        ),
    )
}

/// A batch takes effect as a whole, in order, or not at all.
#[verifier::allow_in_spec]
pub fn check_batch(s: Script) -> Script
    returns
        ({
            let s = batch_lands(s);
            let s = batch_is_undone(s);
            let nothing = Expect::Effects { count: Some(0), effects: list(), keep_id: None };
            let s = s.and(probe(Call::Batch(list()), nothing, "an empty batch"));
            let s = s.and(done(drop_table("conf_batch_missing"), "drop (idempotent)"));
            let s = s.and(
                counts(
                    update_where_count(
                        "conf_batch_missing",
                        where_eq("category", text("a")),
                        row().with("name", text("Z")),
                    ),
                    0,
                    "single op on a missing table",
                ),
            );
            let writes = list().and(creates("conf_batch", identified("beside_missing"))).and(
                updates_where(
                    "conf_batch_missing",
                    where_eq("category", text("a")),
                    row().with("name", text("Z")),
                ),
            );
            let s = s.and(
                probe(
                    Call::Batch(writes),
                    Expect::Effects {
                        count: None,
                        effects: list().and((1usize, Effect::UpdatedWhere(0))),
                        keep_id: None,
                    },
                    "an update-where on a missing table does not fail the batch",
                ),
            );
            s.and(done(get("conf_batch", "beside_missing"), "the op beside it committed"))
        }),
{
    let s = batch_lands(s);
    let s = batch_is_undone(s);
    let nothing = Expect::Effects { count: Some(0), effects: list(), keep_id: None };
    let s = s.and(probe(Call::Batch(list()), nothing, "an empty batch"));
    let s = s.and(done(drop_table("conf_batch_missing"), "drop (idempotent)"));
    let s = s.and(
        counts(
            update_where_count(
                "conf_batch_missing",
                where_eq("category", text("a")),
                row().with("name", text("Z")),
            ),
            0,
            "single op on a missing table",
        ),
    );
    let writes = list().and(creates("conf_batch", identified("beside_missing"))).and(
        updates_where(
            "conf_batch_missing",
            where_eq("category", text("a")),
            row().with("name", text("Z")),
        ),
    );
    let s = s.and(
        probe(
            Call::Batch(writes),
            Expect::Effects {
                count: None,
                effects: list().and((1usize, Effect::UpdatedWhere(0))),
                keep_id: None,
            },
            "an update-where on a missing table does not fail the batch",
        ),
    );
    s.and(done(get("conf_batch", "beside_missing"), "the op beside it committed"))
}

/// A record to be replaced.
#[verifier::allow_in_spec]
pub fn seed_replace(s: Script, id: &'static str, category: &'static str) -> Script
    returns
        s.and(
            done(
                create(
                    "conf_batch_replace",
                    row().with("id", text(id)).with("category", text(category)).with(
                        "name",
                        text("orig"),
                    ),
                ),
                "seed conf_batch_replace",
            ),
        ),
{
    s.and(
        done(
            create(
                "conf_batch_replace",
                row().with("id", text(id)).with("category", text(category)).with(
                    "name",
                    text("orig"),
                ),
            ),
            "seed conf_batch_replace",
        ),
    )
}

/// A record that replaces another.
#[verifier::allow_in_spec]
pub fn replacement(id: &'static str) -> Write
    returns
        creates(
            "conf_batch_replace",
            row().with("id", text(id)).with("category", text("a")).with("name", text("new")),
        ),
{
    creates(
        "conf_batch_replace",
        row().with("id", text(id)).with("category", text("a")).with("name", text("new")),
    )
}

/// The first write deleted so many.
#[verifier::allow_in_spec]
pub fn deleted_first(n: i64) -> Expect
    returns
        (Expect::Effects {
            count: None,
            effects: list().and((0usize, Effect::DeletedWhere(n))),
            keep_id: None,
        }),
{
    Expect::Effects {
        count: None,
        effects: list().and((0usize, Effect::DeletedWhere(n))),
        keep_id: None,
    }
}

/// The records after the replacement.
#[verifier::allow_in_spec]
pub fn replaced(what: &'static str) -> Probe
    returns
        lists(
            list_of("conf_batch_replace", everything()),
            list().and(ListCheck::IdsInAnyOrder(list().and("r1").and("r3").and("r4"))),
            what,
        ),
{
    lists(
        list_of("conf_batch_replace", everything()),
        list().and(ListCheck::IdsInAnyOrder(list().and("r1").and("r3").and("r4"))),
        what,
    )
}

/// Deleting what a filter matches and creating its replacement is one step: a
/// replacement that fails leaves the original in place.
#[verifier::allow_in_spec]
pub fn check_batch_delete_where(s: Script) -> Script
    returns
        ({
            let s = reset(s, crud_table("conf_batch_replace"));
            let s = seed_replace(s, "r1", "a");
            let s = seed_replace(s, "r2", "a");
            let s = seed_replace(s, "r3", "b");
            let matching = Write::DeleteWhere {
                table: "conf_batch_replace",
                filters: where_eq("category", text("a")),
            };
            let writes = list().and(matching).and(replacement("r1")).and(replacement("r4"));
            let s = s.and(probe(Call::Batch(writes), deleted_first(2), "delete-where then create"));
            let s = s.and(replaced("the matching rows were replaced"));
            let s = s.and(
                named("conf_batch_replace", "r1", "new", "r1 is the replacement, not the original"),
            );
            let s = s.and(
                named("conf_batch_replace", "r3", "orig", "a row the filter did not match stays"),
            );
            let every = Write::DeleteWhere { table: "conf_batch_replace", filters: everywhere() };
            let writes = list().and(every).and(replacement("r5")).and(replacement("r6")).and(
                replacement("r5"),
            );
            let s = s.and(
                fails(Call::Batch(writes), Fault::Any, "a duplicate key fails the replacement"),
            );
            let s = s.and(replaced("the failed replacement left the original rows in place"));
            let s = s.and(done(drop_table("conf_batch_replace_missing"), "drop (idempotent)"));
            let missing = Write::DeleteWhere {
                table: "conf_batch_replace_missing",
                filters: everywhere(),
            };
            let writes = list().and(missing).and(replacement("beside_missing"));
            let s = s.and(
                probe(
                    Call::Batch(writes),
                    deleted_first(0),
                    "a delete-where on a missing table does not fail the batch",
                ),
            );
            s.and(done(get("conf_batch_replace", "beside_missing"), "the op beside it committed"))
        }),
{
    let s = reset(s, crud_table("conf_batch_replace"));
    let s = seed_replace(s, "r1", "a");
    let s = seed_replace(s, "r2", "a");
    let s = seed_replace(s, "r3", "b");
    let matching = Write::DeleteWhere {
        table: "conf_batch_replace",
        filters: where_eq("category", text("a")),
    };
    let writes = list().and(matching).and(replacement("r1")).and(replacement("r4"));
    let s = s.and(probe(Call::Batch(writes), deleted_first(2), "delete-where then create"));
    let s = s.and(replaced("the matching rows were replaced"));
    let s = s.and(
        named("conf_batch_replace", "r1", "new", "r1 is the replacement, not the original"),
    );
    let s = s.and(
        named("conf_batch_replace", "r3", "orig", "a row the filter did not match stays"),
    );
    let every = Write::DeleteWhere { table: "conf_batch_replace", filters: everywhere() };
    let writes = list().and(every).and(replacement("r5")).and(replacement("r6")).and(
        replacement("r5"),
    );
    let s = s.and(
        fails(Call::Batch(writes), Fault::Any, "a duplicate key fails the replacement"),
    );
    let s = s.and(replaced("the failed replacement left the original rows in place"));
    let s = s.and(done(drop_table("conf_batch_replace_missing"), "drop (idempotent)"));
    let missing = Write::DeleteWhere {
        table: "conf_batch_replace_missing",
        filters: everywhere(),
    };
    let writes = list().and(missing).and(replacement("beside_missing"));
    let s = s.and(
        probe(
            Call::Batch(writes),
            deleted_first(0),
            "a delete-where on a missing table does not fail the batch",
        ),
    );
    s.and(done(get("conf_batch_replace", "beside_missing"), "the op beside it committed"))
}

/// At most `cap` rows for an owner and a bucket.
#[verifier::allow_in_spec]
pub fn files_per_bucket(owner: &'static str, bucket: &'static str, cap: i64) -> Cap
    returns
        (Cap::CountBelow {
            filters: list().and(eq("owner", text(owner))).and(eq("bucket", text(bucket))),
            cap,
        }),
{
    Cap::CountBelow {
        filters: list().and(eq("owner", text(owner))).and(eq("bucket", text(bucket))),
        cap,
    }
}

/// At most `cap` bytes for an owner once `add` more are there, not counting the
/// row that is left out.
#[verifier::allow_in_spec]
pub fn bytes_per_owner(owner: &'static str, except: Option<&'static str>, add: i64, cap: i64) -> Cap
    returns
        ({
            let filters = where_eq("owner", text(owner));
            let filters = match except {
                Some(id) => filters.and(filt("id", FilterOp::NotEqual, text(id))),
                None => filters,
            };
            Cap::SumAtMost { field: "size", filters, add, cap }
        }),
{
    let filters = where_eq("owner", text(owner));
    let filters = match except {
        Some(id) => filters.and(filt("id", FilterOp::NotEqual, text(id))),
        None => filters,
    };
    Cap::SumAtMost { field: "size", filters, add, cap }
}

/// A row of an owner in a bucket.
#[verifier::allow_in_spec]
pub fn guarded_row(owner: &'static str, bucket: &'static str, size: i64) -> List<Entry>
    returns
        row().with("owner", text(owner)).with("bucket", text(bucket)).with("size", number(size)),
{
    row().with("owner", text(owner)).with("bucket", text(bucket)).with("size", number(size))
}

/// A row of an owner, with an id.
#[verifier::allow_in_spec]
pub fn identified_row(id: &'static str, owner: &'static str, size: i64) -> List<Entry>
    returns
        guarded_row(owner, "b1", size).with("id", text(id)),
{
    guarded_row(owner, "b1", size).with("id", text(id))
}

/// The call inserts a row.
#[verifier::allow_in_spec]
pub fn inserts(call: Call, what: &'static str) -> Probe
    returns
        probe(call, Expect::Inserted(list()), what),
{
    probe(call, Expect::Inserted(list()), what)
}

/// The guard refuses the row.
#[verifier::allow_in_spec]
pub fn refuses(call: Call, guard: usize, what: &'static str) -> Probe
    returns
        probe(call, Expect::InsertRefused(guard), what),
{
    probe(call, Expect::InsertRefused(guard), what)
}

/// Inserts a row within a count of two.
#[verifier::allow_in_spec]
pub fn counted_insert(bucket: &'static str) -> Call
    returns
        insert_guarded(
            "conf_guarded",
            guarded_row("c", bucket, 1),
            list().and(files_per_bucket("c", bucket, 2)),
        ),
{
    insert_guarded(
        "conf_guarded",
        guarded_row("c", bucket, 1),
        list().and(files_per_bucket("c", bucket, 2)),
    )
}

/// A count guards: another bucket has a count of its own.
#[verifier::allow_in_spec]
pub fn guards_count(s: Script) -> Script
    returns
        ({
            let stamped = list().and(RecordCheck::SomeId).having("size", int_is(1)).having(
                "created_at",
                FieldCheck::Text,
            ).having("updated_at", FieldCheck::Text);
            let s = s.and(
                probe(counted_insert("b1"), Expect::Inserted(stamped), "the stored row comes back"),
            );
            let s = s.and(inserts(counted_insert("b1"), "the second file is within a cap of two"));
            let s = s.and(refuses(counted_insert("b1"), 0, "the third file passes a cap of two"));
            let s = s.and(inserts(counted_insert("b2"), "insert_guarded (other bucket)"));
            s.and(
                counts(
                    count("conf_guarded", where_eq("owner", text("c"))),
                    3,
                    "exactly the admitted rows landed",
                ),
            )
        }),
{
    let stamped = list().and(RecordCheck::SomeId).having("size", int_is(1)).having(
        "created_at",
        FieldCheck::Text,
    ).having("updated_at", FieldCheck::Text);
    let s = s.and(
        probe(counted_insert("b1"), Expect::Inserted(stamped), "the stored row comes back"),
    );
    let s = s.and(inserts(counted_insert("b1"), "the second file is within a cap of two"));
    let s = s.and(refuses(counted_insert("b1"), 0, "the third file passes a cap of two"));
    let s = s.and(inserts(counted_insert("b2"), "insert_guarded (other bucket)"));
    s.and(
        counts(
            count("conf_guarded", where_eq("owner", text("c"))),
            3,
            "exactly the admitted rows landed",
        ),
    )
}

/// Inserts a row within a sum of a hundred.
#[verifier::allow_in_spec]
pub fn summed_insert(id: &'static str, size: i64) -> Call
    returns
        insert_guarded(
            "conf_guarded",
            identified_row(id, "s", size),
            list().and(bytes_per_owner("s", None, size, 100)),
        ),
{
    insert_guarded(
        "conf_guarded",
        identified_row(id, "s", size),
        list().and(bytes_per_owner("s", None, size, 100)),
    )
}

/// Inserts a row within a count and a sum.
#[verifier::allow_in_spec]
pub fn twice_guarded_insert(files: i64) -> Call
    returns
        insert_guarded(
            "conf_guarded",
            guarded_row("s", "b1", 5),
            list().and(files_per_bucket("s", "b1", files)).and(
                bytes_per_owner("s", None, 5, 100),
            ),
        ),
{
    insert_guarded(
        "conf_guarded",
        guarded_row("s", "b1", 5),
        list().and(files_per_bucket("s", "b1", files)).and(
            bytes_per_owner("s", None, 5, 100),
        ),
    )
}

/// Inserts a row whose id is taken.
#[verifier::allow_in_spec]
pub fn taken_insert(caps: List<Cap>) -> Call
    returns
        insert_guarded("conf_guarded", identified_row("s1", "x", 1), caps),
{
    insert_guarded("conf_guarded", identified_row("s1", "x", 1), caps)
}

/// A sum guards, the guard that refuses is named, and a taken id is no refusal.
#[verifier::allow_in_spec]
pub fn guards_sum(s: Script) -> Script
    returns
        ({
            let s = s.and(inserts(summed_insert("s1", 60), "s1 of 60 bytes"));
            let s = s.and(inserts(summed_insert("s2", 40), "s2 of 40 bytes lands on the cap"));
            let s = s.and(refuses(summed_insert("s3", 1), 0, "s3 of 1 byte is past the cap"));
            let s = s.and(
                fails(get("conf_guarded", "s3"), Fault::NotFound, "the refused row is not stored"),
            );
            let s = s.and(refuses(twice_guarded_insert(10), 1, "file cap 10"));
            let s = s.and(refuses(twice_guarded_insert(1), 0, "file cap 1"));
            let s = s.and(
                inserts(
                    insert_guarded("conf_guarded", guarded_row("n", "b1", 1), list()),
                    "insert_guarded (no guards)",
                ),
            );
            let s = s.and(
                fails(taken_insert(list()), Fault::AlreadyExists, "a duplicate id with no guard"),
            );
            let s = s.and(
                fails(
                    taken_insert(list().and(files_per_bucket("x", "b1", 10))),
                    Fault::AlreadyExists,
                    "a duplicate id with a guard",
                ),
            );
            s.and(
                fails(
                    create("conf_guarded", identified("s1")),
                    Fault::AlreadyExists,
                    "create of a duplicate id",
                ),
            )
        }),
{
    let s = s.and(inserts(summed_insert("s1", 60), "s1 of 60 bytes"));
    let s = s.and(inserts(summed_insert("s2", 40), "s2 of 40 bytes lands on the cap"));
    let s = s.and(refuses(summed_insert("s3", 1), 0, "s3 of 1 byte is past the cap"));
    let s = s.and(
        fails(get("conf_guarded", "s3"), Fault::NotFound, "the refused row is not stored"),
    );
    let s = s.and(refuses(twice_guarded_insert(10), 1, "file cap 10"));
    let s = s.and(refuses(twice_guarded_insert(1), 0, "file cap 1"));
    let s = s.and(
        inserts(
            insert_guarded("conf_guarded", guarded_row("n", "b1", 1), list()),
            "insert_guarded (no guards)",
        ),
    );
    let s = s.and(
        fails(taken_insert(list()), Fault::AlreadyExists, "a duplicate id with no guard"),
    );
    let s = s.and(
        fails(
            taken_insert(list().and(files_per_bucket("x", "b1", 10))),
            Fault::AlreadyExists,
            "a duplicate id with a guard",
        ),
    );
    s.and(
        fails(
            create("conf_guarded", identified("s1")),
            Fault::AlreadyExists,
            "create of a duplicate id",
        ),
    )
}

/// Resizes a row; the sum leaves out the row itself.
#[verifier::allow_in_spec]
pub fn replaces(id: &'static str, size: i64) -> Call
    returns
        update_guarded(
            "conf_guarded",
            where_eq("id", text(id)),
            row().with("size", number(size)),
            list().and(bytes_per_owner("s", Some(id), size, 100)),
        ),
{
    update_guarded(
        "conf_guarded",
        where_eq("id", text(id)),
        row().with("size", number(size)),
        list().and(bytes_per_owner("s", Some(id), size, 100)),
    )
}

/// The row has such a size.
#[verifier::allow_in_spec]
pub fn sized(n: i64) -> Probe
    returns
        gives(get("conf_guarded", "s1"), has("size", int_is(n)), "s1"),
{
    gives(get("conf_guarded", "s1"), has("size", int_is(n)), "s1")
}

/// A guarded update leaves out the row it replaces, and tells no match from a
/// refusal.
#[verifier::allow_in_spec]
pub fn guards_updates(s: Script) -> Script
    returns
        ({
            let s = s.and(probe(replaces("s1", 61), Expect::UpdateRefused(0), "40 + 61 > 100"));
            let s = s.and(sized(60));
            let s = s.and(probe(replaces("s1", 55), Expect::Updated(1), "update_guarded"));
            let s = s.and(sized(55));
            let s = s.and(probe(replaces("gone", 1), Expect::NoMatch, "update_guarded (no match)"));
            s.and(
                probe(
                    update_guarded(
                        "conf_guarded_missing",
                        everywhere(),
                        row().with("size", number(1)),
                        list(),
                    ),
                    Expect::NoMatch,
                    "a missing table matches nothing, as update_where_count",
                ),
            )
        }),
{
    let s = s.and(probe(replaces("s1", 61), Expect::UpdateRefused(0), "40 + 61 > 100"));
    let s = s.and(sized(60));
    let s = s.and(probe(replaces("s1", 55), Expect::Updated(1), "update_guarded"));
    let s = s.and(sized(55));
    let s = s.and(probe(replaces("gone", 1), Expect::NoMatch, "update_guarded (no match)"));
    s.and(
        probe(
            update_guarded(
                "conf_guarded_missing",
                everywhere(),
                row().with("size", number(1)),
                list(),
            ),
            Expect::NoMatch,
            "a missing table matches nothing, as update_where_count",
        ),
    )
}

/// Ten inserts at once, within a cap.
#[verifier::allow_in_spec]
pub fn race(owner: &'static str, cap: Cap) -> Call
    returns
        (Call::Race {
            times: 10,
            table: "conf_guarded",
            data: guarded_row(owner, "b1", 30),
            caps: list().and(cap),
        }),
{
    Call::Race {
        times: 10,
        table: "conf_guarded",
        data: guarded_row(owner, "b1", 30),
        caps: list().and(cap),
    }
}

/// Guards are checked and rows written in one step: ten inserts at once under a
/// cap of three leave exactly three.
#[verifier::allow_in_spec]
pub fn check_guarded_writes(s: Script) -> Script
    returns
        ({
            let s = reset(s, guarded_table());
            let s = guards_count(s);
            let s = guards_sum(s);
            let s = guards_updates(s);
            let s = s.and(
                probe(
                    race("r", files_per_bucket("r", "b1", 3)),
                    Expect::Admitted(3),
                    "exactly the cap is admitted",
                ),
            );
            let s = s.and(
                counts(
                    count("conf_guarded", where_eq("owner", text("r"))),
                    3,
                    "exactly the admitted rows landed",
                ),
            );
            s.and(
                probe(
                    race("q", bytes_per_owner("q", None, 30, 100)),
                    Expect::Admitted(3),
                    "30 * 3 <= 100 < 30 * 4",
                ),
            )
        }),
{
    let s = reset(s, guarded_table());
    let s = guards_count(s);
    let s = guards_sum(s);
    let s = guards_updates(s);
    let s = s.and(
        probe(
            race("r", files_per_bucket("r", "b1", 3)),
            Expect::Admitted(3),
            "exactly the cap is admitted",
        ),
    );
    let s = s.and(
        counts(
            count("conf_guarded", where_eq("owner", text("r"))),
            3,
            "exactly the admitted rows landed",
        ),
    );
    s.and(
        probe(
            race("q", bytes_per_owner("q", None, 30, 100)),
            Expect::Admitted(3),
            "30 * 3 <= 100 < 30 * 4",
        ),
    )
}

} // verus!
