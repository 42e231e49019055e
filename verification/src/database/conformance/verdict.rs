//! What the judgement of answers comes to: what is kept is recognized, pages
//! are gathered in order, and lists of checks are checked one by one.

use vstd::prelude::*;

use crate::database::conformance::ask;
use crate::database::conformance::ask::Kept;
use crate::database::conformance::judge::{
    admitted, distinct, effect_meets, effects_meet, field_meets, ints_of, key_of, keys_of,
    list_meets, list_meets_all, lists_all, meets, record_meets, record_meets_all, remembers,
    Answer, Effect, Expect, Fault, FieldCheck, Gather, Keep, ListCheck, RecordCheck,
};
use crate::database::conformance::list::{items, List};
use crate::database::conformance::probe::Datum;
use crate::database::exec::ops::Outcome;
use crate::database::service::{
    DatabaseError, GuardedInsert, GuardedUpdate, Record, WriteOutcome,
};
use crate::json;
use crate::json::JsonView;
use crate::text;

verus! {

/// The answer that a count is.
pub open spec fn counted(n: i64) -> Result<Answer, DatabaseError> {
    Ok(Answer::Operation(Outcome::Count(n)))
}

/// The answer that a record is.
pub open spec fn found(record: Record) -> Result<Answer, DatabaseError> {
    Ok(Answer::Operation(Outcome::Record(record)))
}

/// The answer that records are.
pub open spec fn page(records: Vec<Record>) -> Result<Answer, DatabaseError> {
    Ok(Answer::Operation(Outcome::Records(records)))
}

/// A count that is kept is the one count that is recognized under its name, and
/// nothing else that was kept changes.
pub proof fn a_kept_count_is_recognized(at: &'static str, n: i64, m: i64, before: Kept, after: Kept)
    requires
        remembers(Expect::KeepCount(at), counted(n), before, after),
    ensures
        meets(Expect::CountKept(at), counted(m), after) <==> m == n,
        forall|name: Seq<char>| name != at@ ==> after.text(name) == before.text(name)
            && #[trigger] after.count(name) == before.count(name),
        text::opt_view(after.data) == text::opt_view(before.data),
        text::views(after.gathered@) == text::views(before.gathered@),
{
}

/// The id of a record that is kept is recognized in the records that have it,
/// and in no others; and likewise the id of a row that a batch created. What is
/// kept under other names stays.
pub proof fn a_kept_id_is_recognized(
    at: &'static str,
    checks: List<RecordCheck>,
    effects: List<(usize, Effect)>,
    outcomes: Vec<WriteOutcome>,
    i: usize,
    record: Record,
    other: Record,
    before: Kept,
    after: Kept,
)
    requires
        remembers((Expect::Record { checks, keep: Keep::Id(at) }), found(record), before, after) || (
        i < outcomes@.len() && outcomes@[i as int] == WriteOutcome::Created(record) && remembers(
            (Expect::Effects { count: None, effects, keep_id: Some((i, at)) }),
            Ok(Answer::Batch(outcomes)),
            before,
            after,
        )),
    ensures
        record_meets(RecordCheck::IdKept(at), other, after) <==> other.id@ == record.id@,
        record_meets(RecordCheck::IdNotKept(at), other, after) <==> other.id@ != record.id@,
        forall|name: Seq<char>| name != at@ ==> #[trigger] after.text(name) == before.text(name),
{
}

/// Columns that are kept are recognized in the rows with those columns, and
/// the columns of a table in the same columns in the same order.
pub proof fn kept_columns_are_recognized(
    checks: List<RecordCheck>,
    record: Record,
    listed: Vec<String>,
    other: Vec<String>,
    before: Kept,
    with_data: Kept,
    with_columns: Kept,
)
    requires
        remembers((Expect::Record { checks, keep: Keep::Data }), found(record), before, with_data),
        remembers(Expect::KeepColumns, Ok(Answer::Columns(listed)), before, with_columns),
    ensures
        record_meets(RecordCheck::DataKept, record, with_data),
        forall|r: Record| #[trigger]
            record_meets(RecordCheck::DataKept, r, with_data) ==> r.data@.dom()
                == record.data@.dom(),
        meets(Expect::ColumnsKept, Ok(Answer::Columns(other)), with_columns) <==> text::views(
            other@,
        ) == text::views(listed@),
        with_data.values@ == before.values@,
        with_columns.values@ == before.values@,
{
    assert forall|k: Seq<char>| #[trigger] record.data@.dom().contains(k) implies json::json_equal(
        record.data@[k],
        record.data@[k],
    ) by {
        json::values_equal_themselves(record.data@[k]);
    }
}

/// The time that is kept can be asked for under its name.
pub proof fn a_kept_time_is_known(at: &'static str, time: String, before: Kept, after: Kept)
    requires
        remembers(Expect::KeepTime(at), Ok(Answer::Time(time)), before, after),
    ensures
        after.text(at@) == Some(time@),
        forall|name: Seq<char>| name != at@ ==> #[trigger] after.text(name) == before.text(name),
{
}

/// Nothing is kept of a failure.
pub proof fn a_failure_leaves_nothing(
    expect: Expect,
    error: DatabaseError,
    before: Kept,
    after: Kept,
)
    requires
        remembers(expect, Err(error), before, after),
    ensures
        after == before,
{
}

/// Records have keys where every one of them has one, and then each key stands
/// where its record does.
pub proof fn every_record_has_its_key(records: Seq<Record>, columns: List<&'static str>)
    ensures
        keys_of(records, columns) is Some <==> forall|i: int|
            0 <= i < records.len() ==> key_of((#[trigger] records[i]).data@, columns) is Some,
        keys_of(records, columns) matches Some(keys) ==> keys.len() == records.len() && forall|
            i: int,
        |
            0 <= i < records.len() ==> key_of(records[i].data@, columns) == Some(
                #[trigger] keys[i],
            ),
    decreases records.len(),
{
    if records.len() > 0 {
        let before = records.drop_last();
        every_record_has_its_key(before, columns);
        if keys_of(records, columns) is Some {
            assert forall|i: int| 0 <= i < records.len() implies key_of(
                (#[trigger] records[i]).data@,
                columns,
            ) is Some by {
                if i < before.len() {
                    assert(before[i] == records[i]);
                }
            }
            let keys = keys_of(records, columns)->0;
            assert forall|i: int| 0 <= i < records.len() implies key_of(records[i].data@, columns)
                == Some(#[trigger] keys[i]) by {
                if i < before.len() {
                    assert(before[i] == records[i]);
                    assert(keys_of(before, columns)->0[i] == keys[i]);
                }
            }
        } else if forall|i: int|
            0 <= i < records.len() ==> key_of((#[trigger] records[i]).data@, columns) is Some {
            assert forall|i: int| 0 <= i < before.len() implies key_of(
                (#[trigger] before[i]).data@,
                columns,
            ) is Some by {
                assert(before[i] == records[i]);
            }
            assert(records.last() == records[records.len() - 1]);
        }
    }
}

/// The key of one column is the text in it.
pub proof fn a_key_of_one_column_is_its_text(
    data: Map<Seq<char>, JsonView>,
    column: &'static str,
    s: Seq<char>,
)
    ensures
        key_of(data, List::More(Box::new(List::Nil), column)) == Some(s) <==> data.dom().contains(
            column@,
        ) && data[column@] == JsonView::Str(s),
{
    reveal_with_fuel(key_of, 2);
}

/// A key of several columns is the key of those before the last, a slash, and
/// the text in the last.
pub proof fn keys_are_joined_with_slashes(
    data: Map<Seq<char>, JsonView>,
    first: &'static str,
    last: &'static str,
    s: Seq<char>,
    t: Seq<char>,
)
    requires
        data.dom().contains(first@),
        data[first@] == JsonView::Str(s),
        data.dom().contains(last@),
        data[last@] == JsonView::Str(t),
    ensures
        key_of(
            data,
            List::More(Box::new(List::More(Box::new(List::Nil), first)), last),
        ) == Some(s.push('/') + t),
{
    reveal_with_fuel(key_of, 3);
    reveal_strlit("/");
    assert(s + "/"@ =~= s.push('/'));
}

/// A column holds integers where every record has one in it, and then each
/// stands where its record does.
pub proof fn every_record_has_its_integer(records: Seq<Record>, column: Seq<char>)
    ensures
        ints_of(records, column) is Some <==> forall|i: int|
            0 <= i < records.len() ==> (#[trigger] records[i]).data@.dom().contains(column)
                && records[i].data@[column] is Int,
        ints_of(records, column) matches Some(ints) ==> ints.len() == records.len() && forall|
            i: int,
        |
            0 <= i < records.len() ==> records[i].data@[column] == JsonView::Int(
                #[trigger] ints[i],
            ),
    decreases records.len(),
{
    if records.len() > 0 {
        let before = records.drop_last();
        every_record_has_its_integer(before, column);
        if ints_of(records, column) is Some {
            assert forall|i: int| 0 <= i < records.len() implies (
            #[trigger] records[i]).data@.dom().contains(column) && records[i].data@[column] is Int by {
                if i < before.len() {
                    assert(before[i] == records[i]);
                }
            }
            let ints = ints_of(records, column)->0;
            assert forall|i: int| 0 <= i < records.len() implies records[i].data@[column]
                == JsonView::Int(#[trigger] ints[i]) by {
                if i < before.len() {
                    assert(before[i] == records[i]);
                    assert(ints_of(before, column)->0[i] == ints[i]);
                }
            }
        } else if forall|i: int|
            0 <= i < records.len() ==> (#[trigger] records[i]).data@.dom().contains(column)
                && records[i].data@[column] is Int {
            assert forall|i: int| 0 <= i < before.len() implies (
            #[trigger] before[i]).data@.dom().contains(column) && before[i].data@[column] is Int by {
                assert(before[i] == records[i]);
            }
            assert(records.last() == records[records.len() - 1]);
        }
    }
}

proof fn lemma_keys_add(a: Seq<Record>, b: Seq<Record>, columns: List<&'static str>)
    requires
        keys_of(a, columns) is Some,
        keys_of(b, columns) is Some,
    ensures
        keys_of(a + b, columns) == Some(keys_of(a, columns)->0 + keys_of(b, columns)->0),
    decreases b.len(),
{
    if b.len() == 0 {
        assert(a + b =~= a);
        assert(keys_of(a, columns)->0 + keys_of(b, columns)->0 =~= keys_of(a, columns)->0);
    } else {
        lemma_keys_add(a, b.drop_last(), columns);
        assert((a + b).drop_last() =~= a + b.drop_last());
        assert(keys_of(a + b, columns)->0 =~= keys_of(a, columns)->0 + keys_of(b, columns)->0);
    }
}

/// The keys of two pages, one gathered after the other, are the keys of the
/// records of both in order; what was gathered before the first page is
/// forgotten.
pub proof fn pages_are_gathered_in_order(
    columns: List<&'static str>,
    values: List<&'static str>,
    count: usize,
    checks: List<ListCheck>,
    first: Vec<Record>,
    next: Vec<Record>,
    start: Kept,
    middle: Kept,
    end: Kept,
)
    requires
        keys_of(first@ + next@, columns) is Some,
        remembers((Expect::Records { checks, gather: Gather::First(columns) }), page(first), start, middle),
        remembers((Expect::Records { checks, gather: Gather::Next(columns) }), page(next), middle, end),
    ensures
        keys_of(first@ + next@, columns) == Some(text::views(end.gathered@)),
        list_meets((ListCheck::Gathered { columns, values }), next@, None, middle)
            <==> ask::name_views(values) == text::views(end.gathered@),
        list_meets((ListCheck::GatheredDistinct { columns, count }), next@, None, middle)
            <==> end.gathered@.len() == count && text::views(end.gathered@).no_duplicates(),
{
    let all = first@ + next@;
    every_record_has_its_key(all, columns);
    every_record_has_its_key(first@, columns);
    every_record_has_its_key(next@, columns);
    assert forall|i: int| 0 <= i < first@.len() implies key_of(
        (#[trigger] first@[i]).data@,
        columns,
    ) is Some by {
        assert(all[i] == first@[i]);
    }
    assert forall|i: int| 0 <= i < next@.len() implies key_of(
        (#[trigger] next@[i]).data@,
        columns,
    ) is Some by {
        assert(all[first@.len() + i] == next@[i]);
    }
    lemma_keys_add(first@, next@, columns);
    let keys = text::views(end.gathered@);
    different_items_are_counted_once(keys);
    assert(keys.len() == end.gathered@.len());
}

/// Different items are counted once each: there are as many as in the set of
/// them, which is all of them only where none occurs twice.
pub proof fn different_items_are_counted_once<T>(s: Seq<T>)
    ensures
        distinct(s) == s.to_set().len(),
        distinct(s) <= s.len(),
        distinct(s) == s.len() <==> s.no_duplicates(),
    decreases s.len(),
{
    if s.len() == 0 {
        assert(s.to_set() =~= Set::empty());
    } else {
        let before = s.drop_last();
        let last = s.last();
        different_items_are_counted_once(before);
        vstd::seq_lib::seq_to_set_is_finite(before);
        assert(s =~= before.push(last));
        assert(s.to_set() =~= before.to_set().insert(last)) by {
            assert forall|x: T| s.to_set().contains(x) == before.to_set().insert(last).contains(
                x,
            ) by {
                if s.contains(x) && x != last {
                    let i = choose|i: int| 0 <= i < s.len() && s[i] == x;
                    assert(before[i] == x);
                }
                if before.contains(x) {
                    let i = choose|i: int| 0 <= i < before.len() && before[i] == x;
                    assert(s[i] == x);
                }
                assert(s[s.len() - 1] == last);
            }
        }
        if s.no_duplicates() {
            assert(!before.contains(last)) by {
                if before.contains(last) {
                    let i = choose|i: int| 0 <= i < before.len() && before[i] == last;
                    assert(s[i] == s[s.len() - 1]);
                }
            }
            assert forall|i: int, j: int|
                0 <= i < before.len() && 0 <= j < before.len() && i != j implies before[i]
                != before[j] by {
                assert(s[i] == before[i] && s[j] == before[j]);
            }
        } else if before.no_duplicates() && !before.contains(last) {
            assert forall|i: int, j: int|
                0 <= i < s.len() && 0 <= j < s.len() && i != j implies s[i] != s[j] by {
                if i < before.len() {
                    assert(before.contains(before[i]));
                }
                if j < before.len() {
                    assert(before.contains(before[j]));
                }
            }
        }
    }
}

/// The admitted of a race are counted only where none of it failed, and each
/// that was admitted counts once.
pub proof fn the_admitted_are_counted(results: Seq<Result<GuardedInsert, DatabaseError>>)
    ensures
        admitted(results) is Some <==> forall|i: int|
            0 <= i < results.len() ==> (#[trigger] results[i]) is Ok,
        admitted(results) matches Some(n) ==> n == results.filter(
            |r: Result<GuardedInsert, DatabaseError>| r matches Ok(GuardedInsert::Inserted(_)),
        ).len(),
    decreases results.len(),
{
    let inserted = |r: Result<GuardedInsert, DatabaseError>|
        r matches Ok(GuardedInsert::Inserted(_));
    reveal(Seq::filter);
    if results.len() > 0 {
        let before = results.drop_last();
        the_admitted_are_counted(before);
        assert(results.filter(inserted).len() == before.filter(inserted).len() + if inserted(
            results.last(),
        ) {
            1nat
        } else {
            0nat
        });
        if admitted(results) is Some {
            assert forall|i: int| 0 <= i < results.len() implies (#[trigger] results[i]) is Ok by {
                if i < before.len() {
                    assert(before[i] == results[i]);
                }
            }
        } else if forall|i: int| 0 <= i < results.len() ==> (#[trigger] results[i]) is Ok {
            assert forall|i: int| 0 <= i < before.len() implies (#[trigger] before[i]) is Ok by {
                assert(before[i] == results[i]);
            }
            assert(results.last() == results[results.len() - 1]);
        }
    }
}

/// A record is as it must be where it meets each of the checks.
pub proof fn every_check_of_a_record_counts(
    checks: List<RecordCheck>,
    record: Record,
    kept: Kept,
)
    ensures
        record_meets_all(checks, record, kept) <==> forall|i: int|
            0 <= i < items(checks).len() ==> record_meets(
                #[trigger] items(checks)[i],
                record,
                kept,
            ),
    decreases checks,
{
    match checks {
        List::Nil => {},
        List::More(rest, check) => {
            every_check_of_a_record_counts(*rest, record, kept);
            let all = items(checks);
            assert(all == items(*rest).push(check));
            assert(all[all.len() - 1] == check);
            assert forall|i: int| 0 <= i < items(*rest).len() implies items(*rest)[i]
                == #[trigger] all[i] by {}
            if forall|i: int| 0 <= i < all.len() ==> record_meets(#[trigger] all[i], record, kept) {
                assert forall|i: int| 0 <= i < items(*rest).len() implies record_meets(
                    #[trigger] items(*rest)[i],
                    record,
                    kept,
                ) by {
                    assert(all[i] == items(*rest)[i]);
                }
            }
        },
    }
}

/// A list of records is as it must be where it meets each of the checks.
pub proof fn every_check_of_a_list_counts(
    checks: List<ListCheck>,
    records: Seq<Record>,
    total: Option<i64>,
    kept: Kept,
)
    ensures
        list_meets_all(checks, records, total, kept) <==> forall|i: int|
            0 <= i < items(checks).len() ==> list_meets(
                #[trigger] items(checks)[i],
                records,
                total,
                kept,
            ),
    decreases checks,
{
    match checks {
        List::Nil => {},
        List::More(rest, check) => {
            every_check_of_a_list_counts(*rest, records, total, kept);
            let all = items(checks);
            assert(all == items(*rest).push(check));
            assert(all[all.len() - 1] == check);
            assert forall|i: int| 0 <= i < items(*rest).len() implies items(*rest)[i]
                == #[trigger] all[i] by {}
            if forall|i: int|
                0 <= i < all.len() ==> list_meets(#[trigger] all[i], records, total, kept) {
                assert forall|i: int| 0 <= i < items(*rest).len() implies list_meets(
                    #[trigger] items(*rest)[i],
                    records,
                    total,
                    kept,
                ) by {
                    assert(all[i] == items(*rest)[i]);
                }
            }
        },
    }
}

/// The effect that is checked is one of the batch, and as it must be.
pub open spec fn effect_is_met(
    check: (usize, Effect),
    outcomes: Seq<WriteOutcome>,
    kept: Kept,
) -> bool {
    check.0 < outcomes.len() && effect_meets(check.1, outcomes[check.0 as int], kept)
}

/// The effects of a batch are as they must be where each that is checked is.
pub proof fn every_check_of_a_batch_counts(
    checks: List<(usize, Effect)>,
    outcomes: Seq<WriteOutcome>,
    kept: Kept,
)
    ensures
        effects_meet(checks, outcomes, kept) <==> forall|i: int|
            0 <= i < items(checks).len() ==> effect_is_met(
                #[trigger] items(checks)[i],
                outcomes,
                kept,
            ),
    decreases checks,
{
    match checks {
        List::Nil => {},
        List::More(rest, check) => {
            every_check_of_a_batch_counts(*rest, outcomes, kept);
            let all = items(checks);
            assert(all == items(*rest).push(check));
            assert(all[all.len() - 1] == check);
            assert forall|i: int| 0 <= i < items(*rest).len() implies items(*rest)[i]
                == #[trigger] all[i] by {}
            if forall|i: int|
                0 <= i < all.len() ==> effect_is_met(#[trigger] all[i], outcomes, kept) {
                assert forall|i: int| 0 <= i < items(*rest).len() implies effect_is_met(
                    #[trigger] items(*rest)[i],
                    outcomes,
                    kept,
                ) by {
                    assert(all[i] == items(*rest)[i]);
                }
            }
        },
    }
}

/// Names are all listed where each of them is.
pub proof fn every_name_is_looked_for(names: List<&'static str>, columns: Seq<Seq<char>>)
    ensures
        lists_all(names, columns) <==> forall|i: int|
            0 <= i < items(names).len() ==> columns.contains((#[trigger] items(names)[i])@),
    decreases names,
{
    match names {
        List::Nil => {},
        List::More(rest, name) => {
            every_name_is_looked_for(*rest, columns);
            let all = items(names);
            assert(all == items(*rest).push(name));
            assert(all[all.len() - 1] == name);
            assert forall|i: int| 0 <= i < items(*rest).len() implies items(*rest)[i]
                == #[trigger] all[i] by {}
            if forall|i: int| 0 <= i < all.len() ==> columns.contains((#[trigger] all[i])@) {
                assert forall|i: int| 0 <= i < items(*rest).len() implies columns.contains(
                    (#[trigger] items(*rest)[i])@,
                ) by {
                    assert(all[i] == items(*rest)[i]);
                }
            }
        },
    }
}

/// A column either is there or is not, and either is a value or is not: of two
/// opposite checks exactly one is met, the second pair where the column is
/// there.
pub proof fn opposite_checks_exclude_each_other(
    value: Datum,
    data: Map<Seq<char>, JsonView>,
    name: Seq<char>,
    kept: Kept,
)
    ensures
        field_meets(FieldCheck::Present, data, name, kept) <==> data.dom().contains(name),
        field_meets(FieldCheck::Absent, data, name, kept) <==> !data.dom().contains(name),
        data.dom().contains(name) ==> (field_meets(FieldCheck::Is(value), data, name, kept)
            <==> !field_meets(FieldCheck::IsNot(value), data, name, kept)),
        !data.dom().contains(name) ==> !field_meets(FieldCheck::Is(value), data, name, kept)
            && !field_meets(FieldCheck::IsNot(value), data, name, kept),
        data.dom().contains(name) && data[name] == ask::datum_view(value) ==> field_meets(
            FieldCheck::Is(value),
            data,
            name,
            kept,
        ),
{
    if data.dom().contains(name) {
        json::values_equal_themselves(data[name]);
    }
}

/// An integer in a column meets the check for that integer and for no other,
/// and a column that meets one holds an integer.
pub proof fn a_column_is_one_integer(
    i: i64,
    j: i64,
    data: Map<Seq<char>, JsonView>,
    name: Seq<char>,
    kept: Kept,
)
    ensures
        field_meets(FieldCheck::Int(i), data, name, kept) && field_meets(
            FieldCheck::Int(j),
            data,
            name,
            kept,
        ) ==> i == j,
        field_meets(FieldCheck::Int(i), data, name, kept) <==> field_meets(
            FieldCheck::Is(Datum::Int(i)),
            data,
            name,
            kept,
        ),
        field_meets(FieldCheck::Integer, data, name, kept) <==> exists|k: i64|
            field_meets(FieldCheck::Int(k), data, name, kept),
        field_meets(FieldCheck::Integer, data, name, kept) ==> !field_meets(
            FieldCheck::Text,
            data,
            name,
            kept,
        ),
{
    if data.dom().contains(name) {
        json::equality_goes_both_ways(data[name], JsonView::Int(i));
        json::values_equal_themselves(JsonView::Int(i));
        if let JsonView::Int(k) = data[name] {
            assert(field_meets(FieldCheck::Int(k), data, name, kept));
        }
    }
}

/// Which of two columns is compared with the other makes no difference.
pub proof fn columns_are_the_same_both_ways(
    a: &'static str,
    b: &'static str,
    data: Map<Seq<char>, JsonView>,
    kept: Kept,
)
    ensures
        field_meets(FieldCheck::SameAs(b), data, a@, kept) == field_meets(
            FieldCheck::SameAs(a),
            data,
            b@,
            kept,
        ),
        field_meets(FieldCheck::SameAs(a), data, a@, kept) == data.dom().contains(a@),
{
    if data.dom().contains(a@) {
        json::values_equal_themselves(data[a@]);
        if data.dom().contains(b@) {
            json::equality_goes_both_ways(data[a@], data[b@]);
        }
    }
}

/// Only a failure meets the check for one, and it meets no other check. Any
/// failure meets the check for any; the kinds exclude each other.
pub proof fn failures_are_judged_by_their_kind(
    expect: Expect,
    fault: Fault,
    answer: Answer,
    error: DatabaseError,
    kept: Kept,
)
    ensures
        !meets(Expect::Fails(fault), Ok(answer), kept),
        meets(expect, Err(error), kept) ==> expect is Fails,
        meets(Expect::Fails(Fault::Any), Err(error), kept),
        meets(Expect::Done, Ok(answer), kept),
        meets(Expect::Fails(Fault::NotFound), Err(error), kept) <==> error is NotFound,
        meets(Expect::Fails(Fault::AlreadyExists), Err(error), kept) <==> error is AlreadyExists,
        meets(Expect::Fails(Fault::InvalidArgument), Err(error), kept) <==> error
            is InvalidArgument,
{
}

/// The answer of a guarded update.
pub open spec fn updated(u: GuardedUpdate) -> Result<Answer, DatabaseError> {
    Ok(Answer::Operation(Outcome::Updated(u)))
}

/// The answer of a guarded insert.
pub open spec fn inserted(i: GuardedInsert) -> Result<Answer, DatabaseError> {
    Ok(Answer::Operation(Outcome::Inserted(i)))
}

/// What a guarded write did meets the one check that says so: the rows that
/// changed, the guard that refused, or that nothing matched.
pub proof fn a_guarded_write_meets_one_check(
    u: GuardedUpdate,
    i: GuardedInsert,
    rows: i64,
    guard: usize,
    kept: Kept,
)
    ensures
        meets(Expect::Updated(rows), updated(u), kept) <==> u == (GuardedUpdate::Updated {
            rows_affected: rows,
        }),
        meets(Expect::UpdateRefused(guard), updated(u), kept) <==> u == (GuardedUpdate::Refused {
            guard,
        }),
        meets(Expect::NoMatch, updated(u), kept) <==> u == GuardedUpdate::NoMatch,
        meets(Expect::InsertRefused(guard), inserted(i), kept) <==> i == (GuardedInsert::Refused {
            guard,
        }),
        meets(Expect::Inserted(List::Nil), inserted(i), kept) <==> i is Inserted,
        !meets(Expect::Inserted(List::Nil), updated(u), kept),
        !meets(Expect::NoMatch, inserted(i), kept),
{
}

/// Counts, existence and lengths are judged by the number or truth that is
/// told.
pub proof fn plain_answers_are_judged_by_what_they_tell(
    n: i64,
    m: i64,
    yes: bool,
    told: bool,
    records: Vec<Record>,
    len: usize,
    columns: Vec<String>,
    kept: Kept,
)
    ensures
        meets(Expect::Count(n), counted(m), kept) <==> n == m,
        meets(Expect::Exists(yes), Ok(Answer::Exists(told)), kept) <==> yes == told,
        list_meets(ListCheck::Len(len), records@, None, kept) <==> records@.len() == len,
        list_meets(ListCheck::Total(n), records@, Some(m), kept) <==> n == m,
        !list_meets(ListCheck::Total(n), records@, None, kept),
        meets(Expect::NoColumns, Ok(Answer::Columns(columns)), kept) <==> columns@.len() == 0,
        !meets(Expect::Count(n), Ok(Answer::Exists(told)), kept),
        !meets(Expect::Exists(yes), counted(m), kept),
{
}

/// A write of a batch meets the check for its own kind only, and then for the
/// rows that it changed.
pub proof fn a_batched_write_meets_its_own_check(n: i64, m: i64, record: Record, kept: Kept)
    ensures
        effect_meets(Effect::Deleted(n), (WriteOutcome::Deleted { rows_affected: m }), kept)
            <==> n == m,
        effect_meets(
            Effect::UpdatedWhere(n),
            (WriteOutcome::UpdatedWhere { rows_affected: m }),
            kept,
        ) <==> n == m,
        effect_meets(
            Effect::DeletedWhere(n),
            (WriteOutcome::DeletedWhere { rows_affected: m }),
            kept,
        ) <==> n == m,
        effect_meets(Effect::Upserted(n), (WriteOutcome::Upserted { rows_affected: m }), kept)
            <==> n == m,
        effect_meets(Effect::NotUpdated, WriteOutcome::Updated(None), kept),
        !effect_meets(Effect::NotUpdated, WriteOutcome::Updated(Some(record)), kept),
        effect_meets(Effect::Created(List::Nil), WriteOutcome::Created(record), kept),
        effect_meets(Effect::Updated(List::Nil), WriteOutcome::Updated(Some(record)), kept),
        !effect_meets(Effect::Updated(List::Nil), WriteOutcome::Updated(None), kept),
        !effect_meets(Effect::Created(List::Nil), WriteOutcome::Updated(Some(record)), kept),
        !effect_meets(Effect::Deleted(n), (WriteOutcome::DeletedWhere { rows_affected: m }), kept),
        !effect_meets(Effect::DeletedWhere(n), (WriteOutcome::Deleted { rows_affected: m }), kept),
{
}

} // verus!
