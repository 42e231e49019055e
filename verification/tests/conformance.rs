use wafer_core::database::conformance::ask::{Act, Kept};
use wafer_core::database::conformance::judge::{
    judge, Answer, Effect, Expect, Fault, FieldCheck, Gather, Keep, ListCheck, RecordCheck,
};
use wafer_core::database::conformance::list::list;
use wafer_core::database::conformance::probe::{crud_table, guarded_table, text, Call, Datum};
use wafer_core::database::conformance::run::{start, Step};
use wafer_core::database::conformance::script::{
    assert_invalid_argument, get, has, probe, Instance, Script,
};
use wafer_core::database::conformance::suite::{run_conformance, run_two_instance_conformance};
use wafer_core::database::exec::ops::{Outcome, Request};
use wafer_core::database::service::{
    DatabaseError, GuardedInsert, GuardedUpdate, Record, RecordList, WriteOutcome,
};
use wafer_core::double::{Double, Within};
use wafer_core::json::{parse, Json};
use wafer_core::row::Row;

fn double(x: f64) -> Double {
    Double { bits: x.to_bits(), text: format!("{x:?}") }
}

type Reply = Result<Answer, DatabaseError>;

fn record(id: &str, data: &[(&str, Json)]) -> Record {
    let mut row = Row::new();
    for (k, v) in data {
        row.insert(k.to_string(), v.clone());
    }
    Record { id: id.into(), data: row }
}

fn page(records: Vec<Record>) -> Reply {
    let total_count = records.len() as i64;
    Ok(Answer::Operation(Outcome::List(RecordList {
        records,
        total_count,
        page: 1,
        page_size: total_count,
    })))
}

fn count(n: i64) -> Reply {
    Ok(Answer::Operation(Outcome::Count(n)))
}

/// Answers the suite for two services as two that see each other would.
fn second_run(stale: bool) -> (Step, Vec<Instance>) {
    let mut made = false;
    let mut asked = vec![];
    let mut step = start(run_two_instance_conformance());
    loop {
        step = match step {
            Step::Ask { on, act, suite } => {
                asked.push(on);
                let seen = made && !(stale && on == Instance::First);
                let rows = if seen { 1 } else { 0 };
                let reply: Reply = match act {
                    Act::Strict(false) | Act::DropTable { .. } => Ok(Answer::Changed),
                    Act::EnsureTable(table) => {
                        assert_eq!(table.name, "conf_shared_late");
                        assert_eq!(table.columns.len(), 8);
                        Ok(Answer::Changed)
                    }
                    Act::Operation(Request::Create { data, .. }) => {
                        made = true;
                        Ok(Answer::Operation(Outcome::Record(Record {
                            id: "late-1".into(),
                            data,
                        })))
                    }
                    Act::Operation(Request::List { .. }) => {
                        page((0..rows).map(|_| record("late-1", &[])).collect())
                    }
                    Act::Operation(Request::Count { .. }) => count(rows),
                    Act::Operation(Request::Sum { .. }) => {
                        Ok(Answer::Operation(Outcome::Sum(Some(double(7.0)))))
                    }
                    other => panic!("{other:?}"),
                };
                suite.resume(reply)
            }
            end => return (end, asked),
        };
    }
}

#[test]
fn two_services_that_see_each_other_pass() {
    let (end, asked) = second_run(false);
    assert!(matches!(end, Step::Passed), "{end:?}");
    assert_eq!(asked.iter().filter(|on| **on == Instance::Second).count(), 5);
}

#[test]
fn a_service_that_remembers_a_missing_table_fails() {
    match second_run(true).0 {
        Step::Failed { what } => {
            assert_eq!(what, "a table another instance created must be visible to list");
        }
        other => panic!("{other:?}"),
    }
}

#[test]
fn a_service_that_does_nothing_fails() {
    let mut step = start(run_conformance());
    let mut probes = 0;
    let what = loop {
        step = match step {
            Step::Ask { suite, .. } => {
                probes += 1;
                suite.resume(Ok(Answer::Changed))
            }
            Step::Failed { what } => break what,
            Step::Passed => panic!("a no-op must not pass"),
        };
    };
    assert_eq!(what, "table must not exist before creation");
    assert_eq!(probes, 3);
}

#[test]
fn the_suite_is_long_and_names_its_tables() {
    let probes = run_conformance().into_items();
    assert!(probes.len() > 350, "{}", probes.len());
    let mut dropped = 0;
    for p in &probes {
        if let Call::DropTable { table } = p.call {
            assert!(table.starts_with("conf_"), "{table}");
            dropped += 1;
        }
    }
    assert!(dropped > 25);
    let long = probes.iter().find_map(|p| match &p.call {
        Call::EnsureTable(shape) if shape.name.len() > 60 => Some(shape.name),
        _ => None,
    });
    assert_eq!(long.unwrap().len(), 63);
    assert_eq!(crud_table("t").name, "t");
    assert_eq!(guarded_table().name, "conf_guarded");
}

fn met(expect: Expect, reply: Reply) -> bool {
    judge(&expect, &reply, &Kept::new())
}

fn one(check: FieldCheck, value: Json) -> bool {
    met(
        Expect::Record { checks: has("c", check), keep: Keep::Nothing },
        Ok(Answer::Operation(Outcome::Record(record("r", &[("c", value)])))),
    )
}

#[test]
fn columns_are_judged() {
    let s = |t: &str| Json::Str(t.into());
    assert!(one(FieldCheck::Is(text("x")), s("x")) && !one(FieldCheck::Is(text("x")), s("y")));
    assert!(one(FieldCheck::IsNot(text("x")), s("y")));
    assert!(one(FieldCheck::Int(3), Json::Int(3)) && !one(FieldCheck::Int(3), s("3")));
    assert!(one(FieldCheck::Integer, Json::Int(3)) && !one(FieldCheck::Integer, Json::Null));
    assert!(one(FieldCheck::Text, s("")) && !one(FieldCheck::Text, Json::Int(1)));
    let near = |whole, half, within| FieldCheck::Near { whole, half, within };
    let json = |t: &str| parse(t).expect("JSON");
    assert!(one(near(30, false, Within::Billionth), Json::Int(30)));
    assert!(!one(near(30, false, Within::Billionth), Json::Int(31)));
    assert!(one(near(30, false, Within::Billionth), json("30.0000000000001")));
    assert!(one(near(2, false, Within::Epsilon), Json::Int(2)));
    assert!(one(near(1, true, Within::Epsilon), json("1.5")));
    assert!(!one(near(1, true, Within::Epsilon), json("1.5000000000000002")));
    assert!(!one(near(1, true, Within::Epsilon), s("1.5")));
    assert!(one(FieldCheck::Stamp, s("2026-01-01T00:00:00+00:00")));
    assert!(!one(FieldCheck::Stamp, s("2026-01-01 00:00:00")));
    assert!(one(FieldCheck::SameAs("c"), s("x")) && !one(FieldCheck::SameAs("d"), s("x")));
    assert!(one(FieldCheck::Present, Json::Null) && !one(FieldCheck::Absent, Json::Null));
    assert!(one(FieldCheck::Starts("2026"), s("2026-01")) && one(FieldCheck::Starts("2026"), Json::Null));
    assert!(!one(FieldCheck::Starts("2026"), s("2025")));
    assert!(one(FieldCheck::Is(Datum::Null), Json::Null));
}

#[test]
fn sums_are_compared_as_doubles() {
    let sum = |x: f64| Ok(Answer::Operation(Outcome::Sum(Some(double(x)))));
    let near = |whole, within| Expect::SumNear { whole, within };
    assert!(met(near(30, Within::Billionth), sum(30.0000000000001)));
    assert!(met(near(140, Within::Billionth), sum(140.000000001)));
    assert!(!met(near(140, Within::Billionth), sum(140.0000000011)));
    assert!(met(near(7, Within::Epsilon), sum(7.0)) && !met(near(7, Within::Epsilon), sum(7.5)));
    assert!(met(near(0, Within::Epsilon), sum(-0.0)));
    assert!(met(near(0, Within::Epsilon), Ok(Answer::Operation(Outcome::Sum(None)))));
    assert!(!met(near(0, Within::Epsilon), sum(f64::NAN)));
}

#[test]
fn zero_is_zero_of_either_sign() {
    let json = |t: &str| parse(t).expect("JSON");
    assert!(json("0.0").same(&json("-0.0")));
    assert!(json("[0.0, {\"a\": -0.0}]").same(&json("[-0.0, {\"a\": 0.0}]")));
    assert!(!json("0.0").same(&json("0")));
    assert!(!json("1.5").same(&json("-1.5")));
    assert!(json("18446744073709551615").same(&json("18446744073709551615")));
    assert!(!json("18446744073709551615").same(&json("18446744073709551614")));
    assert!(!json("18446744073709551615").same(&json("18446744073709551615.0")));
    let zero = Datum::Real {
        text: "0.0",
        display: "0",
        truncated: 0,
        unsigned: None,
        bits: 0,
    };
    assert!(one(FieldCheck::Is(zero), json("-0.0")));
}

fn labelled(labels: &[&str]) -> Reply {
    page(labels.iter().map(|l| record(l, &[("label", Json::Str(l.to_string()))])).collect())
}

fn listed(check: ListCheck, reply: Reply) -> bool {
    met(Expect::Records { checks: list().and(check), gather: Gather::Nothing }, reply)
}

#[test]
fn lists_are_judged() {
    let ab = || labelled(&["a", "b"]);
    assert!(listed(ListCheck::Len(2), ab()) && !listed(ListCheck::Len(1), ab()));
    assert!(listed(ListCheck::Total(2), ab()) && !listed(ListCheck::Total(3), ab()));
    assert!(listed(ListCheck::Ids(list().and("a").and("b")), ab()));
    assert!(!listed(ListCheck::Ids(list().and("b").and("a")), ab()));
    assert!(listed(ListCheck::IdsInAnyOrder(list().and("b").and("a")), ab()));
    assert!(!listed(ListCheck::IdsInAnyOrder(list().and("b").and("c")), ab()));
    let keys = |values| ListCheck::Keys { columns: list().and("label").and("label"), values };
    assert!(listed(keys(list().and("a/a").and("b/b")), ab()));
    assert!(!listed(keys(list().and("a").and("b")), ab()));
    assert!(listed(ListCheck::At(1, list().and(RecordCheck::Id("b"))), ab()));
    assert!(!listed(ListCheck::At(2, list()), ab()));
    let numbers = |ns: &[i64]| {
        page(ns.iter().map(|n| record("r", &[("n", Json::Int(*n))])).collect())
    };
    let wanted = || ListCheck::Ints { column: "n", numbers: list().and(2).and(3) };
    assert!(listed(wanted(), numbers(&[2, 3])) && !listed(wanted(), numbers(&[3, 2])));
    let distinct = ListCheck::DistinctInts { column: "n", count: 2 };
    assert!(listed(distinct, numbers(&[5, 6, 5])));
}

/// Answers three probes with pages of labels.
fn paged(check: ListCheck, pages: [&[&str]; 3]) -> bool {
    let gathering = |gather| {
        probe(
            get("t", "r"),
            Expect::Records { checks: list(), gather },
            "a page",
        )
    };
    let script: Script = list()
        .and(gathering(Gather::First(list().and("label"))))
        .and(gathering(Gather::Next(list().and("label"))))
        .and(probe(
            get("t", "r"),
            Expect::Records { checks: list().and(check), gather: Gather::Nothing },
            "the last page",
        ));
    let mut step = start(script);
    for labels in pages {
        step = match step {
            Step::Ask { suite, .. } => suite.resume(labelled(labels)),
            _ => return false,
        };
    }
    matches!(step, Step::Passed)
}

#[test]
fn pages_are_taken_together() {
    let all = || ListCheck::Gathered {
        columns: list().and("label"),
        values: list().and("a").and("b").and("c"),
    };
    assert!(paged(all(), [&["a"], &["b"], &["c"]]));
    assert!(paged(all(), [&["a", "b"], &[], &["c"]]));
    assert!(!paged(all(), [&["a"], &["c"], &["b"]]));
    let every = || ListCheck::GatheredDistinct { columns: list().and("label"), count: 3 };
    assert!(paged(every(), [&["c"], &["a"], &["b"]]));
    assert!(!paged(every(), [&["c"], &["a"], &["a"]]));
}

#[test]
fn failures_are_judged_by_their_kind() {
    let fails = |fault, e| met(Expect::Fails(fault), Err(e));
    assert!(fails(Fault::NotFound, DatabaseError::NotFound));
    assert!(fails(Fault::AlreadyExists, DatabaseError::AlreadyExists("k".into())));
    assert!(fails(Fault::InvalidArgument, DatabaseError::InvalidArgument("k".into())));
    assert!(fails(Fault::Any, DatabaseError::Internal("k".into())));
    assert!(!fails(Fault::NotFound, DatabaseError::Internal("k".into())));
    assert!(!met(Expect::Fails(Fault::Any), count(1)));
    assert!(!met(Expect::Done, Err(DatabaseError::NotFound)));
    let p = assert_invalid_argument(get("t", "r"), "what");
    assert!(judge(
        &p.expect,
        &Err(DatabaseError::InvalidArgument("x".into())),
        &Kept::new()
    ));
    assert_eq!(p.what, "what");
}

#[test]
fn writes_are_judged() {
    let effects = |effects, outcomes| {
        met(
            Expect::Effects { count: None, effects, keep_id: None },
            Ok(Answer::Batch(outcomes)),
        )
    };
    assert!(effects(
        list().and((0, Effect::Deleted(1))),
        vec![WriteOutcome::Deleted { rows_affected: 1 }]
    ));
    assert!(!effects(list().and((1, Effect::Deleted(1))), vec![]));
    assert!(effects(list().and((0, Effect::NotUpdated)), vec![WriteOutcome::Updated(None)]));
    assert!(effects(
        list().and((0, Effect::Created(list().and(RecordCheck::SomeId)))),
        vec![WriteOutcome::Created(record("x", &[]))]
    ));
    assert!(!effects(
        list().and((0, Effect::Created(list().and(RecordCheck::SomeId)))),
        vec![WriteOutcome::Created(record("", &[]))]
    ));
    let refused = |guard| Ok(Answer::Operation(Outcome::Inserted(GuardedInsert::Refused { guard })));
    assert!(met(Expect::InsertRefused(1), refused(1)) && !met(Expect::InsertRefused(0), refused(1)));
    let updated = |u| Ok(Answer::Operation(Outcome::Updated(u)));
    assert!(met(Expect::NoMatch, updated(GuardedUpdate::NoMatch)));
    assert!(met(Expect::Updated(1), updated(GuardedUpdate::Updated { rows_affected: 1 })));
    assert!(!met(Expect::UpdateRefused(0), updated(GuardedUpdate::NoMatch)));
    let race = |n: usize, refused: usize| {
        let mut all = vec![];
        for _ in 0..n {
            all.push(Ok(GuardedInsert::Inserted(record("x", &[]))));
        }
        for _ in 0..refused {
            all.push(Ok(GuardedInsert::Refused { guard: 0 }));
        }
        Ok(Answer::Race(all))
    };
    assert!(met(Expect::Admitted(3), race(3, 7)) && !met(Expect::Admitted(3), race(4, 6)));
    assert!(!met(Expect::Admitted(0), Ok(Answer::Race(vec![Err(DatabaseError::NotFound)]))));
}
