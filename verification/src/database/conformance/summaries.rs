//! What is asked of aggregates.

use vstd::prelude::*;

use crate::database::conformance::judge::{FieldCheck, ListCheck, RecordCheck};
use crate::database::conformance::list::{list, List};
use crate::database::conformance::probe::{
    column, eq, everything, filt, number, pk, row, table, text, where_eq, Group, Key, Measure,
    Summary, Tree,
};
use crate::database::conformance::script::{
    aggregate, create, done, equals, has, int_is, list_of, lists, reset, Script,
};
use crate::database::filter::{ColumnCompareOp, FilterOp};
use crate::database::schema::DataType;
use crate::database::service::CastType;
use crate::double::Within;

verus! {

/// An aggregate of each category, in order.
#[verifier::allow_in_spec]
pub fn by_category(measures: List<Measure>) -> Summary
    returns
        (Summary {
            select: list().and("category"),
            measures,
            filters: list(),
            groups: list().and(Group::Column("category")),
            sort: list().and(Key { field: "category", desc: false }),
        }),
{
    Summary {
        select: list().and("category"),
        measures,
        filters: list(),
        groups: list().and(Group::Column("category")),
        sort: list().and(Key { field: "category", desc: false }),
    }
}

/// A number close to a whole one.
#[verifier::allow_in_spec]
pub fn close(whole: u32, within: Within) -> FieldCheck
    returns
        (FieldCheck::Near { whole, half: false, within }),
{
    FieldCheck::Near { whole, half: false, within }
}

/// The aggregate of a category.
#[verifier::allow_in_spec]
pub fn category_group(category: &'static str, n: i64, total: u32, mean: u32, top: u32) -> List<RecordCheck>
    returns
        has("category", equals(text(category))).having("cnt", int_is(n)).having(
            "total",
            close(total, Within::Billionth),
        ).having("mean", close(mean, Within::Billionth)).having("top", close(top, Within::Billionth)),
{
    has("category", equals(text(category))).having("cnt", int_is(n)).having(
        "total",
        close(total, Within::Billionth),
    ).having("mean", close(mean, Within::Billionth)).having("top", close(top, Within::Billionth))
}

/// Groups are counted, summed, averaged and bounded, counted under a condition,
/// and made by day.
#[verifier::allow_in_spec]
pub fn check_aggregate(s: Script) -> Script
    returns
        ({
            let measures = list().and(Measure::Count { alias: "cnt" }).and(
                Measure::Sum { field: "amount", alias: "total", cast_as: None },
            ).and(Measure::Avg { field: "amount", alias: "mean", cast_as: None }).and(
                Measure::Max { field: "amount", alias: "top" },
            );
            let s = s.and(
                lists(
                    aggregate("conf_read", by_category(measures)),
                    list().and(ListCheck::Len(3)).and(
                        ListCheck::At(0, category_group("x", 2, 30, 15, 20)),
                    ).and(ListCheck::At(1, category_group("y", 2, 10, 5, 5))).and(
                        ListCheck::At(2, category_group("z", 1, 100, 100, 100)),
                    ),
                    "three category groups",
                ),
            );
            let high = Tree::Leaf(filt("score", FilterOp::GreaterEqual, number(20)));
            let measures = list().and(Measure::Count { alias: "cnt" }).and(
                Measure::CountWhere { when: list().and(high), alias: "big" },
            );
            let s = s.and(
                lists(
                    aggregate("conf_read", by_category(measures)),
                    list().and(ListCheck::At(0, has("big", int_is(1)))).and(
                        ListCheck::At(1, has("big", int_is(0))),
                    ).and(ListCheck::At(2, has("big", int_is(1)))),
                    "x and z have one score >= 20, y has none",
                ),
            );
            let by_day = Summary {
                select: list(),
                measures: list().and(Measure::Count { alias: "cnt" }),
                filters: list(),
                groups: list().and(Group::Day("created_at")),
                sort: list().and(Key { field: "created_at", desc: false }),
            };
            let counted = ListCheck::Ints { column: "cnt", numbers: list().and(2).and(3) };
            let first = has("created_at", FieldCheck::Starts("2026-01-15"));
            s.and(
                lists(
                    aggregate("conf_read", by_day),
                    list().and(ListCheck::Len(2)).and(counted).and(ListCheck::At(0, first)),
                    "2 rows on the 15th, 3 on the 16th",
                ),
            )
        }),
{
    let measures = list().and(Measure::Count { alias: "cnt" }).and(
        Measure::Sum { field: "amount", alias: "total", cast_as: None },
    ).and(Measure::Avg { field: "amount", alias: "mean", cast_as: None }).and(
        Measure::Max { field: "amount", alias: "top" },
    );
    let s = s.and(
        lists(
            aggregate("conf_read", by_category(measures)),
            list().and(ListCheck::Len(3)).and(
                ListCheck::At(0, category_group("x", 2, 30, 15, 20)),
            ).and(ListCheck::At(1, category_group("y", 2, 10, 5, 5))).and(
                ListCheck::At(2, category_group("z", 1, 100, 100, 100)),
            ),
            "three category groups",
        ),
    );
    let high = Tree::Leaf(filt("score", FilterOp::GreaterEqual, number(20)));
    let measures = list().and(Measure::Count { alias: "cnt" }).and(
        Measure::CountWhere { when: list().and(high), alias: "big" },
    );
    let s = s.and(
        lists(
            aggregate("conf_read", by_category(measures)),
            list().and(ListCheck::At(0, has("big", int_is(1)))).and(
                ListCheck::At(1, has("big", int_is(0))),
            ).and(ListCheck::At(2, has("big", int_is(1)))),
            "x and z have one score >= 20, y has none",
        ),
    );
    let by_day = Summary {
        select: list(),
        measures: list().and(Measure::Count { alias: "cnt" }),
        filters: list(),
        groups: list().and(Group::Day("created_at")),
        sort: list().and(Key { field: "created_at", desc: false }),
    };
    let counted = ListCheck::Ints { column: "cnt", numbers: list().and(2).and(3) };
    let first = has("created_at", FieldCheck::Starts("2026-01-15"));
    s.and(
        lists(
            aggregate("conf_read", by_day),
            list().and(ListCheck::Len(2)).and(counted).and(ListCheck::At(0, first)),
            "2 rows on the 15th, 3 on the 16th",
        ),
    )
}

/// An order of an account.
#[verifier::allow_in_spec]
pub fn seed_money(s: Script, id: &'static str, account: &'static str, total: i64, refunded: i64) -> Script
    returns
        s.and(
            done(
                create(
                    "conf_money",
                    row().with("id", text(id)).with("account", text(account)).with(
                        "total_cents",
                        number(total),
                    ).with("refunded_cents", number(refunded)),
                ),
                "seed conf_money",
            ),
        ),
{
    s.and(
        done(
            create(
                "conf_money",
                row().with("id", text(id)).with("account", text(account)).with(
                    "total_cents",
                    number(total),
                ).with("refunded_cents", number(refunded)),
            ),
            "seed conf_money",
        ),
    )
}

/// What was refunded compared with the total.
#[verifier::allow_in_spec]
pub fn refunds(operator: ColumnCompareOp) -> Tree
    returns
        (Tree::Columns { field: "refunded_cents", operator, column: "total_cents" }),
{
    Tree::Columns { field: "refunded_cents", operator, column: "total_cents" }
}

/// The refunds on orders that have one.
#[verifier::allow_in_spec]
pub fn refunded() -> Measure
    returns
        (Measure::SumWhere {
            field: "refunded_cents",
            when: list().and(
                Tree::Leaf(filt("refunded_cents", FilterOp::GreaterThan, number(0))),
            ),
            alias: "refunded",
            cast_as: Some(CastType::BigInt),
        }),
{
    Measure::SumWhere {
        field: "refunded_cents",
        when: list().and(
            Tree::Leaf(filt("refunded_cents", FilterOp::GreaterThan, number(0))),
        ),
        alias: "refunded",
        cast_as: Some(CastType::BigInt),
    }
}

/// The orders with more refunded than their total.
#[verifier::allow_in_spec]
pub fn over_refunded_orders() -> Measure
    returns
        (Measure::CountWhere {
            when: list().and(refunds(ColumnCompareOp::GreaterThan)),
            alias: "over_refunded_orders",
        }),
{
    Measure::CountWhere {
        when: list().and(refunds(ColumnCompareOp::GreaterThan)),
        alias: "over_refunded_orders",
    }
}

/// Sums and counts of money, cast to integers, and a mean.
#[verifier::allow_in_spec]
pub fn money_measures() -> List<Measure>
    returns
        ({
            let gross = Measure::Sum {
                field: "total_cents",
                alias: "gross",
                cast_as: Some(CastType::BigInt),
            };
            let over = Measure::SumWhere {
                field: "total_cents",
                when: list().and(refunds(ColumnCompareOp::GreaterThan)),
                alias: "over_refunded_total",
                cast_as: Some(CastType::BigInt),
            };
            let mean = Measure::Avg {
                field: "total_cents",
                alias: "mean",
                cast_as: Some(CastType::Double),
            };
            list().and(gross).and(refunded()).and(over).and(over_refunded_orders()).and(mean)
        }),
{
    let gross = Measure::Sum {
        field: "total_cents",
        alias: "gross",
        cast_as: Some(CastType::BigInt),
    };
    let over = Measure::SumWhere {
        field: "total_cents",
        when: list().and(refunds(ColumnCompareOp::GreaterThan)),
        alias: "over_refunded_total",
        cast_as: Some(CastType::BigInt),
    };
    let mean = Measure::Avg {
        field: "total_cents",
        alias: "mean",
        cast_as: Some(CastType::Double),
    };
    list().and(gross).and(refunded()).and(over).and(over_refunded_orders()).and(mean)
}

/// The aggregate of an account.
#[verifier::allow_in_spec]
pub fn account_group(
    account: &'static str,
    gross: i64,
    refunded: i64,
    over_total: i64,
    over_orders: i64,
    mean: u32,
) -> List<RecordCheck>
    returns
        has("account", equals(text(account))).having("gross", int_is(gross)).having(
            "refunded",
            int_is(refunded),
        ).having("over_refunded_total", int_is(over_total)).having(
            "over_refunded_orders",
            int_is(over_orders),
        ).having("mean", close(mean, Within::Millionth)),
{
    has("account", equals(text(account))).having("gross", int_is(gross)).having(
        "refunded",
        int_is(refunded),
    ).having("over_refunded_total", int_is(over_total)).having(
        "over_refunded_orders",
        int_is(over_orders),
    ).having("mean", close(mean, Within::Millionth))
}

/// Money in large integers keeps its type where it is summed, and two columns are
/// compared with each other.
#[verifier::allow_in_spec]
pub fn check_aggregate_money(s: Script) -> Script
    returns
        ({
            let shape = table(
                "conf_money",
                list().and(pk("id")).and(column("account", DataType::Text)).and(
                    column("total_cents", DataType::Int64),
                ).and(column("refunded_cents", DataType::Int64)),
            );
            let s = reset(s, shape);
            let s = seed_money(s, "o1", "a", 1000, 0);
            let s = seed_money(s, "o2", "a", 2000, 2500);
            let s = seed_money(s, "o3", "b", 3_000_000_000, 3_000_000_000);
            let by_account = Summary {
                select: list().and("account"),
                measures: money_measures(),
                filters: list(),
                groups: list().and(Group::Column("account")),
                sort: list().and(Key { field: "account", desc: false }),
            };
            let a = account_group("a", 3000, 2500, 2000, 1, 1500);
            let b = account_group("b", 3_000_000_000, 3_000_000_000, 0, 0, 3_000_000_000);
            let s = s.and(
                lists(
                    aggregate("conf_money", by_account),
                    list().and(ListCheck::Len(2)).and(ListCheck::At(0, a)).and(ListCheck::At(1, b)),
                    "two account groups",
                ),
            );
            let of_nobody = Summary {
                select: list(),
                measures: list().and(refunded()).and(over_refunded_orders()),
                filters: where_eq("account", text("nobody")),
                groups: list(),
                sort: list(),
            };
            let zeros = has("refunded", int_is(0)).having("over_refunded_orders", int_is(0));
            let s = s.and(
                lists(
                    aggregate("conf_money", of_nobody),
                    list().and(ListCheck::Len(1)).and(ListCheck::At(0, zeros)),
                    "an ungrouped aggregate over no rows is one row",
                ),
            );
            let s = s.and(
                lists(
                    list_of(
                        "conf_money",
                        everything().within(refunds(ColumnCompareOp::GreaterEqual)).sorted("id", false),
                    ),
                    list().and(ListCheck::Ids(list().and("o2").and("o3"))).and(ListCheck::Total(2)),
                    "refunded >= total",
                ),
            );
            let group = Tree::Any(
                Box::new(
                    list().and(refunds(ColumnCompareOp::LessThan)).and(
                        Tree::Leaf(eq("account", text("b"))),
                    ),
                ),
            );
            s.and(
                lists(
                    list_of("conf_money", everything().within(group).sorted("id", false)),
                    list().and(ListCheck::Ids(list().and("o1").and("o3"))),
                    "refunded < total OR account = b",
                ),
            )
        }),
{
    let shape = table(
        "conf_money",
        list().and(pk("id")).and(column("account", DataType::Text)).and(
            column("total_cents", DataType::Int64),
        ).and(column("refunded_cents", DataType::Int64)),
    );
    let s = reset(s, shape);
    let s = seed_money(s, "o1", "a", 1000, 0);
    let s = seed_money(s, "o2", "a", 2000, 2500);
    let s = seed_money(s, "o3", "b", 3_000_000_000, 3_000_000_000);
    let by_account = Summary {
        select: list().and("account"),
        measures: money_measures(),
        filters: list(),
        groups: list().and(Group::Column("account")),
        sort: list().and(Key { field: "account", desc: false }),
    };
    let a = account_group("a", 3000, 2500, 2000, 1, 1500);
    let b = account_group("b", 3_000_000_000, 3_000_000_000, 0, 0, 3_000_000_000);
    let s = s.and(
        lists(
            aggregate("conf_money", by_account),
            list().and(ListCheck::Len(2)).and(ListCheck::At(0, a)).and(ListCheck::At(1, b)),
            "two account groups",
        ),
    );
    let of_nobody = Summary {
        select: list(),
        measures: list().and(refunded()).and(over_refunded_orders()),
        filters: where_eq("account", text("nobody")),
        groups: list(),
        sort: list(),
    };
    let zeros = has("refunded", int_is(0)).having("over_refunded_orders", int_is(0));
    let s = s.and(
        lists(
            aggregate("conf_money", of_nobody),
            list().and(ListCheck::Len(1)).and(ListCheck::At(0, zeros)),
            "an ungrouped aggregate over no rows is one row",
        ),
    );
    let s = s.and(
        lists(
            list_of(
                "conf_money",
                everything().within(refunds(ColumnCompareOp::GreaterEqual)).sorted("id", false),
            ),
            list().and(ListCheck::Ids(list().and("o2").and("o3"))).and(ListCheck::Total(2)),
            "refunded >= total",
        ),
    );
    let group = Tree::Any(
        Box::new(
            list().and(refunds(ColumnCompareOp::LessThan)).and(
                Tree::Leaf(eq("account", text("b"))),
            ),
        ),
    );
    s.and(
        lists(
            list_of("conf_money", everything().within(group).sorted("id", false)),
            list().and(ListCheck::Ids(list().and("o1").and("o3"))),
            "refunded < total OR account = b",
        ),
    )
}

} // verus!
