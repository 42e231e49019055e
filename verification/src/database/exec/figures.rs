//! What the columns of an aggregate amount to.
//!
//! An aggregate column says what is to be made of a group of rows; the column
//! of a grouped query says how it is computed. Each has a meaning of its own
//! over a sequence of rows, and the two agree.

use vstd::prelude::*;

use crate::database::exec::effect;
use crate::database::exec::ops;
use crate::database::exec::ops::{Pending, Plan, Request};
use crate::database::exec::prepare::Need;
use crate::database::filter;
use crate::database::filter::{FilterTree, SortField};
use crate::database::service;
use crate::database::service::{
    AggFunc,
    AggregateColumn,
    AggregateColumnSpec,
    AggregateSpec,
    CaseSum,
    CastType,
    DateBucketGroup,
    GroupBySpec,
    GroupedQueryConfig,
};
use crate::json::JsonView;
use crate::text;

verus! {

/// How a backend reads values.
pub struct Measures {
    /// The number that a value is; none where it is no number.
    pub worth: spec_fn(JsonView) -> Option<int>,
    /// Whether a value is lower than another.
    pub lower: spec_fn(JsonView, JsonView) -> bool,
    /// The day of a time.
    pub day: spec_fn(JsonView) -> JsonView,
    /// Whether conditions hold of a row.
    pub holds: spec_fn(Vec<FilterTree>, Map<Seq<char>, JsonView>) -> bool,
}

/// What an aggregate column amounts to.
pub enum Figure {
    Number(int),
    /// A sum, to be divided by how many values were summed.
    Mean { sum: int, of: int },
    /// The greatest value; null where there is none.
    Greatest(JsonView),
}

/// A figure, with the name under which it is given out and the type that it
/// is given out as.
pub struct Labelled {
    pub name: Seq<char>,
    pub cast: Option<CastType>,
    pub figure: Figure,
}

/// The numbers in a column, in the order of the rows.
pub open spec fn numbers(
    m: Measures,
    all: Seq<Map<Seq<char>, JsonView>>,
    field: Seq<char>,
) -> Seq<int>
    decreases all.len(),
{
    if all.len() == 0 {
        Seq::empty()
    } else {
        match (m.worth)(effect::cell(all.last(), field)) {
            Some(n) => numbers(m, all.drop_last(), field).push(n),
            None => numbers(m, all.drop_last(), field),
        }
    }
}

/// What numbers add up to.
pub open spec fn sum(s: Seq<int>) -> int
    decreases s.len(),
{
    if s.len() == 0 {
        0
    } else {
        sum(s.drop_last()) + s.last()
    }
}

/// The greatest value of a column.
pub open spec fn greatest(
    m: Measures,
    all: Seq<Map<Seq<char>, JsonView>>,
    field: Seq<char>,
) -> JsonView
    decreases all.len(),
{
    if all.len() == 0 {
        JsonView::Null
    } else {
        let best = greatest(m, all.drop_last(), field);
        let next = effect::cell(all.last(), field);
        if best is Null || (m.lower)(best, next) {
            next
        } else {
            best
        }
    }
}

/// The rows of which conditions hold.
pub open spec fn held_by(
    m: Measures,
    all: Seq<Map<Seq<char>, JsonView>>,
    when: Vec<FilterTree>,
) -> Seq<Map<Seq<char>, JsonView>> {
    all.filter(|r: Map<Seq<char>, JsonView>| (m.holds)(when, r))
}

/// What an aggregate column asks for: the number of rows; the sum of a column;
/// its average, which is its sum over how many numbers it has; its greatest
/// value; the number of rows of which conditions hold; the sum of a column over
/// those rows.
pub open spec fn wanted(
    m: Measures,
    a: AggregateColumnSpec,
    all: Seq<Map<Seq<char>, JsonView>>,
) -> Labelled {
    match a {
        AggregateColumnSpec::Count { alias } => Labelled {
            name: alias@,
            cast: None,
            figure: Figure::Number(all.len() as int),
        },
        AggregateColumnSpec::Sum { field, alias, cast_as } => Labelled {
            name: alias@,
            cast: cast_as,
            figure: Figure::Number(sum(numbers(m, all, field@))),
        },
        AggregateColumnSpec::Avg { field, alias, cast_as } => Labelled {
            name: alias@,
            cast: cast_as,
            figure: Figure::Mean {
                sum: sum(numbers(m, all, field@)),
                of: numbers(m, all, field@).len() as int,
            },
        },
        AggregateColumnSpec::Max { field, alias } => Labelled {
            name: alias@,
            cast: None,
            figure: Figure::Greatest(greatest(m, all, field@)),
        },
        AggregateColumnSpec::CaseWhenSum { when, alias } => Labelled {
            name: alias@,
            cast: None,
            figure: Figure::Number(held_by(m, all, when).len() as int),
        },
        AggregateColumnSpec::SumWhere { field, when, alias, cast_as } => Labelled {
            name: alias@,
            cast: cast_as,
            figure: Figure::Number(sum(numbers(m, held_by(m, all, when), field@))),
        },
    }
}

/// The number that a column of a grouped query takes from a row: that of its
/// case, where it has one, else that of its field; a row of which the case's
/// conditions do not hold gives zero.
pub open spec fn taken(
    m: Measures,
    c: AggregateColumn,
    r: Map<Seq<char>, JsonView>,
) -> Option<int> {
    match c.inner {
        Some(CaseSum::One { when }) => if (m.holds)(when, r) {
            Some(1)
        } else {
            Some(0)
        },
        Some(CaseSum::Field { field, when }) => if (m.holds)(when, r) {
            (m.worth)(effect::cell(r, field@))
        } else {
            Some(0)
        },
        None => match c.field {
            Some(field) => (m.worth)(effect::cell(r, field@)),
            None => Some(1),
        },
    }
}

/// The numbers that a column of a grouped query takes from rows.
pub open spec fn all_taken(
    m: Measures,
    c: AggregateColumn,
    all: Seq<Map<Seq<char>, JsonView>>,
) -> Seq<int>
    decreases all.len(),
{
    if all.len() == 0 {
        Seq::empty()
    } else {
        match taken(m, c, all.last()) {
            Some(n) => all_taken(m, c, all.drop_last()).push(n),
            None => all_taken(m, c, all.drop_last()),
        }
    }
}

/// What a column of a grouped query computes over the rows of a group.
pub open spec fn computed(
    m: Measures,
    c: AggregateColumn,
    all: Seq<Map<Seq<char>, JsonView>>,
) -> Labelled {
    Labelled {
        name: c.alias@,
        cast: c.cast_as,
        figure: match c.func {
            AggFunc::Count => Figure::Number(all_taken(m, c, all).len() as int),
            AggFunc::Sum => Figure::Number(sum(all_taken(m, c, all))),
            AggFunc::Avg => Figure::Mean {
                sum: sum(all_taken(m, c, all)),
                of: all_taken(m, c, all).len() as int,
            },
            AggFunc::Max => Figure::Greatest(
                match c.field {
                    Some(field) => greatest(m, all, field@),
                    None => JsonView::Null,
                },
            ),
        },
    }
}

proof fn lemma_ones(m: Measures, c: AggregateColumn, all: Seq<Map<Seq<char>, JsonView>>)
    requires
        c.inner is None,
        c.field is None,
    ensures
        all_taken(m, c, all).len() == all.len(),
    decreases all.len(),
{
    if all.len() > 0 {
        lemma_ones(m, c, all.drop_last());
    }
}

proof fn lemma_field(m: Measures, c: AggregateColumn, all: Seq<Map<Seq<char>, JsonView>>)
    requires
        c.inner is None,
        c.field is Some,
    ensures
        all_taken(m, c, all) == numbers(m, all, c.field->0@),
    decreases all.len(),
{
    if all.len() > 0 {
        lemma_field(m, c, all.drop_last());
    }
}

proof fn lemma_case(m: Measures, c: AggregateColumn, all: Seq<Map<Seq<char>, JsonView>>)
    requires
        c.inner is Some,
    ensures
        match c.inner->0 {
            CaseSum::One { when } => sum(all_taken(m, c, all)) == held_by(m, all, when).len(),
            CaseSum::Field { field, when } => sum(all_taken(m, c, all)) == sum(
                numbers(m, held_by(m, all, when), field@),
            ),
        },
    decreases all.len(),
{
    reveal(Seq::filter);
    if all.len() > 0 {
        let init = all.drop_last();
        lemma_case(m, c, init);
        let before = all_taken(m, c, init);
        if let Some(n) = taken(m, c, all.last()) {
            assert(before.push(n).drop_last() =~= before);
        }
        match c.inner->0 {
            CaseSum::One { .. } => {},
            CaseSum::Field { field, when } => {
                let fewer = held_by(m, init, when);
                if (m.holds)(when, all.last()) {
                    assert(held_by(m, all, when) =~= fewer.push(all.last()));
                    assert(fewer.push(all.last()).drop_last() =~= fewer);
                    if let Some(n) = (m.worth)(effect::cell(all.last(), field@)) {
                        let nums = numbers(m, fewer, field@);
                        assert(nums.push(n).drop_last() =~= nums);
                    }
                }
            },
        }
    }
}

/// The column that a grouped query has for an aggregate column computes, over
/// whatever rows, the figure that is asked for, and gives it out under the same
/// name and as the same type.
pub proof fn an_aggregate_column_computes_what_is_asked(
    m: Measures,
    a: AggregateColumnSpec,
    all: Seq<Map<Seq<char>, JsonView>>,
)
    ensures
        computed(m, a.rendered(), all) == wanted(m, a, all),
{
    let c = a.rendered();
    match a {
        AggregateColumnSpec::Count { .. } => {
            lemma_ones(m, c, all);
        },
        AggregateColumnSpec::Sum { .. } => {
            lemma_field(m, c, all);
        },
        AggregateColumnSpec::Avg { .. } => {
            lemma_field(m, c, all);
        },
        AggregateColumnSpec::Max { .. } => {},
        AggregateColumnSpec::CaseWhenSum { .. } => {
            lemma_case(m, c, all);
        },
        AggregateColumnSpec::SumWhere { .. } => {
            lemma_case(m, c, all);
        },
    }
}

/// Two rows fall into one group: they agree on every term that is grouped by, a
/// plain column by its value, a bucket by the day of its value.
pub open spec fn grouped_together(
    m: Measures,
    terms: Seq<GroupBySpec>,
    x: Map<Seq<char>, JsonView>,
    y: Map<Seq<char>, JsonView>,
) -> bool {
    forall|i: int|
        0 <= i < terms.len() ==> match #[trigger] terms[i] {
            GroupBySpec::Column(c) => effect::cell(x, c@) == effect::cell(y, c@),
            GroupBySpec::DateBucket { field } => (m.day)(effect::cell(x, field@)) == (m.day)(
                effect::cell(y, field@),
            ),
        }
}

/// Two rows fall into one group of a grouped query.
pub open spec fn same_group(
    m: Measures,
    columns: Seq<String>,
    buckets: Seq<DateBucketGroup>,
    x: Map<Seq<char>, JsonView>,
    y: Map<Seq<char>, JsonView>,
) -> bool {
    &&& forall|i: int|
        0 <= i < columns.len() ==> effect::cell(x, (#[trigger] columns[i])@) == effect::cell(
            y,
            columns[i]@,
        )
    &&& forall|i: int|
        0 <= i < buckets.len() ==> (m.day)(effect::cell(x, (#[trigger] buckets[i]).field@)) == (
        m.day)(effect::cell(y, buckets[i].field@))
}

proof fn lemma_groups(
    m: Measures,
    terms: Seq<GroupBySpec>,
    x: Map<Seq<char>, JsonView>,
    y: Map<Seq<char>, JsonView>,
)
    ensures
        same_group(m, service::plain_groups(terms), service::day_groups(terms), x, y)
            <==> grouped_together(m, terms, x, y),
        forall|i: int|
            0 <= i < service::day_groups(terms).len() ==> (#[trigger] service::day_groups(
                terms,
            )[i]).alias == service::day_groups(terms)[i].field,
        service::plain_groups(terms).len() + service::day_groups(terms).len() == terms.len(),
    decreases terms.len(),
{
    if terms.len() > 0 {
        let init = terms.drop_last();
        lemma_groups(m, init, x, y);
        let plain = service::plain_groups(init);
        let days = service::day_groups(init);
        let columns = service::plain_groups(terms);
        let buckets = service::day_groups(terms);
        let last = terms[terms.len() - 1];
        if grouped_together(m, terms, x, y) {
            assert forall|i: int| 0 <= i < init.len() implies match #[trigger] init[i] {
                GroupBySpec::Column(c) => effect::cell(x, c@) == effect::cell(y, c@),
                GroupBySpec::DateBucket { field } => (m.day)(effect::cell(x, field@)) == (m.day)(
                    effect::cell(y, field@),
                ),
            } by {
                assert(init[i] == terms[i]);
            }
            assert(grouped_together(m, init, x, y));
            assert(terms[terms.len() - 1] == last);
        }
        if same_group(m, columns, buckets, x, y) {
            assert forall|i: int| 0 <= i < plain.len() implies effect::cell(
                x,
                (#[trigger] plain[i])@,
            ) == effect::cell(y, plain[i]@) by {
                assert(columns[i] == plain[i]);
            }
            assert forall|i: int| 0 <= i < days.len() implies (m.day)(
                effect::cell(x, (#[trigger] days[i]).field@),
            ) == (m.day)(effect::cell(y, days[i].field@)) by {
                assert(buckets[i] == days[i]);
            }
            assert(same_group(m, plain, days, x, y));
            match last {
                GroupBySpec::Column(c) => {
                    assert(columns[plain.len() as int] == c);
                },
                GroupBySpec::DateBucket { field } => {
                    assert(buckets[days.len() as int].field == field);
                },
            }
            assert forall|i: int| 0 <= i < terms.len() implies match #[trigger] terms[i] {
                GroupBySpec::Column(c) => effect::cell(x, c@) == effect::cell(y, c@),
                GroupBySpec::DateBucket { field } => (m.day)(effect::cell(x, field@)) == (m.day)(
                    effect::cell(y, field@),
                ),
            } by {
                if i < init.len() {
                    assert(init[i] == terms[i]);
                }
            }
        }
    }
}

/// The groups that are given out, of so many.
pub open spec fn given_out(limit: Option<i64>, groups: int) -> int {
    match limit {
        Some(n) => if n < groups {
            n as int
        } else {
            groups
        },
        None => groups,
    }
}

/// The grouped query of an aggregate is over its table and the rows that meet
/// its filters; each of its columns computes the figure that was asked for, in
/// the order in which they were; two rows fall into one group exactly where
/// they agree on every term; a day is given out under the name of its own
/// field; the groups stand in the order asked for, and as many are given out
/// as the limit says, or all of them where it is not above zero.
pub proof fn a_grouped_query_gives_what_is_asked(
    m: Measures,
    query: GroupedQueryConfig,
    table: String,
    aggregate: AggregateSpec,
    all: Seq<Map<Seq<char>, JsonView>>,
    x: Map<Seq<char>, JsonView>,
    y: Map<Seq<char>, JsonView>,
    groups: nat,
)
    requires
        ops::is_grouped(query, table, aggregate),
    ensures
        query.table@ == table@,
        text::views(query.select_columns@) == text::views(aggregate.select_columns@),
        text::views(query.filters@) == text::views(aggregate.filters@),
        query.aggregates@.len() == aggregate.aggregates@.len(),
        forall|i: int|
            0 <= i < aggregate.aggregates@.len() ==> computed(
                m,
                #[trigger] query.aggregates@[i],
                all,
            ) == wanted(m, aggregate.aggregates@[i], all),
        same_group(m, query.group_by@, query.date_buckets@, x, y) <==> grouped_together(
            m,
            aggregate.group_by@,
            x,
            y,
        ),
        query.group_by@.len() + query.date_buckets@.len() == aggregate.group_by@.len(),
        forall|i: int|
            0 <= i < query.date_buckets@.len() ==> (#[trigger] query.date_buckets@[i]).alias@
                == query.date_buckets@[i].field@,
        query.order_by == aggregate.sort,
        aggregate.limit <= 0 ==> given_out(query.limit, groups as int) == groups,
        0 < aggregate.limit <= groups ==> given_out(query.limit, groups as int) == aggregate.limit,
        0 < aggregate.limit && groups <= aggregate.limit ==> given_out(query.limit, groups as int)
            == groups,
{
    assert forall|i: int| 0 <= i < aggregate.aggregates@.len() implies computed(
        m,
        #[trigger] query.aggregates@[i],
        all,
    ) == wanted(m, aggregate.aggregates@[i], all) by {
        an_aggregate_column_computes_what_is_asked(m, aggregate.aggregates@[i], all);
    }
    lemma_groups(m, aggregate.group_by@, x, y);
}

/// A column is needed.
pub open spec fn needed(n: Need, column: Seq<char>) -> bool {
    text::views(n.require@).contains(column)
}

proof fn lemma_aggregate_reads(s: Seq<AggregateColumnSpec>, i: int, c: Seq<char>)
    requires
        0 <= i < s.len(),
        s[i].reads().contains(c),
    ensures
        service::aggregate_reads(s).contains(c),
    decreases s.len(),
{
    let init = s.drop_last();
    let before = service::aggregate_reads(init);
    let own = s.last().reads();
    if i < init.len() {
        lemma_aggregate_reads(init, i, c);
        let k = before.index_of(c);
        assert((before + own)[k] == c);
    } else {
        let k = own.index_of(c);
        assert((before + own)[before.len() + k] == c);
    }
}

proof fn lemma_sort_reads(sort: Seq<SortField>, aliases: Seq<Seq<char>>, i: int)
    requires
        0 <= i < sort.len(),
    ensures
        aliases.contains(sort[i].field@) || ops::sort_reads(sort, aliases).contains(sort[i].field@),
    decreases sort.len(),
{
    let init = sort.drop_last();
    let before = ops::sort_reads(init, aliases);
    let all = ops::sort_reads(sort, aliases);
    if i < init.len() {
        lemma_sort_reads(init, aliases, i);
        if !aliases.contains(sort[i].field@) {
            let k = before.index_of(sort[i].field@);
            assert(all[k] == sort[i].field@);
        }
    } else if !aliases.contains(sort[i].field@) {
        assert(all[before.len() as int] == sort[i].field@);
    }
}

/// An aggregate needs every column that it reads to be there: those selected,
/// those of its figures and of their conditions, those grouped by, and those
/// that groups are sorted by, unless they are names of its figures.
pub proof fn an_aggregate_needs_what_it_reads(
    m: Measures,
    collection: String,
    aggregate: AggregateSpec,
    n: Need,
    pending: Pending,
)
    requires
        ops::plans(Request::Aggregate { collection, aggregate }, Plan::Prepare(n, pending)),
    ensures
        forall|i: int|
            0 <= i < aggregate.select_columns@.len() ==> needed(
                n,
                (#[trigger] aggregate.select_columns@[i])@,
            ),
        forall|i: int|
            0 <= i < aggregate.aggregates@.len() ==> match #[trigger] aggregate.aggregates@[i] {
                AggregateColumnSpec::Count { .. } => true,
                AggregateColumnSpec::Sum { field, .. } => needed(n, field@),
                AggregateColumnSpec::Avg { field, .. } => needed(n, field@),
                AggregateColumnSpec::Max { field, .. } => needed(n, field@),
                AggregateColumnSpec::CaseWhenSum { when, .. } => forall|c: Seq<char>| #[trigger]
                    filter::tree_columns(when@).contains(c) ==> needed(n, c),
                AggregateColumnSpec::SumWhere { field, when, .. } => needed(n, field@) && forall|
                    c: Seq<char>,
                | #[trigger]
                    filter::tree_columns(when@).contains(c) ==> needed(n, c),
            },
        forall|i: int|
            0 <= i < aggregate.group_by@.len() ==> match #[trigger] aggregate.group_by@[i] {
                GroupBySpec::Column(c) => needed(n, c@),
                GroupBySpec::DateBucket { field } => needed(n, field@),
            },
        forall|i: int|
            0 <= i < aggregate.sort@.len() ==> needed(n, (#[trigger] aggregate.sort@[i]).field@)
                || exists|k: int|
                0 <= k < aggregate.aggregates@.len() && wanted(
                    m,
                    #[trigger] aggregate.aggregates@[k],
                    Seq::empty(),
                ).name == aggregate.sort@[i].field@,
{
    let need = text::views(n.require@);
    let selected = text::views(aggregate.select_columns@);
    let figured = service::aggregate_reads(aggregate.aggregates@);
    let grouped = service::group_reads(aggregate.group_by@);
    let filtered = filter::filter_columns(aggregate.filters@);
    let aliases = aggregate.alias_names();
    let sorted = ops::sort_reads(aggregate.sort@, aliases);
    assert(need =~= selected + figured + grouped + filtered + sorted);
    assert forall|i: int| 0 <= i < aggregate.select_columns@.len() implies needed(
        n,
        (#[trigger] aggregate.select_columns@[i])@,
    ) by {
        assert(need[i] == selected[i]);
    }
    assert forall|c: Seq<char>| figured.contains(c) implies #[trigger] needed(n, c) by {
        let k = figured.index_of(c);
        assert(need[selected.len() + k] == c);
    }
    assert forall|i: int| 0 <= i < aggregate.aggregates@.len() implies match
        #[trigger] aggregate.aggregates@[i] {
        AggregateColumnSpec::Count { .. } => true,
        AggregateColumnSpec::Sum { field, .. } => needed(n, field@),
        AggregateColumnSpec::Avg { field, .. } => needed(n, field@),
        AggregateColumnSpec::Max { field, .. } => needed(n, field@),
        AggregateColumnSpec::CaseWhenSum { when, .. } => forall|c: Seq<char>| #[trigger]
            filter::tree_columns(when@).contains(c) ==> needed(n, c),
        AggregateColumnSpec::SumWhere { field, when, .. } => needed(n, field@) && forall|
            c: Seq<char>,
        | #[trigger]
            filter::tree_columns(when@).contains(c) ==> needed(n, c),
    } by {
        let a = aggregate.aggregates@[i];
        assert forall|c: Seq<char>| #[trigger] a.reads().contains(c) implies needed(n, c) by {
            lemma_aggregate_reads(aggregate.aggregates@, i, c);
        }
        match a {
            AggregateColumnSpec::Count { .. } => {},
            AggregateColumnSpec::CaseWhenSum { when, .. } => {
                assert forall|c: Seq<char>| #[trigger]
                    filter::tree_columns(when@).contains(c) implies needed(n, c) by {
                    assert(a.reads().contains(c));
                }
            },
            AggregateColumnSpec::SumWhere { field, when, .. } => {
                assert(a.reads()[0] == field@);
                assert(a.reads().contains(field@));
                assert forall|c: Seq<char>| #[trigger]
                    filter::tree_columns(when@).contains(c) implies needed(n, c) by {
                    let k = filter::tree_columns(when@).index_of(c);
                    assert(a.reads()[1 + k] == c);
                    assert(a.reads().contains(c));
                }
            },
            AggregateColumnSpec::Sum { field, .. } => {
                assert(a.reads()[0] == field@);
                assert(a.reads().contains(field@));
            },
            AggregateColumnSpec::Avg { field, .. } => {
                assert(a.reads()[0] == field@);
                assert(a.reads().contains(field@));
            },
            AggregateColumnSpec::Max { field, .. } => {
                assert(a.reads()[0] == field@);
                assert(a.reads().contains(field@));
            },
        }
    }
    assert forall|i: int| 0 <= i < aggregate.group_by@.len() implies match
        #[trigger] aggregate.group_by@[i] {
        GroupBySpec::Column(c) => needed(n, c@),
        GroupBySpec::DateBucket { field } => needed(n, field@),
    } by {
        assert(need[selected.len() + figured.len() + i] == grouped[i]);
        assert(grouped[i] == aggregate.group_by@[i].reads());
    }
    assert forall|i: int| 0 <= i < aggregate.sort@.len() implies needed(
        n,
        (#[trigger] aggregate.sort@[i]).field@,
    ) || exists|k: int|
        0 <= k < aggregate.aggregates@.len() && wanted(
            m,
            #[trigger] aggregate.aggregates@[k],
            Seq::empty(),
        ).name == aggregate.sort@[i].field@ by {
        let field = aggregate.sort@[i].field@;
        lemma_sort_reads(aggregate.sort@, aliases, i);
        if aliases.contains(field) {
            let k = aliases.index_of(field);
            assert(wanted(m, aggregate.aggregates@[k], Seq::empty()).name == field);
        } else {
            let k = sorted.index_of(field);
            assert(need[selected.len() + figured.len() + grouped.len() + filtered.len() + k]
                == field);
        }
    }
}

} // verus!
