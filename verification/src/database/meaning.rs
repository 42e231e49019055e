//! What requests mean, and that they keep it.
//!
//! A condition means what it says of rows. It is converted, on its way from a
//! request to the service, to another form; that form says the same of every
//! row. So does every other part of a request, and the call that the service
//! gets in the end is the one that the request asks for.

use vstd::prelude::*;

use crate::database::convert;
use crate::database::exec::effect;
use crate::database::exec::figures;
use crate::database::exec::figures::{Figure, Labelled, Measures};
use crate::database::exec::ops::{Outcome, Request};
use crate::database::filter;
use crate::database::filter::{
    ColumnCompareOp, Filter, FilterNode, FilterOp, FilterTree, FilterView, SortField, SortFieldDef,
};
use crate::database::handler;
use crate::database::handler::{
    Ask, Form, Incoming, Insert, Response, Rules, Served, ServiceCall, Step, Told, Waiting,
};
use crate::database::service::{
    AggregateColumnSpec, AggregateSpec, CapGuard, CastType, GroupBySpec, UpsertConflict, UpsertSpec,
    WriteOp,
};
use crate::database::wire::{
    AccessedWrite, AggregateColumnDef, AggregateRequest, BatchWrite, CapGuardDef, CastName,
    GroupByDef, OnConflict, UpsertRequest, WireRequest,
};
use crate::handler_util::Body;
use crate::ident;
use crate::json;
use crate::json::JsonView;
use crate::text;

verus! {

/// How values compare.
pub struct Comparing {
    pub equal: spec_fn(JsonView, JsonView) -> bool,
    pub lower: spec_fn(JsonView, JsonView) -> bool,
    pub like: spec_fn(JsonView, JsonView) -> bool,
    pub within: spec_fn(JsonView, JsonView) -> bool,
}

/// Whether `x` compares with `y` as an operator says.
pub open spec fn compares(k: Comparing, op: FilterOp, x: JsonView, y: JsonView) -> bool {
    match op {
        FilterOp::Equal => (k.equal)(x, y),
        FilterOp::NotEqual => !(k.equal)(x, y),
        FilterOp::GreaterThan => (k.lower)(y, x),
        FilterOp::GreaterEqual => !(k.lower)(x, y),
        FilterOp::LessThan => (k.lower)(x, y),
        FilterOp::LessEqual => !(k.lower)(y, x),
        FilterOp::Like => (k.like)(x, y),
        FilterOp::In => (k.within)(x, y),
        FilterOp::IsNull => x is Null,
        FilterOp::IsNotNull => !(x is Null),
    }
}

/// Whether the value `x` of one column compares with the value `y` of another.
pub open spec fn compares_columns(
    k: Comparing,
    op: ColumnCompareOp,
    x: JsonView,
    y: JsonView,
) -> bool {
    match op {
        ColumnCompareOp::Equal => (k.equal)(x, y),
        ColumnCompareOp::NotEqual => !(k.equal)(x, y),
        ColumnCompareOp::GreaterThan => (k.lower)(y, x),
        ColumnCompareOp::GreaterEqual => !(k.lower)(x, y),
        ColumnCompareOp::LessThan => (k.lower)(x, y),
        ColumnCompareOp::LessEqual => !(k.lower)(y, x),
    }
}

/// A filter holds of a row.
pub open spec fn filter_holds(
    k: Comparing,
    f: FilterView,
    row: Map<Seq<char>, JsonView>,
) -> bool {
    compares(k, f.operator, effect::cell(row, f.field), f.value)
}

/// All filters hold of a row.
pub open spec fn filters_hold(
    k: Comparing,
    filters: Seq<Filter>,
    row: Map<Seq<char>, JsonView>,
) -> bool {
    forall|i: int| 0 <= i < filters.len() ==> filter_holds(k, (#[trigger] filters[i])@, row)
}

/// A node of a request's forest holds of a row: a comparison with a value, or
/// with another column of the row; all of its children; or one of them.
pub open spec fn node_holds(
    k: Comparing,
    node: FilterNode,
    row: Map<Seq<char>, JsonView>,
) -> bool
    decreases node,
{
    match node {
        FilterNode::Leaf(f) => compares(
            k,
            f.operator.parsed->Ok_0,
            effect::cell(row, f.field@),
            match f.column {
                None => f.value@,
                Some(column) => effect::cell(row, column@),
            },
        ),
        FilterNode::All { all } => forall|i: int|
            0 <= i < all@.len() ==> node_holds(k, #[trigger] all@[i], row),
        FilterNode::Any { any } => exists|i: int|
            0 <= i < any@.len() && node_holds(k, #[trigger] any@[i], row),
    }
}

/// All nodes of a forest hold of a row.
pub open spec fn nodes_hold(
    k: Comparing,
    nodes: Seq<FilterNode>,
    row: Map<Seq<char>, JsonView>,
) -> bool {
    forall|i: int| 0 <= i < nodes.len() ==> node_holds(k, #[trigger] nodes[i], row)
}

/// A condition holds of a row.
pub open spec fn tree_holds(
    k: Comparing,
    tree: FilterTree,
    row: Map<Seq<char>, JsonView>,
) -> bool
    decreases tree,
{
    match tree {
        FilterTree::Leaf(f) => filter_holds(k, f@, row),
        FilterTree::ColumnCompare(f) => compares_columns(
            k,
            f.operator,
            effect::cell(row, f.field@),
            effect::cell(row, f.column@),
        ),
        FilterTree::All(s) => forall|i: int|
            0 <= i < s@.len() ==> tree_holds(k, #[trigger] s@[i], row),
        FilterTree::Any(s) => exists|i: int|
            0 <= i < s@.len() && tree_holds(k, #[trigger] s@[i], row),
    }
}

/// All conditions hold of a row.
pub open spec fn trees_hold(
    k: Comparing,
    trees: Seq<FilterTree>,
    row: Map<Seq<char>, JsonView>,
) -> bool {
    forall|i: int| 0 <= i < trees.len() ==> tree_holds(k, #[trigger] trees[i], row)
}

proof fn lemma_sound_at(nodes: Seq<FilterNode>, i: int)
    requires
        filter::sound(nodes),
        0 <= i < nodes.len(),
    ensures
        filter::sound_node(nodes[i]),
    decreases nodes.len(),
{
    if i < nodes.len() - 1 {
        lemma_sound_at(nodes.drop_last(), i);
        assert(nodes.drop_last()[i] == nodes[i]);
    }
}

proof fn lemma_node(
    k: Comparing,
    node: FilterNode,
    tree: FilterTree,
    row: Map<Seq<char>, JsonView>,
)
    requires
        filter::converts(node, tree),
        filter::sound_node(node),
    ensures
        node_holds(k, node, row) <==> tree_holds(k, tree, row),
    decreases node,
{
    match (node, tree) {
        (FilterNode::All { all }, FilterTree::All(s)) => {
            assert forall|i: int| 0 <= i < all@.len() implies node_holds(
                k,
                #[trigger] all@[i],
                row,
            ) == tree_holds(k, s@[i], row) by {
                lemma_sound_at(all@, i);
                assert(decreases_to!(node => all));
                assert(decreases_to!(all => all@));
                assert(decreases_to!(all@ => all@[i]));
                lemma_node(k, all@[i], s@[i], row);
            }
            if tree_holds(k, tree, row) {
                assert forall|i: int| 0 <= i < all@.len() implies node_holds(
                    k,
                    #[trigger] all@[i],
                    row,
                ) by {
                    assert(tree_holds(k, s@[i], row));
                }
            }
            if node_holds(k, node, row) {
                assert forall|i: int| 0 <= i < s@.len() implies tree_holds(
                    k,
                    #[trigger] s@[i],
                    row,
                ) by {
                    assert(node_holds(k, all@[i], row));
                }
            }
        },
        (FilterNode::Any { any }, FilterTree::Any(s)) => {
            assert forall|i: int| 0 <= i < any@.len() implies node_holds(
                k,
                #[trigger] any@[i],
                row,
            ) == tree_holds(k, s@[i], row) by {
                lemma_sound_at(any@, i);
                assert(decreases_to!(node => any));
                assert(decreases_to!(any => any@));
                assert(decreases_to!(any@ => any@[i]));
                lemma_node(k, any@[i], s@[i], row);
            }
            if node_holds(k, node, row) {
                let i = choose|i: int|
                    0 <= i < any@.len() && node_holds(k, #[trigger] any@[i], row);
                assert(tree_holds(k, s@[i], row));
            }
            if tree_holds(k, tree, row) {
                let i = choose|i: int| 0 <= i < s@.len() && tree_holds(k, #[trigger] s@[i], row);
                assert(node_holds(k, any@[i], row));
            }
        },
        _ => {},
    }
}

/// A forest that is accepted says of every row what the conditions say that it
/// is converted to.
pub proof fn converted_conditions_say_the_same(
    k: Comparing,
    nodes: Seq<FilterNode>,
    trees: Seq<FilterTree>,
    row: Map<Seq<char>, JsonView>,
)
    requires
        filter::walk(nodes, 1, 0) is Ok,
        filter::all_convert(nodes, trees),
    ensures
        nodes_hold(k, nodes, row) <==> trees_hold(k, trees, row),
{
    filter::accepted_within_bounds(nodes);
    assert forall|i: int| 0 <= i < nodes.len() implies node_holds(k, #[trigger] nodes[i], row)
        == tree_holds(k, trees[i], row) by {
        lemma_sound_at(nodes, i);
        lemma_node(k, nodes[i], trees[i], row);
    }
    if nodes_hold(k, nodes, row) {
        assert forall|i: int| 0 <= i < trees.len() implies tree_holds(
            k,
            #[trigger] trees[i],
            row,
        ) by {
            assert(node_holds(k, nodes[i], row));
        }
    }
    if trees_hold(k, trees, row) {
        assert forall|i: int| 0 <= i < nodes.len() implies node_holds(
            k,
            #[trigger] nodes[i],
            row,
        ) by {
            assert(tree_holds(k, trees[i], row));
        }
    }
}

proof fn lemma_flat_at(nodes: Seq<FilterNode>, i: int)
    requires
        filter::first_node_unflat(nodes) is None,
        0 <= i < nodes.len(),
    ensures
        filter::node_unflat(nodes[i]) is None,
    decreases nodes.len(),
{
    if i < nodes.len() - 1 {
        lemma_flat_at(nodes.drop_last(), i);
    }
}

/// A forest that is accepted as a flat list of filters says of every row what
/// those filters say.
pub proof fn converted_filters_say_the_same(
    k: Comparing,
    nodes: Seq<FilterNode>,
    filters: Seq<Filter>,
    row: Map<Seq<char>, JsonView>,
)
    requires
        filter::filters_refusal(nodes) is None,
        filter::filters_of(nodes, filters),
    ensures
        nodes_hold(k, nodes, row) <==> filters_hold(k, filters, row),
{
    assert forall|i: int| 0 <= i < nodes.len() implies node_holds(k, #[trigger] nodes[i], row)
        == filter_holds(k, filters[i]@, row) by {
        lemma_flat_at(nodes, i);
        assert(filter::filter_of(nodes[i], filters[i]));
    }
    if nodes_hold(k, nodes, row) {
        assert forall|i: int| 0 <= i < filters.len() implies filter_holds(
            k,
            (#[trigger] filters[i])@,
            row,
        ) by {
            assert(node_holds(k, nodes[i], row));
        }
    }
    if filters_hold(k, filters, row) {
        assert forall|i: int| 0 <= i < nodes.len() implies node_holds(
            k,
            #[trigger] nodes[i],
            row,
        ) by {
            assert(filter_holds(k, filters[i]@, row));
        }
    }
}

// ---------------------------------------------------------------------------
// The parts of a request
// ---------------------------------------------------------------------------

/// Nodes and filters say the same of every row.
pub open spec fn filters_alike(k: Comparing, nodes: Seq<FilterNode>, filters: Seq<Filter>) -> bool {
    forall|row: Map<Seq<char>, JsonView>| #[trigger]
        nodes_hold(k, nodes, row) <==> filters_hold(k, filters, row)
}

/// Nodes and conditions say the same of every row.
pub open spec fn trees_alike(k: Comparing, nodes: Seq<FilterNode>, trees: Seq<FilterTree>) -> bool {
    forall|row: Map<Seq<char>, JsonView>| #[trigger]
        nodes_hold(k, nodes, row) <==> trees_hold(k, trees, row)
}

/// Two lists of sort keys order alike.
pub open spec fn sorts_alike(defs: Seq<SortFieldDef>, keys: Seq<SortField>) -> bool {
    defs.len() == keys.len() && forall|i: int|
        0 <= i < defs.len() ==> (#[trigger] defs[i]).field@ == keys[i].field@ && defs[i].desc
            == keys[i].desc
}

/// Two guards cap the same.
pub open spec fn guard_alike(k: Comparing, def: CapGuardDef, guard: CapGuard) -> bool {
    match (def, guard) {
        (
            CapGuardDef::CountBelow { filters: nodes, cap: c },
            CapGuard::CountBelow { filters, cap },
        ) => c == cap && filters_alike(k, nodes@, filters@),
        (
            CapGuardDef::SumAtMost { field: f, filters: nodes, add: a, cap: c },
            CapGuard::SumAtMost { field, filters, add, cap },
        ) => f@ == field@ && a == add && c == cap && filters_alike(k, nodes@, filters@),
        _ => false,
    }
}

/// Two lists of guards cap the same, one by one.
pub open spec fn guards_alike(
    k: Comparing,
    defs: Seq<CapGuardDef>,
    guards: Seq<CapGuard>,
) -> bool {
    defs.len() == guards.len() && forall|i: int|
        0 <= i < defs.len() ==> guard_alike(k, #[trigger] defs[i], guards[i])
}

/// Two upserts write the same row, tell a conflict by the same columns, and
/// resolve it alike.
pub open spec fn upsert_alike(req: UpsertRequest, spec: UpsertSpec) -> bool {
    &&& json::entry_views(req.data@) == json::entry_views(spec.data@)
    &&& text::views(req.conflict_columns@) == text::views(spec.conflict_columns@)
    &&& match (req.on_conflict, spec.on_conflict) {
        (OnConflict::SetColumns(x), UpsertConflict::SetColumns(y)) => text::views(x@)
            == text::views(y@),
        (
            OnConflict::WindowedCounter {
                count_field: a,
                window_field: b,
                now: c,
                window_cutoff: d,
                created_fields: e,
                updated_fields: f,
            },
            UpsertConflict::WindowedCounter {
                count_field,
                window_field,
                now,
                window_cutoff,
                created_fields,
                updated_fields,
            },
        ) => {
            &&& a@ == count_field@
            &&& b@ == window_field@
            &&& c == now
            &&& d == window_cutoff
            &&& text::views(e@) == text::views(created_fields@)
            &&& text::views(f@) == text::views(updated_fields@)
        },
        _ => false,
    }
}

/// The figures are measured by the same comparisons.
pub open spec fn measures_by(m: Measures, k: Comparing) -> bool {
    forall|when: Vec<FilterTree>, row: Map<Seq<char>, JsonView>| #[trigger]
        (m.holds)(when, row) <==> trees_hold(k, when@, row)
}

/// The type that a cast names, where one is named.
pub open spec fn cast_named(c: Option<CastName>) -> Option<CastType> {
    match c {
        Some(name) => name.parsed,
        None => None,
    }
}

/// The rows of which a request's conditions hold.
pub open spec fn rows_where(
    k: Comparing,
    all: Seq<Map<Seq<char>, JsonView>>,
    when: Seq<FilterNode>,
) -> Seq<Map<Seq<char>, JsonView>> {
    all.filter(|row: Map<Seq<char>, JsonView>| nodes_hold(k, when, row))
}

/// What a request's aggregate column asks for.
pub open spec fn requested(
    m: Measures,
    k: Comparing,
    a: AggregateColumnDef,
    all: Seq<Map<Seq<char>, JsonView>>,
) -> Labelled {
    match a {
        AggregateColumnDef::Count { alias } => Labelled {
            name: alias@,
            cast: None,
            figure: Figure::Number(all.len() as int),
        },
        AggregateColumnDef::Sum { field, alias, cast_as } => Labelled {
            name: alias@,
            cast: cast_named(cast_as),
            figure: Figure::Number(figures::sum(figures::numbers(m, all, field@))),
        },
        AggregateColumnDef::Avg { field, alias, cast_as } => Labelled {
            name: alias@,
            cast: cast_named(cast_as),
            figure: Figure::Mean {
                sum: figures::sum(figures::numbers(m, all, field@)),
                of: figures::numbers(m, all, field@).len() as int,
            },
        },
        AggregateColumnDef::Max { field, alias } => Labelled {
            name: alias@,
            cast: None,
            figure: Figure::Greatest(figures::greatest(m, all, field@)),
        },
        AggregateColumnDef::CaseWhenSum { when, alias } => Labelled {
            name: alias@,
            cast: None,
            figure: Figure::Number(rows_where(k, all, when@).len() as int),
        },
        AggregateColumnDef::SumWhere { field, when, alias, cast_as } => Labelled {
            name: alias@,
            cast: cast_named(cast_as),
            figure: Figure::Number(
                figures::sum(figures::numbers(m, rows_where(k, all, when@), field@)),
            ),
        },
    }
}

/// Two rows fall into one group of a request's aggregate.
pub open spec fn requested_together(
    m: Measures,
    terms: Seq<GroupByDef>,
    x: Map<Seq<char>, JsonView>,
    y: Map<Seq<char>, JsonView>,
) -> bool {
    forall|i: int|
        0 <= i < terms.len() ==> match #[trigger] terms[i] {
            GroupByDef::Column(c) => effect::cell(x, c@) == effect::cell(y, c@),
            GroupByDef::DateBucket { field } => (m.day)(effect::cell(x, field@)) == (m.day)(
                effect::cell(y, field@),
            ),
        }
}

/// Two aggregates give the same: figure by figure over whatever rows, and in
/// the same groups, order and number.
pub open spec fn aggregate_alike(
    m: Measures,
    k: Comparing,
    req: AggregateRequest,
    a: AggregateSpec,
) -> bool {
    &&& text::views(req.select_columns@) == text::views(a.select_columns@)
    &&& req.aggregates@.len() == a.aggregates@.len()
    &&& forall|i: int, all: Seq<Map<Seq<char>, JsonView>>|
        0 <= i < req.aggregates@.len() ==> #[trigger] requested(m, k, req.aggregates@[i], all)
            == figures::wanted(m, a.aggregates@[i], all)
    &&& filters_alike(k, req.filters@, a.filters@)
    &&& forall|x: Map<Seq<char>, JsonView>, y: Map<Seq<char>, JsonView>| #[trigger]
        requested_together(m, req.group_by@, x, y) <==> figures::grouped_together(
            m,
            a.group_by@,
            x,
            y,
        )
    &&& sorts_alike(req.sort@, a.sort@)
    &&& req.limit == a.limit
}

proof fn lemma_filters(k: Comparing, nodes: Seq<FilterNode>, filters: Seq<Filter>)
    requires
        filter::filters_refusal(nodes) is None,
        filter::filters_of(nodes, filters),
    ensures
        filters_alike(k, nodes, filters),
{
    assert forall|row: Map<Seq<char>, JsonView>| #[trigger]
        nodes_hold(k, nodes, row) <==> filters_hold(k, filters, row) by {
        converted_filters_say_the_same(k, nodes, filters, row);
    }
}

proof fn lemma_guard_at(defs: Seq<CapGuardDef>, i: int)
    requires
        convert::first_guard_refusal(defs) is None,
        0 <= i < defs.len(),
    ensures
        convert::guard_refusal(defs[i]) is None,
    decreases defs.len(),
{
    if i < defs.len() - 1 {
        lemma_guard_at(defs.drop_last(), i);
    }
}

proof fn lemma_guards(k: Comparing, defs: Seq<CapGuardDef>, guards: Seq<CapGuard>, most: int)
    requires
        convert::guards_refusal(defs, most) is None,
        handler::guards_convert(defs, guards),
    ensures
        guards_alike(k, defs, guards),
{
    assert forall|i: int| 0 <= i < defs.len() implies guard_alike(
        k,
        #[trigger] defs[i],
        guards[i],
    ) by {
        lemma_guard_at(defs, i);
        assert(convert::guard_converts(defs[i], guards[i]));
        match (defs[i], guards[i]) {
            (
                CapGuardDef::CountBelow { filters: nodes, .. },
                CapGuard::CountBelow { filters, .. },
            ) => {
                lemma_filters(k, nodes@, filters@);
            },
            (
                CapGuardDef::SumAtMost { filters: nodes, .. },
                CapGuard::SumAtMost { filters, .. },
            ) => {
                lemma_filters(k, nodes@, filters@);
            },
            _ => {},
        }
    }
}

proof fn lemma_when(
    m: Measures,
    k: Comparing,
    when: Seq<FilterNode>,
    trees: Vec<FilterTree>,
    all: Seq<Map<Seq<char>, JsonView>>,
)
    requires
        measures_by(m, k),
        filter::walk(when, 1, 0) is Ok,
        filter::all_convert(when, trees@),
    ensures
        rows_where(k, all, when) == figures::held_by(m, all, trees),
{
    let x = |row: Map<Seq<char>, JsonView>| nodes_hold(k, when, row);
    let y = |row: Map<Seq<char>, JsonView>| (m.holds)(trees, row);
    assert forall|row: Map<Seq<char>, JsonView>| #[trigger] x(row) == y(row) by {
        converted_conditions_say_the_same(k, when, trees@, row);
    }
    assert(x =~= y);
}

proof fn lemma_column_at(s: Seq<AggregateColumnDef>, i: int)
    requires
        convert::columns_refusal(s) is None,
        0 <= i < s.len(),
    ensures
        convert::column_refusal(s[i]) is None,
    decreases s.len(),
{
    if i < s.len() - 1 {
        lemma_column_at(s.drop_last(), i);
    }
}

/// An aggregate that is accepted is converted to one that gives the same.
pub proof fn converted_aggregates_give_the_same(
    m: Measures,
    k: Comparing,
    req: AggregateRequest,
    a: AggregateSpec,
)
    requires
        measures_by(m, k),
        convert::aggregate_refusal(req) is None,
        convert::aggregate_converts(req, a),
    ensures
        aggregate_alike(m, k, req, a),
{
    lemma_filters(k, req.filters@, a.filters@);
    assert forall|i: int, all: Seq<Map<Seq<char>, JsonView>>|
        0 <= i < req.aggregates@.len() implies #[trigger] requested(m, k, req.aggregates@[i], all)
        == figures::wanted(m, a.aggregates@[i], all) by {
        lemma_column_at(req.aggregates@, i);
        assert(convert::column_converts(req.aggregates@[i], a.aggregates@[i]));
        match (req.aggregates@[i], a.aggregates@[i]) {
            (
                AggregateColumnDef::CaseWhenSum { when, .. },
                AggregateColumnSpec::CaseWhenSum { when: trees, .. },
            ) => {
                lemma_when(m, k, when@, trees, all);
            },
            (
                AggregateColumnDef::SumWhere { when, .. },
                AggregateColumnSpec::SumWhere { when: trees, .. },
            ) => {
                lemma_when(m, k, when@, trees, all);
            },
            _ => {},
        }
    }
    assert forall|x: Map<Seq<char>, JsonView>, y: Map<Seq<char>, JsonView>| #[trigger]
        requested_together(m, req.group_by@, x, y) <==> figures::grouped_together(
            m,
            a.group_by@,
            x,
            y,
        ) by {
        assert forall|i: int| 0 <= i < req.group_by@.len() implies a.group_by@[i]
            == convert::group_of(#[trigger] req.group_by@[i]) by {}
        if requested_together(m, req.group_by@, x, y) {
            assert forall|i: int| 0 <= i < a.group_by@.len() implies match
                #[trigger] a.group_by@[i] {
                GroupBySpec::Column(c) => effect::cell(x, c@) == effect::cell(y, c@),
                GroupBySpec::DateBucket { field } => (m.day)(effect::cell(x, field@)) == (m.day)(
                    effect::cell(y, field@),
                ),
            } by {
                let term = req.group_by@[i];
                assert(a.group_by@[i] == convert::group_of(term));
            }
        }
        if figures::grouped_together(m, a.group_by@, x, y) {
            assert forall|i: int| 0 <= i < req.group_by@.len() implies match
                #[trigger] req.group_by@[i] {
                GroupByDef::Column(c) => effect::cell(x, c@) == effect::cell(y, c@),
                GroupByDef::DateBucket { field } => (m.day)(effect::cell(x, field@)) == (m.day)(
                    effect::cell(y, field@),
                ),
            } by {
                let term = a.group_by@[i];
                assert(term == convert::group_of(req.group_by@[i]));
            }
        }
    }
    assert forall|i: int| 0 <= i < req.sort@.len() implies (#[trigger] req.sort@[i]).field@
        == a.sort@[i].field@ && req.sort@[i].desc == a.sort@[i].desc by {
        assert(a.sort@[i].field == req.sort@[i].field);
    }
}

// ---------------------------------------------------------------------------
// The call that a request asks for
// ---------------------------------------------------------------------------

/// The operation is the one that the request asks for.
pub open spec fn asks_for(m: Measures, k: Comparing, request: WireRequest, q: Request) -> bool {
    match (request, q) {
        (WireRequest::Get { collection: c, id: i }, Request::Get { collection, id }) => c@
            == collection@ && i@ == id@,
        (WireRequest::List(list), Request::List { collection, opts }) => {
            &&& list.collection@ == collection@
            &&& opts.filters@.len() == 0
            &&& opts.filter_tree is Some
            &&& trees_alike(k, list.filters@, opts.filter_tree->0@)
            &&& sorts_alike(list.sort@, opts.sort@)
            &&& list.limit == opts.limit
            &&& list.offset == opts.offset
            &&& list.skip_count == opts.skip_count
            &&& list.columns == opts.columns
        },
        (WireRequest::Create { collection: c, data: d }, Request::Create { collection, data }) => c@
            == collection@ && d == data,
        (
            WireRequest::CreateMany { collection: c, rows: d },
            Request::CreateMany { collection, rows },
        ) => c@ == collection@ && d@ == rows@,
        (
            WireRequest::InsertGuarded { collection: c, data: d, guards: g },
            Request::InsertGuarded { collection, data, guards },
        ) => c@ == collection@ && d == data && guards_alike(k, g@, guards@),
        (
            WireRequest::UpdateGuarded { collection: c, filters: f, data: d, guards: g },
            Request::UpdateGuarded { collection, filters, data, guards },
        ) => c@ == collection@ && filters_alike(k, f@, filters@) && d == data && guards_alike(
            k,
            g@,
            guards@,
        ),
        (
            WireRequest::Update { collection: c, id: i, data: d },
            Request::Update { collection, id, data },
        ) => c@ == collection@ && i@ == id@ && d == data,
        (WireRequest::Delete { collection: c, id: i }, Request::Delete { collection, id }) => c@
            == collection@ && i@ == id@,
        (
            WireRequest::Count { collection: c, filters: f },
            Request::Count { collection, filters },
        ) => c@ == collection@ && filters_alike(k, f@, filters@),
        (
            WireRequest::Sum { collection: c, field: x, filters: f },
            Request::Sum { collection, field, filters },
        ) => c@ == collection@ && x@ == field@ && filters_alike(k, f@, filters@),
        (
            WireRequest::DeleteWhere { collection: c, filters: f },
            Request::DeleteWhere { collection, filters },
        ) => c@ == collection@ && filters_alike(k, f@, filters@),
        (
            WireRequest::DeleteWhereCount { collection: c, filters: f },
            Request::DeleteWhereCount { collection, filters },
        ) => c@ == collection@ && filters_alike(k, f@, filters@),
        (
            WireRequest::TakeWhere { collection: c, filters: f },
            Request::TakeWhere { collection, filters },
        ) => c@ == collection@ && filters_alike(k, f@, filters@),
        (
            WireRequest::UpdateWhere { collection: c, filters: f, data: d },
            Request::UpdateWhere { collection, filters, data },
        ) => c@ == collection@ && filters_alike(k, f@, filters@) && d == data,
        (
            WireRequest::UpdateWhereCount { collection: c, filters: f, data: d },
            Request::UpdateWhereCount { collection, filters, data },
        ) => c@ == collection@ && filters_alike(k, f@, filters@) && d == data,
        (
            WireRequest::IncrementFieldWhere { collection: c, col: x, delta: d, filters: f },
            Request::IncrementFieldWhere { collection, col, delta, filters },
        ) => c@ == collection@ && x@ == col@ && d == delta && filters_alike(k, f@, filters@),
        (WireRequest::Upsert(req), Request::Upsert { collection, upsert }) => req.collection@
            == collection@ && upsert_alike(req, upsert),
        (WireRequest::Aggregate(req), Request::Aggregate { collection, aggregate }) => {
            req.collection@ == collection@ && aggregate_alike(m, k, req, aggregate)
        },
        (WireRequest::QueryRaw { query: s, args: a }, Request::QueryRaw { query, args }) => s@
            == query@ && a == args,
        (WireRequest::ExecRaw { query: s, args: a }, Request::ExecRaw { query, args }) => s@
            == query@ && a == args,
        (WireRequest::Ddl { query: s, args: a }, Request::ExecRaw { query, args }) => s@ == query@
            && a == args,
        _ => false,
    }
}

/// The write is the one that a batch asks for.
pub open spec fn asks_write_for(k: Comparing, w: BatchWrite, op: WriteOp) -> bool {
    match (w, op) {
        (BatchWrite::Create { collection: c, data: d }, WriteOp::Create { collection, data }) => c@
            == collection@ && d == data,
        (
            BatchWrite::Update { collection: c, id: i, data: d },
            WriteOp::Update { collection, id, data },
        ) => c@ == collection@ && i@ == id@ && d == data,
        (BatchWrite::Delete { collection: c, id: i }, WriteOp::Delete { collection, id }) => c@
            == collection@ && i@ == id@,
        (
            BatchWrite::UpdateWhere { collection: c, filters: f, data: d },
            WriteOp::UpdateWhere { collection, filters, data },
        ) => c@ == collection@ && filters_alike(k, f@, filters@) && d == data,
        (
            BatchWrite::DeleteWhere { collection: c, filters: f },
            WriteOp::DeleteWhere { collection, filters },
        ) => c@ == collection@ && filters_alike(k, f@, filters@),
        (BatchWrite::Upsert(req), WriteOp::Upsert { collection, spec }) => req.collection@
            == collection@ && upsert_alike(req, spec),
        _ => false,
    }
}

/// The operation that an insert makes in the end.
pub open spec fn made(insert: Insert) -> Request {
    match insert {
        Insert::Create { collection, data } => Request::Create { collection, data },
        Insert::CreateMany { collection, rows } => Request::CreateMany { collection, rows },
        Insert::Guarded { collection, data, guards } => Request::InsertGuarded {
            collection,
            data,
            guards,
        },
    }
}

/// A request's answer takes this form.
pub open spec fn takes_form(request: WireRequest, form: Form) -> bool {
    match request {
        WireRequest::Get { .. } => form is Record,
        WireRequest::List(_) => form is List,
        WireRequest::Create { .. } => form is Record,
        WireRequest::CreateMany { .. } => form is RowsAffected,
        WireRequest::Batch { .. } => form is Batch,
        WireRequest::InsertGuarded { .. } => form is Inserted,
        WireRequest::UpdateGuarded { .. } => form is Updated,
        WireRequest::Update { .. } => form is Record,
        WireRequest::Delete { .. } => form is Empty,
        WireRequest::Count { .. } => form is Count,
        WireRequest::QueryRaw { .. } => form is Records,
        WireRequest::Sum { .. } => form is Sum,
        WireRequest::ExecRaw { .. } => form is RowsAffected,
        WireRequest::Ddl { .. } => form is RowsAffected,
        WireRequest::DeleteWhere { .. } => form is Empty,
        WireRequest::DeleteWhereCount { .. } => form is Count,
        WireRequest::TakeWhere { .. } => form is Records,
        WireRequest::UpdateWhere { .. } => form is Empty,
        WireRequest::UpdateWhereCount { .. } => form is Count,
        WireRequest::IncrementFieldWhere { .. } => form is RowsAffected,
        WireRequest::Upsert(_) => form is RowsAffected,
        WireRequest::Aggregate(_) => form is Records,
        WireRequest::EnsureTable { table } => form matches Form::Table { table_name } && table_name@
            == table.name@,
        WireRequest::AddColumn { table_name: t, .. } => form matches Form::Table { table_name }
            && table_name@ == t@,
        WireRequest::DropTable { table_name: t } => form matches Form::Table { table_name }
            && table_name@ == t@,
        WireRequest::TableExists { table_name: t } => form matches Form::TableExists { table_name }
            && table_name@ == t@,
    }
}

/// A step on the way of this request: whatever it waits for, it still holds the
/// request as it was made, and where it calls the service, the call is the one
/// that was asked for and its answer takes the request's form.
pub open spec fn on_the_way<F>(
    m: Measures,
    k: Comparing,
    request: WireRequest,
    step: Step<F>,
) -> bool {
    match step {
        Step::Ask(ask, waiting) => match waiting {
            Waiting::Authorizing(r) => r == request && ask is Authorize,
            Waiting::SchemaAuthorizing(r) => r == request && ask is Authorize,
            Waiting::AdmittingRows { collection, rows } => request == (WireRequest::CreateMany {
                collection,
                rows,
            }) && ask is AdmitStatements,
            Waiting::AdmittingBatch { ops } => request == (WireRequest::Batch { ops })
                && ask is AdmitStatements,
            Waiting::Inserting(insert) => asks_for(m, k, request, made(insert)) && (
            ask matches Ask::MayWrite { collection } && collection@ == collection_of(request)),
            Waiting::Appending(insert) => asks_for(m, k, request, made(insert)) && (
            ask matches Ask::SchemaColumns { collection } && collection@ == collection_of(request)),
            Waiting::BatchInserting { ops, next, .. } => request == (WireRequest::Batch { ops }) && (
            ask matches Ask::MayWrite { collection } && next < ops@.len() && (
            ops@[next as int].write matches BatchWrite::Create { collection: c, .. } && c@
                == collection@)),
            Waiting::BatchAppending { ops, .. } => request == (WireRequest::Batch { ops })
                && ask is SchemaColumns,
            Waiting::Serving(form) => takes_form(request, form) && (ask matches Ask::Call(call)
                && match call {
                ServiceCall::Operation(q) => asks_for(m, k, request, q),
                ServiceCall::Batch(writes) => request matches WireRequest::Batch { ops }
                    && writes@.len() == ops@.len() && forall|i: int|
                    0 <= i < ops@.len() ==> asks_write_for(
                        k,
                        (#[trigger] ops@[i]).write,
                        writes@[i],
                    ),
                ServiceCall::EnsureTable(t) => request matches WireRequest::EnsureTable { table }
                    && t.name@ == table.name@ && t.columns@.len() == table.columns@.len(),
                ServiceCall::AddColumn { table_name: t, column: c } => (
                request matches WireRequest::AddColumn { table_name, column } && t@ == table_name@
                    && c.name@ == column.name@),
                ServiceCall::DropTable { table_name: t } => (
                request matches WireRequest::DropTable { table_name } && t@ == table_name@),
                ServiceCall::TableExists { table_name: t } => (
                request matches WireRequest::TableExists { table_name } && t@ == table_name@),
            }),
        },
        _ => true,
    }
}

/// The collection that a request to insert is for.
pub open spec fn collection_of(request: WireRequest) -> Seq<char> {
    match request {
        WireRequest::Create { collection, .. } => collection@,
        WireRequest::CreateMany { collection, .. } => collection@,
        WireRequest::InsertGuarded { collection, .. } => collection@,
        _ => Seq::empty(),
    }
}

/// Where a message's handling begins, its request stands as it was made.
pub proof fn handling_begins_with_the_request<F>(
    m: Measures,
    k: Comparing,
    message: Incoming,
    request: WireRequest,
    rules: Rules,
    step: Step<F>,
)
    requires
        handler::handling_starts(message, rules, step),
        message.body == Body::Request(request),
    ensures
        on_the_way(m, k, request, step),
        !(step is Respond),
{
}

proof fn lemma_handled<F>(m: Measures, k: Comparing, request: WireRequest, step: Step<F>)
    requires
        measures_by(m, k),
        handler::handled(request, step),
    ensures
        on_the_way(m, k, request, step),
        !(step is Respond),
{
    reveal(handler::handled);
    if let Step::Ask(Ask::Call(ServiceCall::Operation(q)), _) = step {
        match (request, q) {
            (WireRequest::List(list), Request::List { opts, .. }) => {
                let trees = opts.filter_tree->0@;
                assert forall|row: Map<Seq<char>, JsonView>| #[trigger]
                    nodes_hold(k, list.filters@, row) <==> trees_hold(k, trees, row) by {
                    converted_conditions_say_the_same(k, list.filters@, trees, row);
                }
                assert forall|i: int| 0 <= i < list.sort@.len() implies (
                #[trigger] list.sort@[i]).field@ == opts.sort@[i].field@ && list.sort@[i].desc
                    == opts.sort@[i].desc by {
                    assert(opts.sort@[i].field == list.sort@[i].field);
                }
            },
            (WireRequest::Count { filters: f, .. }, Request::Count { filters, .. }) => {
                lemma_filters(k, f@, filters@);
            },
            (WireRequest::Sum { filters: f, .. }, Request::Sum { filters, .. }) => {
                lemma_filters(k, f@, filters@);
            },
            (WireRequest::DeleteWhere { filters: f, .. }, Request::DeleteWhere { filters, .. }) => {
                lemma_filters(k, f@, filters@);
            },
            (
                WireRequest::DeleteWhereCount { filters: f, .. },
                Request::DeleteWhereCount { filters, .. },
            ) => {
                lemma_filters(k, f@, filters@);
            },
            (WireRequest::TakeWhere { filters: f, .. }, Request::TakeWhere { filters, .. }) => {
                lemma_filters(k, f@, filters@);
            },
            (WireRequest::UpdateWhere { filters: f, .. }, Request::UpdateWhere { filters, .. }) => {
                lemma_filters(k, f@, filters@);
            },
            (
                WireRequest::UpdateWhereCount { filters: f, .. },
                Request::UpdateWhereCount { filters, .. },
            ) => {
                lemma_filters(k, f@, filters@);
            },
            (
                WireRequest::IncrementFieldWhere { filters: f, .. },
                Request::IncrementFieldWhere { filters, .. },
            ) => {
                lemma_filters(k, f@, filters@);
            },
            (WireRequest::Aggregate(req), Request::Aggregate { aggregate, .. }) => {
                converted_aggregates_give_the_same(m, k, req, aggregate);
            },
            _ => {},
        }
    }
}

proof fn lemma_authorized<F>(
    m: Measures,
    k: Comparing,
    request: WireRequest,
    rules: Rules,
    step: Step<F>,
)
    requires
        measures_by(m, k),
        handler::authorized(request, rules, step),
    ensures
        on_the_way(m, k, request, step),
        !(step is Respond),
{
    reveal(handler::authorized);
    match request {
        WireRequest::CreateMany { .. } => {},
        WireRequest::Batch { .. } => {},
        WireRequest::InsertGuarded { guards, .. } => {
            if let Step::Ask(_, Waiting::Inserting(Insert::Guarded { guards: g, .. })) = step {
                lemma_guards(k, guards@, g@, rules.most_guards as int);
            }
        },
        WireRequest::UpdateGuarded { filters, guards, .. } => {
            if let Step::Ask(
                Ask::Call(
                    ServiceCall::Operation(Request::UpdateGuarded { filters: f, guards: g, .. }),
                ),
                _,
            ) = step {
                lemma_filters(k, filters@, f@);
                lemma_guards(k, guards@, g@, rules.most_guards as int);
            }
        },
        WireRequest::EnsureTable { .. } => {},
        WireRequest::AddColumn { .. } => {},
        WireRequest::DropTable { .. } => {},
        _ => {
            lemma_handled(m, k, request, step);
        },
    }
}

proof fn lemma_converts<F>(m: Measures, k: Comparing, ops: Vec<AccessedWrite>, step: Step<F>)
    requires
        handler::batch_converts(ops@, step),
    ensures
        on_the_way(m, k, WireRequest::Batch { ops }, step),
        !(step is Respond),
{
    if let Step::Ask(Ask::Call(ServiceCall::Batch(writes)), _) = step {
        assert forall|i: int| 0 <= i < ops@.len() implies asks_write_for(
            k,
            (#[trigger] ops@[i]).write,
            writes@[i],
        ) by {
            assert(convert::write_converts(ops@[i].write, Ok(writes@[i])));
            match (ops@[i].write, writes@[i]) {
                (
                    BatchWrite::UpdateWhere { filters: f, .. },
                    WriteOp::UpdateWhere { filters, .. },
                ) => {
                    lemma_filters(k, f@, filters@);
                },
                (
                    BatchWrite::DeleteWhere { filters: f, .. },
                    WriteOp::DeleteWhere { filters, .. },
                ) => {
                    lemma_filters(k, f@, filters@);
                },
                _ => {},
            }
        }
    }
}

proof fn lemma_next_create(ops: Seq<AccessedWrite>, append_only: Seq<Seq<char>>, from: int)
    ensures
        handler::next_create(ops, append_only, from) matches Some(i) ==> 0 <= i < ops.len()
            && ops[i].write is Create,
    decreases ops.len() - from,
{
    if 0 <= from < ops.len() {
        lemma_next_create(ops, append_only, from + 1);
    }
}

proof fn lemma_batch_inserts<F>(
    m: Measures,
    k: Comparing,
    ops: Vec<AccessedWrite>,
    append_only: Seq<Seq<char>>,
    from: int,
    step: Step<F>,
)
    requires
        handler::batch_inserts(ops, append_only, from, step),
    ensures
        on_the_way(m, k, WireRequest::Batch { ops }, step),
        !(step is Respond),
{
    lemma_next_create(ops@, append_only, from);
    if handler::next_create(ops@, append_only, from) is None && append_only.len() == 0 {
        lemma_converts(m, k, ops, step);
    }
}

/// Whatever is answered on the way, the request stays as it was made: the call
/// that the service gets in the end is the one that the request asks for, on
/// its own collection, with its own rows and values, and under conditions that
/// say the same of every row.
pub proof fn the_call_is_the_one_asked_for<F>(
    m: Measures,
    k: Comparing,
    request: WireRequest,
    ask: Ask,
    waiting: Waiting,
    told: Told<F>,
    rules: Rules,
    step: Step<F>,
)
    requires
        measures_by(m, k),
        on_the_way(m, k, request, Step::<F>::Ask(ask, waiting)),
        handler::handling_goes_on(waiting, told, rules, step),
    ensures
        on_the_way(m, k, request, step),
        step is Respond ==> waiting is Serving,
{
    match (waiting, told) {
        (Waiting::Authorizing(r), Told::Authorized(Ok(_))) => {
            lemma_authorized(m, k, request, rules, step);
        },
        (Waiting::AdmittingBatch { ops }, Told::Admitted(Ok(_))) => {
            lemma_batch_inserts(m, k, ops, Seq::empty(), 0, step);
        },
        (
            Waiting::BatchInserting { ops, append_only, next },
            Told::MayWrite(may_write),
        ) => {
            let before = text::views(append_only@);
            let known = if may_write || next >= ops@.len() {
                before
            } else {
                before.push(ops@[next as int].write.target())
            };
            lemma_batch_inserts(m, k, ops, known, next + 1, step);
        },
        (
            Waiting::BatchAppending { ops, append_only, next },
            Told::Columns(Ok(existing)),
        ) => {
            let only = text::views(append_only@);
            if handler::batch_converts(ops@, step) {
                lemma_converts(m, k, ops, step);
            }
        },
        _ => {},
    }
}

/// What a request is answered with is what the service told: its records, its
/// numbers and its outcomes as they are, and a table under its own name.
pub proof fn the_answer_is_what_the_service_told<F>(
    request: WireRequest,
    form: Form,
    reply: Served<F>,
    rules: Rules,
    step: Step<F>,
)
    requires
        takes_form(request, form),
        handler::handling_goes_on(
            Waiting::Serving(form),
            Told::<F>::Served(Ok(reply)),
            rules,
            step,
        ),
        step is Respond,
    ensures
        match (request, reply) {
            (WireRequest::Get { .. }, Served::Operation(Outcome::Record(r))) => step->Respond_0
                == Response::<F>::Record(r),
            (WireRequest::Create { .. }, Served::Operation(Outcome::Record(r))) => step->Respond_0
                == Response::<F>::Record(r),
            (WireRequest::Update { .. }, Served::Operation(Outcome::Record(r))) => step->Respond_0
                == Response::<F>::Record(r),
            (WireRequest::List(_), Served::Operation(Outcome::List(l))) => step->Respond_0
                == Response::<F>::List(l),
            (WireRequest::QueryRaw { .. }, Served::Operation(Outcome::Records(r))) => {
                step->Respond_0 == Response::<F>::Records(r)
            },
            (WireRequest::TakeWhere { .. }, Served::Operation(Outcome::Records(r))) => {
                step->Respond_0 == Response::<F>::Records(r)
            },
            (WireRequest::Aggregate(_), Served::Operation(Outcome::Records(r))) => step->Respond_0
                == Response::<F>::Records(r),
            (WireRequest::CreateMany { .. }, Served::Operation(Outcome::Count(n))) => {
                step->Respond_0 == Response::<F>::RowsAffected(n)
            },
            (WireRequest::ExecRaw { .. }, Served::Operation(Outcome::Count(n))) => step->Respond_0
                == Response::<F>::RowsAffected(n),
            (WireRequest::Ddl { .. }, Served::Operation(Outcome::Count(n))) => step->Respond_0
                == Response::<F>::RowsAffected(n),
            (WireRequest::IncrementFieldWhere { .. }, Served::Operation(Outcome::Count(n))) => {
                step->Respond_0 == Response::<F>::RowsAffected(n)
            },
            (WireRequest::Upsert(_), Served::Operation(Outcome::Count(n))) => step->Respond_0
                == Response::<F>::RowsAffected(n),
            (WireRequest::Count { .. }, Served::Operation(Outcome::Count(n))) => step->Respond_0
                == Response::<F>::Count(n),
            (WireRequest::DeleteWhereCount { .. }, Served::Operation(Outcome::Count(n))) => {
                step->Respond_0 == Response::<F>::Count(n)
            },
            (WireRequest::UpdateWhereCount { .. }, Served::Operation(Outcome::Count(n))) => {
                step->Respond_0 == Response::<F>::Count(n)
            },
            (WireRequest::Sum { .. }, Served::Operation(Outcome::Sum(x))) => step->Respond_0
                == Response::<F>::Sum(x),
            (WireRequest::InsertGuarded { .. }, Served::Operation(Outcome::Inserted(g))) => {
                step->Respond_0 == Response::<F>::Inserted(g)
            },
            (WireRequest::UpdateGuarded { .. }, Served::Operation(Outcome::Updated(g))) => {
                step->Respond_0 == Response::<F>::Updated(g)
            },
            (WireRequest::Delete { .. }, Served::Operation(Outcome::Nothing)) => step->Respond_0
                == Response::<F>::Empty,
            (WireRequest::DeleteWhere { .. }, Served::Operation(Outcome::Nothing)) => {
                step->Respond_0 == Response::<F>::Empty
            },
            (WireRequest::UpdateWhere { .. }, Served::Operation(Outcome::Nothing)) => {
                step->Respond_0 == Response::<F>::Empty
            },
            (WireRequest::Batch { .. }, Served::Batch(outcomes)) => step->Respond_0
                == Response::<F>::Batch(outcomes),
            (WireRequest::EnsureTable { table }, Served::Changed) => {
                step->Respond_0 matches Response::Table { table_name } && table_name@ == table.name@
            },
            (WireRequest::AddColumn { table_name: t, .. }, Served::Changed) => {
                step->Respond_0 matches Response::Table { table_name } && table_name@ == t@
            },
            (WireRequest::DropTable { table_name: t }, Served::Changed) => {
                step->Respond_0 matches Response::Table { table_name } && table_name@ == t@
            },
            (WireRequest::TableExists { table_name: t }, Served::Exists(e)) => {
                step->Respond_0 matches Response::TableExists { table_name, exists } && table_name@
                    == t@ && exists == e
            },
            _ => false,
        },
{
}

/// A reply that fits what the service was called for is never refused.
pub proof fn a_fitting_reply_is_passed_on<F>(
    form: Form,
    reply: Served<F>,
    rules: Rules,
    step: Step<F>,
)
    requires
        handler::handling_goes_on(
            Waiting::Serving(form),
            Told::<F>::Served(Ok(reply)),
            rules,
            step,
        ),
        match (form, reply) {
            (Form::Record, Served::Operation(o)) => o is Record,
            (Form::List, Served::Operation(o)) => o is List,
            (Form::Records, Served::Operation(o)) => o is Records,
            (Form::RowsAffected, Served::Operation(o)) => o is Count,
            (Form::Count, Served::Operation(o)) => o is Count,
            (Form::Sum, Served::Operation(o)) => o is Sum,
            (Form::Inserted, Served::Operation(o)) => o is Inserted,
            (Form::Updated, Served::Operation(o)) => o is Updated,
            (Form::Empty, Served::Operation(o)) => o is Nothing,
            (Form::Batch, Served::Batch(_)) => true,
            (Form::Table { .. }, Served::Changed) => true,
            (Form::TableExists { .. }, Served::Exists(_)) => true,
            _ => false,
        },
    ensures
        step is Respond,
{
}

} // verus!
