//! Filters: from the form in which a request carries them to the form from
//! which a statement is built.
//!
//! A request carries a forest of nodes, read as "all of these hold". It is
//! accepted only within a depth and a size, without empty groups, and with
//! every name a plain identifier; a forest without nodes means "no filter".

use vstd::prelude::*;

use crate::error::{invalid, ErrorCode, WaferError};
use crate::ident;
use crate::ident::check_name;
use crate::json::{Json, JsonView};
use crate::text;

verus! {

/// The deepest nesting of a filter forest that is accepted.
pub const MAX_FILTER_DEPTH: usize = 16;

/// The most nodes of a filter forest that are accepted.
pub const MAX_FILTER_NODES: usize = 256;

/// How a filter compares its field.
#[derive(Clone, Copy, Debug, PartialEq, Eq, Structural)]
pub enum FilterOp {
    Equal,
    NotEqual,
    GreaterThan,
    GreaterEqual,
    LessThan,
    LessEqual,
    Like,
    In,
    IsNull,
    IsNotNull,
}

/// How a filter compares two columns.
#[derive(Clone, Copy, Debug, PartialEq, Eq, Structural)]
pub enum ColumnCompareOp {
    Equal,
    NotEqual,
    GreaterThan,
    GreaterEqual,
    LessThan,
    LessEqual,
}

/// The column form of an operator. `Like`, `In`, `IsNull` and `IsNotNull`
/// have none.
pub open spec fn column_form(op: FilterOp) -> Option<ColumnCompareOp> {
    match op {
        FilterOp::Equal => Some(ColumnCompareOp::Equal),
        FilterOp::NotEqual => Some(ColumnCompareOp::NotEqual),
        FilterOp::GreaterThan => Some(ColumnCompareOp::GreaterThan),
        FilterOp::GreaterEqual => Some(ColumnCompareOp::GreaterEqual),
        FilterOp::LessThan => Some(ColumnCompareOp::LessThan),
        FilterOp::LessEqual => Some(ColumnCompareOp::LessEqual),
        FilterOp::Like => None,
        FilterOp::In => None,
        FilterOp::IsNull => None,
        FilterOp::IsNotNull => None,
    }
}

impl ColumnCompareOp {
    /// The column form of an operator, if it has one.
    pub fn from_filter_op(op: FilterOp) -> (r: Option<Self>)
        ensures
            r == column_form(op),
    {
        match op {
            FilterOp::Equal => Some(ColumnCompareOp::Equal),
            FilterOp::NotEqual => Some(ColumnCompareOp::NotEqual),
            FilterOp::GreaterThan => Some(ColumnCompareOp::GreaterThan),
            FilterOp::GreaterEqual => Some(ColumnCompareOp::GreaterEqual),
            FilterOp::LessThan => Some(ColumnCompareOp::LessThan),
            FilterOp::LessEqual => Some(ColumnCompareOp::LessEqual),
            FilterOp::Like => None,
            FilterOp::In => None,
            FilterOp::IsNull => None,
            FilterOp::IsNotNull => None,
        }
    }
}

/// One comparison of a column with a value.
#[derive(Debug, PartialEq, Eq)]
pub struct Filter {
    pub field: String,
    pub operator: FilterOp,
    pub value: Json,
}

/// A [`Filter`], as mathematics.
pub struct FilterView {
    pub field: Seq<char>,
    pub operator: FilterOp,
    pub value: JsonView,
}

impl View for Filter {
    type V = FilterView;

    open spec fn view(&self) -> FilterView {
        FilterView { field: self.field@, operator: self.operator, value: self.value@ }
    }
}

impl Clone for Filter {
    fn clone(&self) -> (r: Self)
        ensures
            r@ == self@,
    {
        Filter { field: self.field.clone(), operator: self.operator, value: self.value.clone() }
    }
}

/// One comparison of a column with another column of the same row.
#[derive(Debug, PartialEq, Eq)]
pub struct ColumnFilter {
    pub field: String,
    pub operator: ColumnCompareOp,
    pub column: String,
}

/// A condition on a row.
#[derive(Debug, PartialEq, Eq)]
pub enum FilterTree {
    Leaf(Filter),
    ColumnCompare(ColumnFilter),
    All(Vec<FilterTree>),
    Any(Vec<FilterTree>),
}

/// Two conditions say the same: the same shape, names and values.
pub open spec fn same_tree(a: FilterTree, b: FilterTree) -> bool
    decreases a,
{
    match a {
        FilterTree::Leaf(f) => b matches FilterTree::Leaf(g) && f@ == g@,
        FilterTree::ColumnCompare(f) => b == a,
        FilterTree::All(s) => b matches FilterTree::All(t) && s@.len() == t@.len() && (forall|i: int|
            0 <= i < s@.len() ==> same_tree(#[trigger] s@[i], t@[i])),
        FilterTree::Any(s) => b matches FilterTree::Any(t) && s@.len() == t@.len() && (forall|i: int|
            0 <= i < s@.len() ==> same_tree(#[trigger] s@[i], t@[i])),
    }
}

/// Two lists of conditions say the same, one by one.
pub open spec fn same_trees(a: Seq<FilterTree>, b: Seq<FilterTree>) -> bool {
    a.len() == b.len() && forall|i: int| 0 <= i < a.len() ==> same_tree(#[trigger] a[i], b[i])
}

/// A list of filters that says the same.
pub fn clone_filters(filters: &Vec<Filter>) -> (r: Vec<Filter>)
    ensures
        text::views(r@) == text::views(filters@),
{
    let mut out: Vec<Filter> = Vec::new();
    for i in 0..filters.len()
        invariant
            out@.len() == i,
            forall|k: int| 0 <= k < i ==> #[trigger] out@[k]@ == filters@[k]@,
    {
        out.push(filters[i].clone());
    }
    proof {
        assert(text::views(out@) =~= text::views(filters@));
    }
    out
}

/// A list of conditions that says the same.
pub fn clone_trees(trees: &Vec<FilterTree>) -> (r: Vec<FilterTree>)
    ensures
        same_trees(trees@, r@),
    decreases trees@,
{
    let mut out: Vec<FilterTree> = Vec::new();
    for i in 0..trees.len()
        invariant
            out@.len() == i,
            forall|k: int| 0 <= k < i ==> same_tree(#[trigger] trees@[k], out@[k]),
    {
        proof {
            assert(decreases_to!(trees@ => trees@[i as int]));
        }
        let tree = match &trees[i] {
            FilterTree::Leaf(f) => FilterTree::Leaf(f.clone()),
            FilterTree::ColumnCompare(f) => FilterTree::ColumnCompare(
                ColumnFilter {
                    field: f.field.clone(),
                    operator: f.operator,
                    column: f.column.clone(),
                },
            ),
            FilterTree::All(t) => {
                proof {
                    assert(decreases_to!(trees@[i as int] => trees@[i as int]->All_0));
                    assert(decreases_to!(trees@[i as int]->All_0 => trees@[i as int]->All_0@));
                }
                FilterTree::All(clone_trees(t))
            },
            FilterTree::Any(t) => {
                proof {
                    assert(decreases_to!(trees@[i as int] => trees@[i as int]->Any_0));
                    assert(decreases_to!(trees@[i as int]->Any_0 => trees@[i as int]->Any_0@));
                }
                FilterTree::Any(clone_trees(t))
            },
        };
        out.push(tree);
    }
    out
}

/// One sort key.
#[derive(Debug, PartialEq, Eq)]
pub struct SortField {
    pub field: String,
    pub desc: bool,
}

// ---------------------------------------------------------------------------
// The request's form
// ---------------------------------------------------------------------------

/// An operator as a request names it, with what that name was read as: an
/// operator, or why it is none.
#[derive(Debug, PartialEq, Eq)]
pub struct OperatorName {
    pub text: String,
    pub parsed: Result<FilterOp, String>,
}

/// One comparison in a request: of `field` with `value`, or with `column`
/// where that is given.
#[derive(Debug, PartialEq, Eq)]
pub struct FilterDef {
    pub field: String,
    pub operator: OperatorName,
    pub value: Json,
    pub column: Option<String>,
}

/// A node of a request's filter forest.
#[derive(Debug, PartialEq, Eq)]
pub enum FilterNode {
    Leaf(FilterDef),
    All { all: Vec<FilterNode> },
    Any { any: Vec<FilterNode> },
}

/// One sort key in a request.
#[derive(Debug, PartialEq, Eq)]
pub struct SortFieldDef {
    pub field: String,
    pub desc: bool,
}

// ---------------------------------------------------------------------------
// What is accepted
// ---------------------------------------------------------------------------

/// Why a leaf is refused; `None` where it is accepted. The operator is looked
/// at first, then the field, then what makes a column comparison.
pub open spec fn leaf_refusal(f: FilterDef) -> Option<Seq<char>> {
    if f.operator.parsed is Err {
        Some(f.operator.parsed->Err_0@)
    } else if !ident::plain(f.field@) {
        Some(ident::name_refusal(f.field@))
    } else {
        match f.column {
            None => None,
            Some(column) => if !(f.value@ is Null) {
                Some("a filter compares its field to either `value` or `column`, not both"@)
            } else if column_form(f.operator.parsed->Ok_0) is None {
                Some(
                    "filter operator "@ + text::debug_rendering(f.operator.text@)
                        + " cannot compare two columns"@,
                )
            } else if !ident::plain(column@) {
                Some(ident::name_refusal(column@))
            } else {
                None
            },
        }
    }
}

/// Walks a forest in order, parents before children, counting nodes from
/// `count`: the number reached, or what the first refusal says. A node too
/// deep is refused before it is counted, and one too many before it is looked
/// into.
pub open spec fn walk(nodes: Seq<FilterNode>, depth: int, count: int) -> Result<int, Seq<char>>
    decreases nodes,
{
    if nodes.len() == 0 {
        Ok(count)
    } else {
        match walk(nodes.drop_last(), depth, count) {
            Err(m) => Err(m),
            Ok(c) => walk_node(nodes[nodes.len() - 1], depth, c),
        }
    }
}

/// Walks one node and what is below it; see [`walk`].
pub open spec fn walk_node(node: FilterNode, depth: int, count: int) -> Result<int, Seq<char>>
    decreases node,
{
    if depth > MAX_FILTER_DEPTH {
        Err("filter tree too deep"@)
    } else if count + 1 > MAX_FILTER_NODES {
        Err("filter tree has too many nodes"@)
    } else {
        match node {
            FilterNode::Leaf(f) => match leaf_refusal(f) {
                Some(m) => Err(m),
                None => Ok(count + 1),
            },
            FilterNode::All { all } => if all@.len() == 0 {
                Err("filter group must have at least one child"@)
            } else {
                walk(all@, depth + 1, count + 1)
            },
            FilterNode::Any { any } => if any@.len() == 0 {
                Err("filter group must have at least one child"@)
            } else {
                walk(any@, depth + 1, count + 1)
            },
        }
    }
}

/// `tree` is what `node` is converted to: the same shape, the same names and
/// values.
pub open spec fn converts(node: FilterNode, tree: FilterTree) -> bool
    decreases node,
{
    match node {
        FilterNode::Leaf(f) => match f.column {
            None => tree == FilterTree::Leaf(
                Filter { field: f.field, operator: f.operator.parsed->Ok_0, value: f.value },
            ),
            Some(column) => tree == FilterTree::ColumnCompare(
                ColumnFilter {
                    field: f.field,
                    operator: column_form(f.operator.parsed->Ok_0)->0,
                    column,
                },
            ),
        },
        FilterNode::All { all } => tree matches FilterTree::All(t) && t@.len() == all@.len() && (
        forall|i: int| 0 <= i < all@.len() ==> converts(#[trigger] all@[i], t@[i])),
        FilterNode::Any { any } => tree matches FilterTree::Any(t) && t@.len() == any@.len() && (
        forall|i: int| 0 <= i < any@.len() ==> converts(#[trigger] any@[i], t@[i])),
    }
}

/// `trees` is what the forest `nodes` is converted to, node by node.
pub open spec fn all_convert(nodes: Seq<FilterNode>, trees: Seq<FilterTree>) -> bool {
    &&& trees.len() == nodes.len()
    &&& forall|i: int| 0 <= i < nodes.len() ==> converts(#[trigger] nodes[i], trees[i])
}

// ---------------------------------------------------------------------------
// Conversion
// ---------------------------------------------------------------------------

fn convert_leaf(f: FilterDef) -> (r: Result<FilterTree, WaferError>)
    ensures
        match r {
            Ok(tree) => leaf_refusal(f) is None && converts(FilterNode::Leaf(f), tree),
            Err(e) => leaf_refusal(f) is Some && e.says(
                ErrorCode::InvalidArgument,
                leaf_refusal(f)->0,
            ),
        },
{
    let operator = match f.operator.parsed {
        Ok(op) => op,
        Err(m) => return Err(invalid(m)),
    };
    if let Err(e) = check_name(f.field.as_str()) {
        return Err(e);
    }
    match f.column {
        None => Ok(
            FilterTree::Leaf(Filter { field: f.field, operator, value: f.value }),
        ),
        Some(column) => {
            if !f.value.is_null() {
                return Err(
                    invalid(
                        "a filter compares its field to either `value` or `column`, not both".to_owned(),
                    ),
                );
            }
            match ColumnCompareOp::from_filter_op(operator) {
                None => Err(
                    invalid(
                        text::join3(
                            "filter operator ",
                            text::debug_text(f.operator.text.as_str()).as_str(),
                            " cannot compare two columns",
                        ),
                    ),
                ),
                Some(operator) => {
                    if let Err(e) = check_name(column.as_str()) {
                        return Err(e);
                    }
                    Ok(
                        FilterTree::ColumnCompare(
                            ColumnFilter { field: f.field, operator, column },
                        ),
                    )
                },
            }
        },
    }
}

fn convert_node(node: FilterNode, depth: usize, count: &mut usize) -> (r: Result<
    FilterTree,
    WaferError,
>)
    requires
        depth <= MAX_FILTER_DEPTH + 1,
        *old(count) <= MAX_FILTER_NODES,
    ensures
        match r {
            Ok(tree) => walk_node(node, depth as int, *old(count) as int) == Ok::<
                int,
                Seq<char>,
            >(*final(count) as int) && *final(count) <= MAX_FILTER_NODES && converts(node, tree),
            Err(e) => e.code == ErrorCode::InvalidArgument && e.detail is None && walk_node(
                node,
                depth as int,
                *old(count) as int,
            ) == Err::<int, Seq<char>>(e.message@),
        },
    decreases node, 0int,
{
    if depth > MAX_FILTER_DEPTH {
        return Err(invalid("filter tree too deep".to_owned()));
    }
    *count += 1;
    if *count > MAX_FILTER_NODES {
        return Err(invalid("filter tree has too many nodes".to_owned()));
    }
    let ghost whole = node;
    match node {
        FilterNode::Leaf(f) => convert_leaf(f),
        FilterNode::All { all } => {
            if all.len() == 0 {
                return Err(invalid("filter group must have at least one child".to_owned()));
            }
            proof {
                assert(decreases_to!(whole => whole->all));
                assert(decreases_to!(whole->all => whole->all@));
            }
            match convert_nodes(all, depth + 1, count) {
                Ok(t) => Ok(FilterTree::All(t)),
                Err(e) => Err(e),
            }
        },
        FilterNode::Any { any } => {
            if any.len() == 0 {
                return Err(invalid("filter group must have at least one child".to_owned()));
            }
            proof {
                assert(decreases_to!(whole => whole->any));
                assert(decreases_to!(whole->any => whole->any@));
            }
            match convert_nodes(any, depth + 1, count) {
                Ok(t) => Ok(FilterTree::Any(t)),
                Err(e) => Err(e),
            }
        },
    }
}

fn convert_nodes(nodes: Vec<FilterNode>, depth: usize, count: &mut usize) -> (r: Result<
    Vec<FilterTree>,
    WaferError,
>)
    requires
        depth <= MAX_FILTER_DEPTH + 1,
        *old(count) <= MAX_FILTER_NODES,
    ensures
        match r {
            Ok(trees) => walk(nodes@, depth as int, *old(count) as int) == Ok::<int, Seq<char>>(
                *final(count) as int,
            ) && *final(count) <= MAX_FILTER_NODES && all_convert(nodes@, trees@),
            Err(e) => e.code == ErrorCode::InvalidArgument && e.detail is None && walk(
                nodes@,
                depth as int,
                *old(count) as int,
            ) == Err::<int, Seq<char>>(e.message@),
        },
    decreases nodes@, 1int,
{
    let ghost all = nodes@;
    let ghost start = *count as int;
    let mut out: Vec<FilterTree> = Vec::new();
    proof {
        assert(all.take(0) =~= Seq::empty());
    }
    for node in it: nodes
        invariant
            depth <= MAX_FILTER_DEPTH + 1,
            *count <= MAX_FILTER_NODES,
            it.seq() == all,
            nodes@ == all,
            start == *old(count) as int,
            out@.len() == it.index(),
            walk(all.take(it.index()), depth as int, start) == Ok::<int, Seq<char>>(*count as int),
            forall|i: int| 0 <= i < it.index() ==> converts(#[trigger] all[i], out@[i]),
    {
        let ghost before = *count as int;
        let ghost next = all.take(it.index() + 1);
        proof {
            assert(next.drop_last() =~= all.take(it.index()));
            assert(next[next.len() - 1] == node);
            assert(decreases_to!(all => all[it.index()]));
        }
        match convert_node(node, depth, count) {
            Ok(tree) => out.push(tree),
            Err(e) => {
                proof {
                    lemma_walk_stops(all, it.index() + 1, depth as int, start);
                }
                return Err(e);
            },
        }
    }
    proof {
        assert(all.take(all.len() as int) =~= all);
    }
    Ok(out)
}

/// A walk refused on a prefix is refused, with the same words, on the whole.
proof fn lemma_walk_stops(nodes: Seq<FilterNode>, n: int, depth: int, count: int)
    requires
        0 <= n <= nodes.len(),
        walk(nodes.take(n), depth, count) is Err,
    ensures
        walk(nodes, depth, count) == walk(nodes.take(n), depth, count),
    decreases nodes.len() - n,
{
    if n == nodes.len() {
        assert(nodes.take(n) =~= nodes);
    } else {
        assert(nodes.take(n + 1).drop_last() =~= nodes.take(n));
        lemma_walk_stops(nodes, n + 1, depth, count);
    }
}

/// Converts a request's filter forest, refusing one that is too deep or too
/// large, an unknown operator, a name that is not a plain identifier, a leaf
/// that compares with a value and a column at once, and an empty group.
pub fn convert_filter_tree(nodes: Vec<FilterNode>) -> (r: Result<Vec<FilterTree>, WaferError>)
    ensures
        match r {
            Ok(trees) => walk(nodes@, 1, 0) is Ok && all_convert(nodes@, trees@),
            Err(e) => e.code == ErrorCode::InvalidArgument && e.detail is None && walk(nodes@, 1, 0)
                == Err::<int, Seq<char>>(e.message@),
        },
{
    let mut count: usize = 0;
    convert_nodes(nodes, 1, &mut count)
}

// ---------------------------------------------------------------------------
// Which forests are accepted
// ---------------------------------------------------------------------------

/// How many nodes a forest has.
pub open spec fn size(nodes: Seq<FilterNode>) -> int
    decreases nodes,
{
    if nodes.len() == 0 {
        0
    } else {
        size(nodes.drop_last()) + node_size(nodes[nodes.len() - 1])
    }
}

/// How many nodes stand at and below a node.
pub open spec fn node_size(node: FilterNode) -> int
    decreases node,
{
    match node {
        FilterNode::Leaf(_) => 1,
        FilterNode::All { all } => 1 + size(all@),
        FilterNode::Any { any } => 1 + size(any@),
    }
}

/// How deep a forest is; one without nodes has no depth.
pub open spec fn height(nodes: Seq<FilterNode>) -> int
    decreases nodes,
{
    if nodes.len() == 0 {
        0
    } else {
        let before = height(nodes.drop_last());
        let last = node_height(nodes[nodes.len() - 1]);
        if before >= last {
            before
        } else {
            last
        }
    }
}

/// How deep a node reaches, itself counted.
pub open spec fn node_height(node: FilterNode) -> int
    decreases node,
{
    match node {
        FilterNode::Leaf(_) => 1,
        FilterNode::All { all } => 1 + height(all@),
        FilterNode::Any { any } => 1 + height(any@),
    }
}

/// Every leaf is acceptable and no group is empty.
pub open spec fn sound(nodes: Seq<FilterNode>) -> bool
    decreases nodes,
{
    if nodes.len() == 0 {
        true
    } else {
        sound(nodes.drop_last()) && sound_node(nodes[nodes.len() - 1])
    }
}

/// The node is an acceptable leaf, or a group of sound nodes that is not empty.
pub open spec fn sound_node(node: FilterNode) -> bool
    decreases node,
{
    match node {
        FilterNode::Leaf(f) => leaf_refusal(f) is None,
        FilterNode::All { all } => all@.len() > 0 && sound(all@),
        FilterNode::Any { any } => any@.len() > 0 && sound(any@),
    }
}

/// A forest is accepted exactly where it is at most sixteen deep, has at most
/// 256 nodes, and is sound.
pub proof fn accepted_within_bounds(nodes: Seq<FilterNode>)
    ensures
        walk(nodes, 1, 0) is Ok <==> height(nodes) <= MAX_FILTER_DEPTH && size(nodes)
            <= MAX_FILTER_NODES && sound(nodes),
{
    lemma_walk(nodes, 1, 0);
}

proof fn lemma_walk(nodes: Seq<FilterNode>, depth: int, count: int)
    requires
        depth <= MAX_FILTER_DEPTH + 1,
        count <= MAX_FILTER_NODES,
    ensures
        walk(nodes, depth, count) is Ok <==> height(nodes) + depth <= MAX_FILTER_DEPTH + 1 && count
            + size(nodes) <= MAX_FILTER_NODES && sound(nodes),
        walk(nodes, depth, count) is Ok ==> walk(nodes, depth, count)->Ok_0 == count + size(nodes),
        size(nodes) >= 0,
        height(nodes) >= 0,
    decreases nodes, 1int,
{
    if nodes.len() > 0 {
        let before = nodes.drop_last();
        let last = nodes[nodes.len() - 1];
        lemma_walk(before, depth, count);
        assert(decreases_to!(nodes => nodes[nodes.len() - 1]));
        lemma_node_measures(last);
        match walk(before, depth, count) {
            Ok(c) => {
                lemma_walk_node(last, depth, c);
            },
            Err(_) => {},
        }
    }
}

proof fn lemma_walk_node(node: FilterNode, depth: int, count: int)
    requires
        depth <= MAX_FILTER_DEPTH + 1,
        count <= MAX_FILTER_NODES,
    ensures
        walk_node(node, depth, count) is Ok <==> node_height(node) + depth <= MAX_FILTER_DEPTH + 1
            && count + node_size(node) <= MAX_FILTER_NODES && sound_node(node),
        walk_node(node, depth, count) is Ok ==> walk_node(node, depth, count)->Ok_0 == count
            + node_size(node),
    decreases node, 0int,
{
    lemma_node_measures(node);
    match node {
        FilterNode::Leaf(_) => {},
        FilterNode::All { all } => {
            assert(decreases_to!(node->all => node->all@));
            if depth <= MAX_FILTER_DEPTH && count + 1 <= MAX_FILTER_NODES {
                lemma_walk(all@, depth + 1, count + 1);
            }
        },
        FilterNode::Any { any } => {
            assert(decreases_to!(node->any => node->any@));
            if depth <= MAX_FILTER_DEPTH && count + 1 <= MAX_FILTER_NODES {
                lemma_walk(any@, depth + 1, count + 1);
            }
        },
    }
}

proof fn lemma_measures(nodes: Seq<FilterNode>)
    ensures
        size(nodes) >= 0,
        height(nodes) >= 0,
    decreases nodes, 1int,
{
    if nodes.len() > 0 {
        lemma_measures(nodes.drop_last());
        assert(decreases_to!(nodes => nodes[nodes.len() - 1]));
        lemma_node_measures(nodes[nodes.len() - 1]);
    }
}

proof fn lemma_node_measures(node: FilterNode)
    ensures
        node_size(node) >= 1,
        node_height(node) >= 1,
    decreases node, 0int,
{
    match node {
        FilterNode::Leaf(_) => {},
        FilterNode::All { all } => {
            assert(decreases_to!(node->all => node->all@));
            lemma_measures(all@);
        },
        FilterNode::Any { any } => {
            assert(decreases_to!(node->any => node->any@));
            lemma_measures(any@);
        },
    }
}

// ---------------------------------------------------------------------------
// The columns a condition names
// ---------------------------------------------------------------------------

/// The columns a list of conditions names, in order.
pub open spec fn tree_columns(trees: Seq<FilterTree>) -> Seq<Seq<char>>
    decreases trees,
{
    if trees.len() == 0 {
        Seq::empty()
    } else {
        tree_columns(trees.drop_last()) + node_columns(trees[trees.len() - 1])
    }
}

/// The columns one condition names, in order.
pub open spec fn node_columns(tree: FilterTree) -> Seq<Seq<char>>
    decreases tree,
{
    match tree {
        FilterTree::Leaf(f) => seq![f.field@],
        FilterTree::ColumnCompare(f) => seq![f.field@, f.column@],
        FilterTree::All(t) => tree_columns(t@),
        FilterTree::Any(t) => tree_columns(t@),
    }
}

/// Every name of a list of names is a plain identifier.
pub open spec fn names_plain(names: Seq<Seq<char>>) -> bool {
    forall|i: int| 0 <= i < names.len() ==> ident::plain(#[trigger] names[i])
}

/// Appends the columns that `trees` names, in order.
pub fn push_tree_columns<'a>(trees: &'a Vec<FilterTree>, out: &mut Vec<&'a str>)
    ensures
        text::views(final(out)@) == text::views(old(out)@) + tree_columns(trees@),
    decreases trees@,
{
    let ghost start = text::views(out@);
    proof {
        assert(trees@.take(0) =~= Seq::empty());
        assert(start + tree_columns(trees@.take(0)) =~= start);
    }
    for i in 0..trees.len()
        invariant
            start == text::views(old(out)@),
            text::views(out@) == start + tree_columns(trees@.take(i as int)),
    {
        let ghost next = trees@.take(i + 1);
        let ghost before = out@;
        proof {
            assert(next.drop_last() =~= trees@.take(i as int));
            assert(next[next.len() - 1] == trees@[i as int]);
            assert(decreases_to!(trees@ => trees@[i as int]));
        }
        match &trees[i] {
            FilterTree::Leaf(f) => {
                out.push(f.field.as_str());
                proof {
                    assert(text::views(out@) =~= text::views(before) + seq![f.field@]);
                }
            },
            FilterTree::ColumnCompare(f) => {
                out.push(f.field.as_str());
                out.push(f.column.as_str());
                proof {
                    assert(text::views(out@) =~= text::views(before) + seq![f.field@, f.column@]);
                }
            },
            FilterTree::All(t) => {
                proof {
                    assert(decreases_to!(trees@[i as int] => trees@[i as int]->All_0));
                    assert(decreases_to!(trees@[i as int]->All_0 => trees@[i as int]->All_0@));
                }
                push_tree_columns(t, out);
            },
            FilterTree::Any(t) => {
                proof {
                    assert(decreases_to!(trees@[i as int] => trees@[i as int]->Any_0));
                    assert(decreases_to!(trees@[i as int]->Any_0 => trees@[i as int]->Any_0@));
                }
                push_tree_columns(t, out);
            },
        }
        proof {
            assert(text::views(out@) =~= start + (tree_columns(trees@.take(i as int))
                + node_columns(trees@[i as int])));
        }
    }
    proof {
        assert(trees@.take(trees@.len() as int) =~= trees@);
    }
}

/// An accepted forest is converted to conditions that name plain identifiers
/// only.
pub proof fn converted_names_are_plain(nodes: Seq<FilterNode>, trees: Seq<FilterTree>)
    requires
        walk(nodes, 1, 0) is Ok,
        all_convert(nodes, trees),
    ensures
        names_plain(tree_columns(trees)),
{
    accepted_within_bounds(nodes);
    lemma_sound_names(nodes, trees);
}

proof fn lemma_sound_names(nodes: Seq<FilterNode>, trees: Seq<FilterTree>)
    requires
        sound(nodes),
        all_convert(nodes, trees),
    ensures
        names_plain(tree_columns(trees)),
    decreases nodes, 1int,
{
    if nodes.len() > 0 {
        let last = nodes.len() - 1;
        assert forall|i: int| 0 <= i < last implies converts(
            #[trigger] nodes.drop_last()[i],
            trees.drop_last()[i],
        ) by {
            assert(converts(nodes[i], trees[i]));
        }
        lemma_sound_names(nodes.drop_last(), trees.drop_last());
        assert(decreases_to!(nodes => nodes[nodes.len() - 1]));
        assert(converts(nodes[last], trees[last]));
        lemma_sound_node_names(nodes[last], trees[last]);
        let a = tree_columns(trees.drop_last());
        let b = node_columns(trees[last]);
        assert forall|i: int| 0 <= i < (a + b).len() implies ident::plain(#[trigger] (a + b)[i]) by {
            if i < a.len() {
                assert(ident::plain(a[i]));
            } else {
                assert(ident::plain(b[i - a.len()]));
            }
        }
    }
}

proof fn lemma_sound_node_names(node: FilterNode, tree: FilterTree)
    requires
        sound_node(node),
        converts(node, tree),
    ensures
        names_plain(node_columns(tree)),
    decreases node, 0int,
{
    match node {
        FilterNode::Leaf(_) => {},
        FilterNode::All { all } => {
            assert(decreases_to!(node->all => node->all@));
            lemma_sound_names(all@, tree->All_0@);
        },
        FilterNode::Any { any } => {
            assert(decreases_to!(node->any => node->any@));
            lemma_sound_names(any@, tree->Any_0@);
        },
    }
}

// ---------------------------------------------------------------------------
// Flat filters
// ---------------------------------------------------------------------------

/// Why a condition cannot stand in a flat list of filters; `None` where it
/// can.
pub open spec fn unflat(tree: FilterTree) -> Option<Seq<char>> {
    match tree {
        FilterTree::Leaf(_) => None,
        FilterTree::ColumnCompare(_) => Some("operation does not support column-to-column filters"@),
        FilterTree::All(_) => Some("operation does not support filter groups"@),
        FilterTree::Any(_) => Some("operation does not support filter groups"@),
    }
}

/// Why a list of conditions is not a flat list of filters: what is said of
/// the first that cannot stand in one.
pub open spec fn first_unflat(trees: Seq<FilterTree>) -> Option<Seq<char>>
    decreases trees.len(),
{
    if trees.len() == 0 {
        None
    } else {
        match first_unflat(trees.drop_last()) {
            Some(m) => Some(m),
            None => unflat(trees.last()),
        }
    }
}

/// `filters` are the leaves `trees`, one by one.
pub open spec fn are_leaves(trees: Seq<FilterTree>, filters: Seq<Filter>) -> bool {
    &&& filters.len() == trees.len()
    &&& forall|i: int|
        0 <= i < trees.len() ==> (#[trigger] trees[i]) is Leaf && filters[i]@ == trees[i]->Leaf_0@
}

proof fn lemma_first_unflat_stops(trees: Seq<FilterTree>, n: int)
    requires
        0 <= n <= trees.len(),
        first_unflat(trees.take(n)) is Some,
    ensures
        first_unflat(trees) == first_unflat(trees.take(n)),
    decreases trees.len() - n,
{
    if n == trees.len() {
        assert(trees.take(n) =~= trees);
    } else {
        assert(trees.take(n + 1).drop_last() =~= trees.take(n));
        lemma_first_unflat_stops(trees, n + 1);
    }
}

/// The filters that a list of leaves holds, refusing a group or a comparison
/// of two columns: what takes a flat list can represent neither.
pub fn flatten_leaves(tree: &[FilterTree]) -> (r: Result<Vec<Filter>, WaferError>)
    ensures
        match r {
            Ok(filters) => first_unflat(tree@) is None && are_leaves(tree@, filters@),
            Err(e) => first_unflat(tree@) is Some && e.says(
                ErrorCode::InvalidArgument,
                first_unflat(tree@)->0,
            ),
        },
{
    let mut out: Vec<Filter> = Vec::new();
    for i in 0..tree.len()
        invariant
            out@.len() == i,
            first_unflat(tree@.take(i as int)) is None,
            forall|k: int|
                0 <= k < i ==> (#[trigger] tree@[k]) is Leaf && out@[k]@ == tree@[k]->Leaf_0@,
    {
        proof {
            assert(tree@.take(i + 1).drop_last() =~= tree@.take(i as int));
            if first_unflat(tree@.take(i + 1)) is Some {
                lemma_first_unflat_stops(tree@, i + 1);
            }
        }
        match &tree[i] {
            FilterTree::Leaf(f) => out.push(f.clone()),
            FilterTree::ColumnCompare(_) => {
                return Err(
                    invalid("operation does not support column-to-column filters".to_owned()),
                );
            },
            FilterTree::All(_) => {
                return Err(invalid("operation does not support filter groups".to_owned()));
            },
            FilterTree::Any(_) => {
                return Err(invalid("operation does not support filter groups".to_owned()));
            },
        }
    }
    proof {
        assert(tree@.take(tree@.len() as int) =~= tree@);
    }
    Ok(out)
}

/// Why a request's node cannot become a flat filter; `None` where it can.
pub open spec fn node_unflat(node: FilterNode) -> Option<Seq<char>> {
    match node {
        FilterNode::Leaf(f) => if f.column is Some {
            Some("operation does not support column-to-column filters"@)
        } else {
            None
        },
        FilterNode::All { .. } => Some("operation does not support filter groups"@),
        FilterNode::Any { .. } => Some("operation does not support filter groups"@),
    }
}

/// What is said of the first node that cannot become a flat filter.
pub open spec fn first_node_unflat(nodes: Seq<FilterNode>) -> Option<Seq<char>>
    decreases nodes.len(),
{
    if nodes.len() == 0 {
        None
    } else {
        match first_node_unflat(nodes.drop_last()) {
            Some(m) => Some(m),
            None => node_unflat(nodes.last()),
        }
    }
}

/// Why a forest cannot become a flat list of filters: it is not accepted at
/// all, or it holds more than value leaves.
pub open spec fn filters_refusal(nodes: Seq<FilterNode>) -> Option<Seq<char>> {
    match walk(nodes, 1, 0) {
        Err(m) => Some(m),
        Ok(_) => first_node_unflat(nodes),
    }
}

/// `filters` are what the value leaves `nodes` say, one by one.
pub open spec fn filters_of(nodes: Seq<FilterNode>, filters: Seq<Filter>) -> bool {
    &&& filters.len() == nodes.len()
    &&& forall|i: int| 0 <= i < nodes.len() ==> filter_of(#[trigger] nodes[i], filters[i])
}

/// `filter` is what the value leaf `node` says.
pub open spec fn filter_of(node: FilterNode, filter: Filter) -> bool {
    node matches FilterNode::Leaf(f) && f.operator.parsed is Ok && filter@ == (FilterView {
        field: f.field@,
        operator: f.operator.parsed->Ok_0,
        value: f.value@,
    })
}

proof fn lemma_unflat_agree(nodes: Seq<FilterNode>, trees: Seq<FilterTree>)
    requires
        all_convert(nodes, trees),
    ensures
        first_node_unflat(nodes) == first_unflat(trees),
    decreases nodes.len(),
{
    if nodes.len() > 0 {
        let last = nodes.len() - 1;
        assert forall|i: int| 0 <= i < last implies converts(
            #[trigger] nodes.drop_last()[i],
            trees.drop_last()[i],
        ) by {
            assert(converts(nodes[i], trees[i]));
        }
        lemma_unflat_agree(nodes.drop_last(), trees.drop_last());
        assert(converts(nodes[last], trees[last]));
    }
}

/// In a sound forest every leaf at the top is acceptable.
proof fn lemma_sound_top(nodes: Seq<FilterNode>, i: int)
    requires
        sound(nodes),
        0 <= i < nodes.len(),
    ensures
        sound_node(nodes[i]),
    decreases nodes.len(),
{
    if i < nodes.len() - 1 {
        lemma_sound_top(nodes.drop_last(), i);
    }
}

/// Converts a request's forest for an operation that takes a flat list of
/// filters.
pub fn convert_filters(nodes: Vec<FilterNode>) -> (r: Result<Vec<Filter>, WaferError>)
    ensures
        match r {
            Ok(filters) => filters_refusal(nodes@) is None && filters_of(nodes@, filters@),
            Err(e) => filters_refusal(nodes@) is Some && e.says(
                ErrorCode::InvalidArgument,
                filters_refusal(nodes@)->0,
            ),
        },
{
    let ghost given = nodes@;
    let trees = match convert_filter_tree(nodes) {
        Ok(t) => t,
        Err(e) => return Err(e),
    };
    proof {
        lemma_unflat_agree(given, trees@);
        accepted_within_bounds(given);
    }
    match flatten_leaves(trees.as_slice()) {
        Ok(filters) => {
            proof {
                assert forall|i: int| 0 <= i < given.len() implies filter_of(
                    #[trigger] given[i],
                    filters@[i],
                ) by {
                    assert(converts(given[i], trees@[i]));
                    lemma_sound_top(given, i);
                    assert(trees@[i] is Leaf);
                }
            }
            Ok(filters)
        },
        Err(e) => Err(e),
    }
}

/// The columns a flat list of filters names, in order.
pub open spec fn filter_columns(filters: Seq<Filter>) -> Seq<Seq<char>> {
    filters.map_values(|f: Filter| f.field@)
}

/// Flat filters converted from a request name plain identifiers only.
pub proof fn converted_filters_are_plain(nodes: Seq<FilterNode>, filters: Seq<Filter>)
    requires
        filters_refusal(nodes) is None,
        filters_of(nodes, filters),
    ensures
        names_plain(filter_columns(filters)),
{
    accepted_within_bounds(nodes);
    assert forall|i: int| 0 <= i < filters.len() implies ident::plain(
        #[trigger] filter_columns(filters)[i],
    ) by {
        lemma_sound_top(nodes, i);
        assert(filter_of(nodes[i], filters[i]));
    }
}

// ---------------------------------------------------------------------------
// Predicates of conditional aggregates, and sort keys
// ---------------------------------------------------------------------------

/// Why the predicate of a conditional aggregate is refused.
pub open spec fn when_refusal(when: Seq<FilterNode>, kind: Seq<char>) -> Option<Seq<char>> {
    match walk(when, 1, 0) {
        Err(m) => Some(m),
        Ok(_) => if when.len() == 0 {
            Some(kind + " aggregate requires at least one predicate in `when`"@)
        } else {
            None
        },
    }
}

/// Converts the predicate of a conditional aggregate, which may not be empty.
pub fn convert_when(when: Vec<FilterNode>, kind: &str) -> (r: Result<Vec<FilterTree>, WaferError>)
    ensures
        match r {
            Ok(trees) => when_refusal(when@, kind@) is None && all_convert(when@, trees@),
            Err(e) => when_refusal(when@, kind@) is Some && e.says(
                ErrorCode::InvalidArgument,
                when_refusal(when@, kind@)->0,
            ),
        },
{
    let trees = match convert_filter_tree(when) {
        Ok(t) => t,
        Err(e) => return Err(e),
    };
    if trees.len() == 0 {
        return Err(
            invalid(text::join2(kind, " aggregate requires at least one predicate in `when`")),
        );
    }
    Ok(trees)
}

/// Why a list of sort keys is refused: what is said of the first whose field
/// is not a plain identifier.
pub open spec fn sort_refusal(defs: Seq<SortFieldDef>) -> Option<Seq<char>>
    decreases defs.len(),
{
    if defs.len() == 0 {
        None
    } else {
        match sort_refusal(defs.drop_last()) {
            Some(m) => Some(m),
            None => if ident::plain(defs.last().field@) {
                None
            } else {
                Some(ident::name_refusal(defs.last().field@))
            },
        }
    }
}

/// `keys` are the sort keys `defs`, one by one.
pub open spec fn sorts_by(defs: Seq<SortFieldDef>, keys: Seq<SortField>) -> bool {
    &&& keys.len() == defs.len()
    &&& forall|i: int|
        0 <= i < defs.len() ==> (#[trigger] keys[i]) == (SortField {
            field: defs[i].field,
            desc: defs[i].desc,
        })
}

proof fn lemma_sort_stops(defs: Seq<SortFieldDef>, n: int)
    requires
        0 <= n <= defs.len(),
        sort_refusal(defs.take(n)) is Some,
    ensures
        sort_refusal(defs) == sort_refusal(defs.take(n)),
    decreases defs.len() - n,
{
    if n == defs.len() {
        assert(defs.take(n) =~= defs);
    } else {
        assert(defs.take(n + 1).drop_last() =~= defs.take(n));
        lemma_sort_stops(defs, n + 1);
    }
}

/// Converts a request's sort keys, refusing a field that is not a plain
/// identifier.
pub fn convert_sort(defs: Vec<SortFieldDef>) -> (r: Result<Vec<SortField>, WaferError>)
    ensures
        match r {
            Ok(keys) => sort_refusal(defs@) is None && sorts_by(defs@, keys@),
            Err(e) => sort_refusal(defs@) is Some && e.says(
                ErrorCode::InvalidArgument,
                sort_refusal(defs@)->0,
            ),
        },
{
    let ghost given = defs@;
    let mut out: Vec<SortField> = Vec::new();
    for d in it: defs
        invariant
            it.seq() == given,
            defs@ == given,
            out@.len() == it.index(),
            sort_refusal(given.take(it.index())) is None,
            forall|k: int|
                0 <= k < it.index() ==> (#[trigger] out@[k]) == (SortField {
                    field: given[k].field,
                    desc: given[k].desc,
                }),
    {
        proof {
            assert(given.take(it.index() + 1).drop_last() =~= given.take(it.index()));
            if sort_refusal(given.take(it.index() + 1)) is Some {
                lemma_sort_stops(given, it.index() + 1);
            }
        }
        if let Err(e) = check_name(d.field.as_str()) {
            return Err(e);
        }
        out.push(SortField { field: d.field, desc: d.desc });
    }
    proof {
        assert(given.take(given.len() as int) =~= given);
    }
    Ok(out)
}

/// A forest is accepted up to a depth of sixteen and up to 256 nodes, both
/// included, where its leaves are sound, and not beyond.
pub proof fn the_bounds_of_a_forest(nodes: Seq<FilterNode>)
    requires
        sound(nodes),
    ensures
        walk(nodes, 1, 0) is Ok <==> height(nodes) <= 16 && size(nodes) <= 256,
{
    accepted_within_bounds(nodes);
}

/// A leaf is accepted exactly where its operator is one, its field is a plain
/// name, and it compares with a value, or else, with no value, with a plain
/// column by an operator that orders or equates.
pub proof fn which_leaves_are_accepted(f: FilterDef)
    ensures
        leaf_refusal(f) is None <==> f.operator.parsed is Ok && ident::plain(f.field@) && (
        f.column matches Some(c) ==> f.value@ is Null && ident::plain(c@) && !(
        f.operator.parsed->Ok_0 is Like || f.operator.parsed->Ok_0 is In || f.operator.parsed->Ok_0
            is IsNull || f.operator.parsed->Ok_0 is IsNotNull)),
{
}

proof fn lemma_sorts(defs: Seq<SortFieldDef>)
    ensures
        sort_refusal(defs) is None <==> forall|i: int|
            0 <= i < defs.len() ==> ident::plain((#[trigger] defs[i]).field@),
    decreases defs.len(),
{
    if defs.len() > 0 {
        let init = defs.drop_last();
        lemma_sorts(init);
        assert(defs[defs.len() - 1] == defs.last());
        if sort_refusal(defs) is None {
            assert forall|i: int| 0 <= i < defs.len() implies ident::plain(
                (#[trigger] defs[i]).field@,
            ) by {
                if i < init.len() {
                    assert(init[i] == defs[i]);
                }
            }
        }
        if forall|i: int| 0 <= i < defs.len() ==> ident::plain((#[trigger] defs[i]).field@) {
            assert forall|i: int| 0 <= i < init.len() implies ident::plain(
                (#[trigger] init[i]).field@,
            ) by {
                assert(defs[i] == init[i]);
            }
        }
    }
}

/// Sort keys are accepted exactly where every one of them names a plain column,
/// and are then taken over one by one, each with its direction.
pub proof fn which_sorts_are_accepted(
    defs: Vec<SortFieldDef>,
    r: Result<Vec<SortField>, WaferError>,
)
    requires
        call_ensures(convert_sort, (defs,), r),
    ensures
        r is Ok <==> forall|i: int|
            0 <= i < defs@.len() ==> ident::plain((#[trigger] defs@[i]).field@),
        r is Ok ==> r->Ok_0@.len() == defs@.len() && forall|i: int|
            0 <= i < defs@.len() ==> (#[trigger] r->Ok_0@[i]).field@ == defs@[i].field@
                && r->Ok_0@[i].desc == defs@[i].desc,
{
    lemma_sorts(defs@);
}

proof fn lemma_flat(nodes: Seq<FilterNode>)
    ensures
        first_node_unflat(nodes) is None <==> forall|i: int|
            0 <= i < nodes.len() ==> (#[trigger] nodes[i]) is Leaf && nodes[i]->Leaf_0.column
                is None,
    decreases nodes.len(),
{
    if nodes.len() > 0 {
        let init = nodes.drop_last();
        lemma_flat(init);
        assert(nodes[nodes.len() - 1] == nodes.last());
        if first_node_unflat(nodes) is None {
            assert forall|i: int| 0 <= i < nodes.len() implies (#[trigger] nodes[i]) is Leaf
                && nodes[i]->Leaf_0.column is None by {
                if i < init.len() {
                    assert(init[i] == nodes[i]);
                }
            }
        }
        if forall|i: int|
            0 <= i < nodes.len() ==> (#[trigger] nodes[i]) is Leaf && nodes[i]->Leaf_0.column
                is None {
            assert forall|i: int| 0 <= i < init.len() implies (#[trigger] init[i]) is Leaf
                && init[i]->Leaf_0.column is None by {
                assert(nodes[i] == init[i]);
            }
        }
    }
}

/// A forest is taken as a flat list of filters exactly where it is accepted and
/// holds comparisons with values only.
pub proof fn which_forests_are_flat(nodes: Seq<FilterNode>)
    ensures
        filters_refusal(nodes) is None <==> walk(nodes, 1, 0) is Ok && forall|i: int|
            0 <= i < nodes.len() ==> (#[trigger] nodes[i]) is Leaf && nodes[i]->Leaf_0.column
                is None,
{
    lemma_flat(nodes);
}

} // verus!
