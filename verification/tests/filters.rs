use wafer_core::database::filter::{
    convert_filter_tree, flatten_leaves, FilterDef, FilterNode, FilterOp, FilterTree, OperatorName,
    MAX_FILTER_DEPTH, MAX_FILTER_NODES,
};
use wafer_core::error::ErrorCode;
use wafer_core::json::Json;

fn operator(text: &str) -> OperatorName {
    let parsed = match text {
        "eq" => Ok(FilterOp::Equal),
        "like" => Ok(FilterOp::Like),
        "gt" => Ok(FilterOp::GreaterThan),
        other => Err(format!("unknown filter operator: {other}")),
    };
    OperatorName { text: text.into(), parsed }
}

fn leaf(field: &str) -> FilterNode {
    FilterNode::Leaf(FilterDef {
        field: field.into(),
        operator: operator("eq"),
        value: Json::Int(1),
        column: None,
    })
}

#[test]
fn flat_leaves_convert() {
    let tree = convert_filter_tree(vec![leaf("a"), leaf("b")]).unwrap();
    assert_eq!(tree.len(), 2);
    let flat = flatten_leaves(&tree).unwrap();
    assert_eq!(flat.len(), 2);
    assert_eq!(flat[1].field, "b");
}

#[test]
fn top_level_empty_is_ok() {
    let tree = convert_filter_tree(vec![]).unwrap();
    assert!(tree.is_empty());
    assert!(flatten_leaves(&tree).unwrap().is_empty());
}

#[test]
fn group_is_rejected_by_flatten() {
    let tree = convert_filter_tree(vec![FilterNode::Any {
        any: vec![leaf("a")],
    }])
    .unwrap();
    let err = flatten_leaves(&tree).unwrap_err();
    assert_eq!(err.code, ErrorCode::InvalidArgument);
    assert_eq!(err.message, "operation does not support filter groups");
}

#[test]
fn empty_group_is_rejected() {
    let err = convert_filter_tree(vec![FilterNode::All { all: vec![] }]).unwrap_err();
    assert_eq!(err.code, ErrorCode::InvalidArgument);
    let err = convert_filter_tree(vec![FilterNode::Any { any: vec![] }]).unwrap_err();
    assert_eq!(err.code, ErrorCode::InvalidArgument);
    assert_eq!(err.message, "filter group must have at least one child");
}

#[test]
fn depth_over_limit_is_rejected() {
    let mut node = leaf("a");
    for _ in 0..(MAX_FILTER_DEPTH + 1) {
        node = FilterNode::All { all: vec![node] };
    }
    let err = convert_filter_tree(vec![node]).unwrap_err();
    assert_eq!(err.code, ErrorCode::InvalidArgument);
    assert_eq!(err.message, "filter tree too deep");
}

#[test]
fn node_count_over_limit_is_rejected() {
    let many: Vec<FilterNode> = (0..(MAX_FILTER_NODES + 1)).map(|_| leaf("a")).collect();
    let err = convert_filter_tree(vec![FilterNode::All { all: many }]).unwrap_err();
    assert_eq!(err.code, ErrorCode::InvalidArgument);
    assert_eq!(err.message, "filter tree has too many nodes");
}

#[test]
fn bad_operator_is_rejected() {
    let bad = FilterNode::Leaf(FilterDef {
        field: "a".into(),
        operator: operator("no_such_op"),
        value: Json::Int(1),
        column: None,
    });
    let err = convert_filter_tree(vec![bad]).unwrap_err();
    assert_eq!(err.code, ErrorCode::InvalidArgument);
    assert_eq!(err.message, "unknown filter operator: no_such_op");
}

#[test]
fn the_limits_themselves_are_accepted() {
    let mut node = leaf("a");
    for _ in 0..(MAX_FILTER_DEPTH - 1) {
        node = FilterNode::All { all: vec![node] };
    }
    assert!(convert_filter_tree(vec![node]).is_ok());
    let many: Vec<FilterNode> = (0..MAX_FILTER_NODES).map(|_| leaf("a")).collect();
    assert_eq!(convert_filter_tree(many).unwrap().len(), MAX_FILTER_NODES);
}

fn column_leaf(op: &str, value: Json, column: &str) -> FilterNode {
    FilterNode::Leaf(FilterDef {
        field: "a".into(),
        operator: operator(op),
        value,
        column: Some(column.into()),
    })
}

#[test]
fn column_leaves_are_held_to_their_rules() {
    let trees = convert_filter_tree(vec![column_leaf("gt", Json::Null, "b")]).unwrap();
    assert!(matches!(&trees[0], FilterTree::ColumnCompare(c) if c.column == "b"));
    assert_eq!(
        flatten_leaves(&trees).unwrap_err().message,
        "operation does not support column-to-column filters"
    );
    for (node, message) in [
        (
            column_leaf("gt", Json::Int(1), "b"),
            "a filter compares its field to either `value` or `column`, not both",
        ),
        (
            column_leaf("like", Json::Null, "b"),
            "filter operator \"like\" cannot compare two columns",
        ),
        (
            column_leaf("gt", Json::Null, "B"),
            "\"B\" is not a collection or column name (1 to 63 of: lowercase letters, digits and `_`)",
        ),
    ] {
        assert_eq!(convert_filter_tree(vec![node]).unwrap_err().message, message);
    }
}
