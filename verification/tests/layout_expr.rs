use muxux_core::data::layout_expr::{
    parse_layout_expr, serialize_layout_expr, ParseErrorKind,
};
use muxux_core::types::session::{LayoutEntry, LayoutNode};

fn leaf(name: &str) -> LayoutNode {
    LayoutNode::Pane { agent: name.into() }
}

fn entry(node: LayoutNode, percent: Option<u32>) -> LayoutEntry {
    LayoutEntry { node, percent }
}

fn row(children: Vec<LayoutEntry>) -> LayoutNode {
    LayoutNode::Row { children }
}

fn col(children: Vec<LayoutEntry>) -> LayoutNode {
    LayoutNode::Col { children }
}

fn failure(text: &str) -> (ParseErrorKind, usize, String) {
    let error = parse_layout_expr(text).unwrap_err();
    (error.kind, error.position, error.token)
}

#[test]
fn parse_a_column_with_shares() {
    assert_eq!(
        parse_layout_expr("COL(remote 70%, worker 30%)").unwrap(),
        col(vec![entry(leaf("remote"), Some(70)), entry(leaf("worker"), Some(30))])
    );
}

#[test]
fn parse_nested_groups_in_any_case_and_spacing() {
    assert_eq!(
        parse_layout_expr("  row( a ,Col(b 5%,c)\t40% , d)\n").unwrap(),
        row(vec![
            entry(leaf("a"), None),
            entry(col(vec![entry(leaf("b"), Some(5)), entry(leaf("c"), None)]), Some(40)),
            entry(leaf("d"), None),
        ])
    );
}

#[test]
fn parse_a_bare_name() {
    assert_eq!(parse_layout_expr("pilot").unwrap(), leaf("pilot"));
    assert_eq!(parse_layout_expr(" ROW ").unwrap(), leaf("ROW"));
    assert_eq!(parse_layout_expr("50%").unwrap(), leaf("50%"));
}

#[test]
fn serialize_is_canonical() {
    let tree = row(vec![
        entry(leaf("a"), None),
        entry(col(vec![entry(leaf("b"), Some(5)), entry(leaf("c"), None)]), Some(40)),
        entry(leaf("d"), Some(0)),
    ]);
    assert_eq!(serialize_layout_expr(&tree), "ROW(a, COL(b 5%, c) 40%, d 0%)");
    assert_eq!(serialize_layout_expr(&leaf("pilot")), "pilot");
    assert_eq!(serialize_layout_expr(&leaf("")), "");
    assert_eq!(serialize_layout_expr(&row(vec![])), "ROW()");
    assert_eq!(
        serialize_layout_expr(&col(vec![entry(leaf("x"), Some(4294967295))])),
        "COL(x 4294967295%)"
    );
}

#[test]
fn round_trip_of_named_trees() {
    let trees = vec![
        leaf("pilot"),
        row(vec![entry(leaf("ROW"), Some(100))]),
        col(vec![
            entry(row(vec![entry(leaf("tl"), Some(50)), entry(leaf("tr"), Some(50))]), Some(50)),
            entry(leaf("bottom-1"), None),
            entry(col(vec![entry(row(vec![entry(leaf("x%"), Some(7))]), None)]), Some(4294967295)),
        ]),
    ];
    for tree in trees {
        let text = serialize_layout_expr(&tree);
        assert_eq!(parse_layout_expr(&text).unwrap(), tree);
    }
}

#[test]
fn round_trip_fails_for_unnamed_leaves() {
    let unnamed = leaf("");
    assert!(parse_layout_expr(&serialize_layout_expr(&unnamed)).is_err());
    let tree = row(vec![entry(leaf(""), Some(50)), entry(leaf(""), Some(50))]);
    let text = serialize_layout_expr(&tree);
    assert_eq!(text, "ROW( 50%,  50%)");
    assert_eq!(
        parse_layout_expr(&text).unwrap(),
        row(vec![entry(leaf("50%"), None), entry(leaf("50%"), None)])
    );
}

#[test]
fn unbalanced_parentheses() {
    assert_eq!(failure("ROW(a, b"), (ParseErrorKind::UnbalancedParens, 8, String::new()));
    assert_eq!(failure("ROW(a, "), (ParseErrorKind::UnbalancedParens, 7, String::new()));
    assert_eq!(failure("ROW(a))"), (ParseErrorKind::UnbalancedParens, 6, ")".to_string()));
    assert_eq!(failure("COL(a 5%"), (ParseErrorKind::UnbalancedParens, 8, String::new()));
    assert_eq!(failure("ROW(a(b))"), (ParseErrorKind::UnbalancedParens, 5, "(".to_string()));
    assert_eq!(failure("COL(ROW(a)"), (ParseErrorKind::UnbalancedParens, 10, String::new()));
}

#[test]
fn missing_identifier() {
    assert_eq!(failure(""), (ParseErrorKind::MissingIdentifier, 0, String::new()));
    assert_eq!(failure("   "), (ParseErrorKind::MissingIdentifier, 3, String::new()));
    assert_eq!(failure("ROW()"), (ParseErrorKind::MissingIdentifier, 4, ")".to_string()));
    assert_eq!(failure("ROW(a,,b)"), (ParseErrorKind::MissingIdentifier, 6, ",".to_string()));
    assert_eq!(failure("ROW(a, )"), (ParseErrorKind::MissingIdentifier, 7, ")".to_string()));
    assert_eq!(failure("(a)"), (ParseErrorKind::MissingIdentifier, 0, "(".to_string()));
    assert_eq!(failure(", a"), (ParseErrorKind::MissingIdentifier, 0, ",".to_string()));
}

#[test]
fn invalid_percent() {
    assert_eq!(failure("ROW(a b)"), (ParseErrorKind::InvalidPercent, 6, "b".to_string()));
    assert_eq!(failure("ROW(a 50)"), (ParseErrorKind::InvalidPercent, 6, "50".to_string()));
    assert_eq!(failure("ROW(a x5%)"), (ParseErrorKind::InvalidPercent, 6, "x5%".to_string()));
    assert_eq!(failure("ROW(a 5 %)"), (ParseErrorKind::InvalidPercent, 6, "5".to_string()));
    assert_eq!(failure("ROW(a +5%)"), (ParseErrorKind::InvalidPercent, 6, "+5%".to_string()));
    assert_eq!(
        failure("ROW(a 4294967296%)"),
        (ParseErrorKind::InvalidPercent, 6, "4294967296%".to_string())
    );
    assert_eq!(
        parse_layout_expr("ROW(a 4294967295%)").unwrap(),
        row(vec![entry(leaf("a"), Some(4294967295))])
    );
}

#[test]
fn trailing_input() {
    assert_eq!(failure("ROW(a) b"), (ParseErrorKind::TrailingInput, 7, "b".to_string()));
    assert_eq!(failure("a b"), (ParseErrorKind::TrailingInput, 2, "b".to_string()));
    assert_eq!(failure("ROW(a 5% b)"), (ParseErrorKind::TrailingInput, 9, "b".to_string()));
    assert_eq!(failure("ROW(a) 50%"), (ParseErrorKind::TrailingInput, 7, "50%".to_string()));
}

#[test]
fn positions_count_characters() {
    assert_eq!(failure("ROW(é ü)"), (ParseErrorKind::InvalidPercent, 6, "ü".to_string()));
}

#[test]
fn message_names_kind_position_and_token() {
    let error = parse_layout_expr("ROW(a,,b)").unwrap_err();
    assert_eq!(error.message(), "missing identifier at position 6: ','");
    assert_eq!(
        parse_layout_expr("ROW(a").unwrap_err().message(),
        "unbalanced parentheses at position 5: ''"
    );
    assert_eq!(
        parse_layout_expr("ROW(a 1x)").unwrap_err().message(),
        "invalid percent at position 6: '1x'"
    );
    assert_eq!(
        parse_layout_expr("a, b").unwrap_err().message(),
        "unexpected input at position 1: ','"
    );
}
