use muxux_core::data::layout_expr::parse_layout_expr;
use muxux_core::layout::capture::{
    capture_all_sessions, capture_all_sessions_with_report, capture_session, SessionTexts,
    SkipReason,
};
use muxux_core::types::session::LayoutNode;

// Helper: build a pane line in the format parse_list_panes expects
// Format: %id:index:width:height:top:left
fn pane_line(id: &str, index: u32, w: u32, h: u32, top: u32, left: u32) -> String {
    format!("{}:{}:{}:{}:{}:{}", id, index, w, h, top, left)
}

#[test]
fn single_pane_session_produces_leaf() {
    let output = pane_line("%0", 0, 120, 40, 0, 0);
    let result = capture_session("test", &output, None, 1000).unwrap();
    assert!(result.changed);
    assert_eq!(result.session, "test");
    assert_eq!(result.timestamp_ms, 1000);
    match &result.layout {
        LayoutNode::Pane { agent } => assert_eq!(agent, ""),
        other => panic!("expected Pane, got {:?}", other),
    }
}

#[test]
fn two_horizontal_panes_produce_row() {
    let output = format!(
        "{}\n{}",
        pane_line("%0", 0, 60, 40, 0, 0),
        pane_line("%1", 1, 60, 40, 0, 60),
    );
    let result = capture_session("test", &output, None, 1000).unwrap();
    assert!(result.changed);
    assert!(result.layout_expr.contains("ROW"));
    match &result.layout {
        LayoutNode::Row { children } => assert_eq!(children.len(), 2),
        other => panic!("expected Row, got {:?}", other),
    }
}

#[test]
fn two_vertical_panes_produce_col() {
    let output = format!(
        "{}\n{}",
        pane_line("%0", 0, 120, 20, 0, 0),
        pane_line("%1", 1, 120, 20, 20, 0),
    );
    let result = capture_session("test", &output, None, 1000).unwrap();
    assert!(result.changed);
    assert!(result.layout_expr.contains("COL"));
    match &result.layout {
        LayoutNode::Col { children } => assert_eq!(children.len(), 2),
        other => panic!("expected Col, got {:?}", other),
    }
}

#[test]
fn nested_layout_two_top_one_bottom() {
    // Two panes on top (side by side), one on bottom spanning full width
    let output = format!(
        "{}\n{}\n{}",
        pane_line("%0", 0, 60, 20, 0, 0),
        pane_line("%1", 1, 60, 20, 0, 60),
        pane_line("%2", 2, 120, 20, 20, 0),
    );
    let result = capture_session("test", &output, None, 1000).unwrap();
    assert!(result.changed);
    match &result.layout {
        LayoutNode::Col { children } => {
            assert_eq!(children.len(), 2);
            match &children[0].node {
                LayoutNode::Row { children: row_kids } => {
                    assert_eq!(row_kids.len(), 2);
                }
                other => panic!("expected Row for top group, got {:?}", other),
            }
            match &children[1].node {
                LayoutNode::Pane { .. } => {}
                other => panic!("expected Pane for bottom, got {:?}", other),
            }
        }
        other => panic!("expected Col, got {:?}", other),
    }
}

#[test]
fn no_panes_returns_error() {
    let result = capture_session("test", "", None, 1000);
    assert!(result.is_err());
    assert!(result.unwrap_err().contains("No panes"));
}

#[test]
fn same_layout_changed_is_false() {
    let output = pane_line("%0", 0, 120, 40, 0, 0);
    let first = capture_session("test", &output, None, 1000).unwrap();
    let second =
        capture_session("test", &output, Some(&first.layout_expr), 2000).unwrap();
    assert!(!second.changed);
}

#[test]
fn different_layout_changed_is_true() {
    let output1 = pane_line("%0", 0, 120, 40, 0, 0);
    let output2 = format!(
        "{}\n{}",
        pane_line("%0", 0, 60, 40, 0, 0),
        pane_line("%1", 1, 60, 40, 0, 60),
    );
    let first = capture_session("test", &output1, None, 1000).unwrap();
    let second =
        capture_session("test", &output2, Some(&first.layout_expr), 2000).unwrap();
    assert!(second.changed);
}

#[test]
fn no_previous_layout_changed_is_true() {
    let output = pane_line("%0", 0, 120, 40, 0, 0);
    let result = capture_session("test", &output, None, 1000).unwrap();
    assert!(result.changed);
}

#[test]
fn capture_all_sessions_collects_results() {
    let sessions = vec!["s1".to_string(), "s2".to_string(), "s3".to_string()];
    let mut pane_outputs = SessionTexts::new();
    pane_outputs.insert("s1".to_string(), pane_line("%0", 0, 120, 40, 0, 0));
    pane_outputs.insert("s2".to_string(), format!(
        "{}\n{}",
        pane_line("%0", 0, 60, 40, 0, 0),
        pane_line("%1", 1, 60, 40, 0, 60),
    ));
    // s3 has no pane output — should be skipped
    let previous_layouts = SessionTexts::new();

    let results = capture_all_sessions(&sessions, &pane_outputs, &previous_layouts, 5000);
    assert_eq!(results.len(), 2);
    assert_eq!(results[0].session, "s1");
    assert_eq!(results[1].session, "s2");
}

#[test]
fn capture_session_produces_valid_expr() {
    // Single pane capture produces a layout expression string.
    // Since tmux panes have no agent name, the expression is an
    // empty string for a single pane — which is the expected
    // serialization of Pane { agent: "" }.
    let output = pane_line("%0", 0, 120, 40, 0, 0);
    let result = capture_session("test", &output, None, 1000).unwrap();
    // The layout itself should be correct
    assert_eq!(
        result.layout,
        LayoutNode::Pane { agent: String::new() }
    );
    // The expression string is the serialized form
    assert_eq!(result.layout_expr, "");
}

#[test]
fn layout_expr_is_parseable() {
    // Multi-pane layout expressions can be parsed (structural test).
    // Agent names from tmux are empty, so exact round-trip equality
    // isn't expected for entries with percents, but the expression is
    // always syntactically valid.
    let output = format!(
        "{}\n{}",
        pane_line("%0", 0, 60, 40, 0, 0),
        pane_line("%1", 1, 60, 40, 0, 60),
    );
    let result = capture_session("test", &output, None, 1000).unwrap();
    let reparsed = parse_layout_expr(&result.layout_expr);
    assert!(reparsed.is_ok(), "layout expr should parse: {}", result.layout_expr);
    // Verify it's still a Row at the top level
    match reparsed.unwrap() {
        LayoutNode::Row { children } => assert_eq!(children.len(), 2),
        other => panic!("expected Row, got {:?}", other),
    }
}

#[test]
fn capture_writes_the_expression_of_the_layout() {
    let output = format!(
        "{}\n{}\n{}",
        pane_line("%0", 0, 60, 20, 0, 0),
        pane_line("%1", 1, 60, 20, 0, 60),
        pane_line("%2", 2, 120, 20, 20, 0),
    );
    let result = capture_session("main", &output, Some("COL(a, b)"), 42).unwrap();
    assert_eq!(result.layout_expr, "COL(ROW( 50%,  50%) 50%,  50%)");
    assert!(result.changed);
    assert_eq!(result.timestamp_ms, 42);
}

#[test]
fn no_panes_message_names_the_session() {
    let error = capture_session("work", "not a pane line\n", None, 1).unwrap_err();
    assert_eq!(error, "No panes found for session 'work'");
}

#[test]
fn malformed_lines_are_passed_over() {
    let output = "garbage\n%0:0:120:40:0:0\n%1:1:x:40:0:0\n%2:2:1:2:3\n\n";
    let result = capture_session("s", output, None, 7).unwrap();
    assert_eq!(result.layout, LayoutNode::Pane { agent: String::new() });
}

#[test]
fn capture_all_uses_previous_expression_and_skips_failures() {
    let sessions = vec!["a".to_string(), "b".to_string(), "c".to_string(), "a".to_string()];
    let mut pane_outputs = SessionTexts::new();
    pane_outputs.insert("a".to_string(), pane_line("%0", 0, 120, 40, 0, 0));
    pane_outputs.insert("b".to_string(), String::new());
    pane_outputs.insert("c".to_string(), pane_line("%3", 0, 10, 10, 0, 0));
    let mut previous = SessionTexts::new();
    previous.insert("a".to_string(), String::new());
    previous.insert("c".to_string(), "ROW(x, y)".to_string());

    let results = capture_all_sessions(&sessions, &pane_outputs, &previous, 9);
    assert_eq!(results.len(), 3);
    assert_eq!(results[0].session, "a");
    assert!(!results[0].changed);
    assert_eq!(results[1].session, "c");
    assert!(results[1].changed);
    assert_eq!(results[2].session, "a");
    assert_eq!(results[2].timestamp_ms, 9);
}

#[test]
fn session_texts_replace_and_look_up() {
    let mut texts = SessionTexts::new();
    assert!(texts.get("s").is_none());
    texts.insert("s".to_string(), "one".to_string());
    texts.insert("s".to_string(), "two".to_string());
    assert_eq!(texts.get("s").map(|t| t.as_str()), Some("two"));
    assert!(texts.get("t").is_none());
}

#[test]
fn report_names_each_session_left_out() {
    let sessions = vec!["s1".to_string(), "s2".to_string(), "s3".to_string()];
    let mut pane_outputs = SessionTexts::new();
    pane_outputs.insert("s1".to_string(), pane_line("%0", 0, 120, 40, 0, 0));
    pane_outputs.insert("s2".to_string(), "nothing to see".to_string());
    let previous = SessionTexts::new();
    let (results, skipped) =
        capture_all_sessions_with_report(&sessions, &pane_outputs, &previous, 5000);
    assert_eq!(results.len(), 1);
    assert_eq!(results[0].session, "s1");
    assert_eq!(skipped.len(), 2);
    assert_eq!(skipped[0].session, "s2");
    assert_eq!(skipped[0].reason, SkipReason::NoPanes);
    assert_eq!(skipped[1].session, "s3");
    assert_eq!(skipped[1].reason, SkipReason::NoPaneOutput);
    assert_eq!(results.len() + skipped.len(), sessions.len());
}
