use muxux_core::layout::snapshot::{diff, from_panes};
use muxux_core::types::session::{LayoutEntry, LayoutNode, TmuxPane};

fn pane(id: &str, w: u32, h: u32, top: u32, left: u32, agent: Option<&str>) -> TmuxPane {
    TmuxPane {
        id: id.into(),
        index: 0,
        width: w,
        height: h,
        top,
        left,
        agent: agent.map(|a| a.into()),
    }
}

fn leaf(name: &str) -> LayoutNode {
    LayoutNode::Pane { agent: name.into() }
}

fn entry(node: LayoutNode, percent: u32) -> LayoutEntry {
    LayoutEntry { node, percent: Some(percent) }
}

#[test]
fn single_pane_becomes_leaf() {
    let panes = vec![pane("%0", 120, 40, 0, 0, Some("pilot"))];
    let layout = from_panes(&panes);
    assert_eq!(
        layout,
        LayoutNode::Pane {
            agent: "pilot".into()
        }
    );
}

#[test]
fn two_side_by_side_panes_become_row() {
    let panes = vec![
        pane("%0", 60, 40, 0, 0, Some("left")),
        pane("%1", 60, 40, 0, 60, Some("right")),
    ];
    let layout = from_panes(&panes);
    match &layout {
        LayoutNode::Row { children } => {
            assert_eq!(children.len(), 2);
        }
        other => panic!("expected Row, got {:?}", other),
    }
}

#[test]
fn two_stacked_panes_become_col() {
    let panes = vec![
        pane("%0", 120, 20, 0, 0, Some("top")),
        pane("%1", 120, 20, 20, 0, Some("bottom")),
    ];
    let layout = from_panes(&panes);
    match &layout {
        LayoutNode::Col { children } => {
            assert_eq!(children.len(), 2);
        }
        other => panic!("expected Col, got {:?}", other),
    }
}

#[test]
fn empty_panes_returns_empty_leaf() {
    let layout = from_panes(&[]);
    assert_eq!(
        layout,
        LayoutNode::Pane {
            agent: String::new()
        }
    );
}

#[test]
fn percentages_computed() {
    let panes = vec![
        pane("%0", 30, 40, 0, 0, Some("left")),
        pane("%1", 90, 40, 0, 30, Some("right")),
    ];
    let layout = from_panes(&panes);
    match &layout {
        LayoutNode::Row { children } => {
            assert_eq!(children.len(), 2);
            assert_eq!(children[0].percent, Some(25)); // 30/120 * 100 = 25
            assert_eq!(children[1].percent, Some(75)); // 90/120 * 100 = 75
        }
        other => panic!("expected Row, got {:?}", other),
    }
}

#[test]
fn diff_same_layout_no_difference() {
    let a = LayoutNode::Pane {
        agent: "pilot".into(),
    };
    let b = LayoutNode::Pane {
        agent: "pilot".into(),
    };
    assert!(!diff(&a, &b));
}

#[test]
fn diff_different_layouts() {
    let a = LayoutNode::Pane {
        agent: "pilot".into(),
    };
    let b = LayoutNode::Pane {
        agent: "worker".into(),
    };
    assert!(diff(&a, &b));
}

#[test]
fn diff_row_vs_col() {
    let a = LayoutNode::Row {
        children: vec![LayoutEntry {
            node: LayoutNode::Pane {
                agent: "x".into(),
            },
            percent: Some(100),
        }],
    };
    let b = LayoutNode::Col {
        children: vec![LayoutEntry {
            node: LayoutNode::Pane {
                agent: "x".into(),
            },
            percent: Some(100),
        }],
    };
    assert!(diff(&a, &b));
}

#[test]
fn agent_none_uses_empty_string() {
    let panes = vec![pane("%0", 120, 40, 0, 0, None)];
    let layout = from_panes(&panes);
    assert_eq!(
        layout,
        LayoutNode::Pane {
            agent: String::new()
        }
    );
}

#[test]
fn nested_layout_reconstruction() {
    // Three panes: two on top row (side by side), one on bottom spanning full width.
    let panes = vec![
        pane("%0", 60, 20, 0, 0, Some("tl")),
        pane("%1", 60, 20, 0, 60, Some("tr")),
        pane("%2", 120, 20, 20, 0, Some("bottom")),
    ];
    let layout = from_panes(&panes);
    match &layout {
        LayoutNode::Col { children } => {
            assert_eq!(children.len(), 2);
            // Top row should be a Row with 2 children.
            match &children[0].node {
                LayoutNode::Row { children: row_kids } => {
                    assert_eq!(row_kids.len(), 2);
                }
                other => panic!("expected Row for top group, got {:?}", other),
            }
            // Bottom should be a single pane.
            match &children[1].node {
                LayoutNode::Pane { agent } => {
                    assert_eq!(agent, "bottom");
                }
                other => panic!("expected Pane for bottom, got {:?}", other),
            }
        }
        other => panic!("expected Col, got {:?}", other),
    }
}

#[test]
fn nested_layout_exact_tree() {
    let panes = vec![
        pane("%2", 120, 20, 20, 0, Some("bottom")),
        pane("%1", 60, 20, 0, 60, Some("tr")),
        pane("%0", 60, 20, 0, 0, Some("tl")),
    ];
    let expected = LayoutNode::Col {
        children: vec![
            entry(
                LayoutNode::Row {
                    children: vec![entry(leaf("tl"), 50), entry(leaf("tr"), 50)],
                },
                50,
            ),
            entry(leaf("bottom"), 50),
        ],
    };
    assert_eq!(from_panes(&panes), expected);
}

#[test]
fn bands_are_ordered_by_ascending_top() {
    let panes = vec![
        pane("%0", 80, 10, 30, 0, Some("c")),
        pane("%1", 80, 10, 0, 0, Some("a")),
        pane("%2", 80, 20, 10, 0, Some("b")),
    ];
    let expected = LayoutNode::Col {
        children: vec![entry(leaf("a"), 25), entry(leaf("b"), 50), entry(leaf("c"), 25)],
    };
    assert_eq!(from_panes(&panes), expected);
}

#[test]
fn percent_is_rounded_down() {
    let panes = vec![
        pane("%0", 10, 40, 0, 0, Some("a")),
        pane("%1", 10, 40, 0, 10, Some("b")),
        pane("%2", 10, 40, 0, 20, Some("c")),
    ];
    let expected = LayoutNode::Row {
        children: vec![entry(leaf("a"), 33), entry(leaf("b"), 33), entry(leaf("c"), 33)],
    };
    assert_eq!(from_panes(&panes), expected);
}

#[test]
fn panes_sharing_both_edges_fall_back_to_flat_row() {
    let panes = vec![
        pane("%0", 40, 10, 5, 5, Some("first")),
        pane("%1", 20, 10, 5, 5, None),
    ];
    let expected = LayoutNode::Row {
        children: vec![entry(leaf("first"), 100), entry(leaf(""), 50)],
    };
    assert_eq!(from_panes(&panes), expected);
}

#[test]
fn zero_total_gives_zero_percent() {
    let panes = vec![
        pane("%0", 0, 10, 0, 7, Some("a")),
        pane("%1", 0, 10, 0, 7, Some("b")),
    ];
    let expected = LayoutNode::Row {
        children: vec![entry(leaf("a"), 0), entry(leaf("b"), 0)],
    };
    assert_eq!(from_panes(&panes), expected);
}

#[test]
fn largest_coordinates_do_not_overflow() {
    let panes = vec![
        pane("%0", 1, u32::MAX, u32::MAX, 0, Some("low")),
        pane("%1", 1, u32::MAX, 0, 0, Some("high")),
    ];
    let expected = LayoutNode::Col {
        children: vec![entry(leaf("high"), 50), entry(leaf("low"), 50)],
    };
    assert_eq!(from_panes(&panes), expected);
}

#[test]
fn diff_sees_a_changed_share() {
    let a = LayoutNode::Row { children: vec![entry(leaf("x"), 40)] };
    let b = LayoutNode::Row { children: vec![entry(leaf("x"), 60)] };
    assert!(diff(&a, &b));
    assert!(!diff(&a, &a.clone()));
}
