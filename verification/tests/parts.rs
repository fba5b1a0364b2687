use muxux_core::data::layout_expr::ParseErrorKind;
use muxux_core::data::parts::{DropReason, ExpandError, PartRegistry};
use muxux_core::types::session::{LayoutEntry, LayoutNode};
use muxux_core::types::tiles::{Tile, TileKind};

const SAMPLE_PARTS: &str = r#"# Parts Library

## pm
role: pm

## worker
role: worker

## curator
role: curator

## remote
role: remote

## rig
COL(remote 70%, worker 30%)

## dev-pair
ROW(worker, worker)

## dev-station
COL(pm 30%, dev-pair 70%)

## gpu-station
COL(rig 80%, curator 20%)
"#;

fn leaf(name: &str) -> LayoutNode {
    LayoutNode::Pane { agent: name.into() }
}

fn entry(node: LayoutNode, percent: Option<u32>) -> LayoutEntry {
    LayoutEntry { node, percent }
}

#[test]
fn parse_agents() {
    let reg = PartRegistry::from_markdown(SAMPLE_PARTS);
    let agents = reg.by_kind(TileKind::Agent);
    assert_eq!(agents.len(), 4);
    assert!(agents.iter().any(|t| t.name == "pm"));
    assert!(agents.iter().any(|t| t.name == "worker"));
    assert!(agents.iter().any(|t| t.name == "curator"));
    assert!(agents.iter().any(|t| t.name == "remote"));
}

#[test]
fn agent_has_role() {
    let reg = PartRegistry::from_markdown(SAMPLE_PARTS);
    let pm = reg.get("pm").unwrap();
    assert_eq!(pm.role.as_deref(), Some("pm"));
    assert_eq!(pm.kind, TileKind::Agent);
}

#[test]
fn parse_compositions() {
    let reg = PartRegistry::from_markdown(SAMPLE_PARTS);
    let comps = reg.by_kind(TileKind::Composition);
    assert_eq!(comps.len(), 2); // rig, dev-pair
    assert!(comps.iter().any(|t| t.name == "rig"));
    assert!(comps.iter().any(|t| t.name == "dev-pair"));
}

#[test]
fn composition_has_layout() {
    let reg = PartRegistry::from_markdown(SAMPLE_PARTS);
    let rig = reg.get("rig").unwrap();
    assert!(rig.layout.is_some());
    match rig.layout.as_ref().unwrap() {
        LayoutNode::Col { children } => {
            assert_eq!(children.len(), 2);
            assert_eq!(children[0].percent, Some(70));
        }
        _ => panic!("rig should be COL"),
    }
}

#[test]
fn parse_sessions() {
    let reg = PartRegistry::from_markdown(SAMPLE_PARTS);
    let sessions = reg.by_kind(TileKind::Session);
    assert_eq!(sessions.len(), 2); // dev-station, gpu-station
    assert!(sessions.iter().any(|t| t.name == "dev-station"));
    assert!(sessions.iter().any(|t| t.name == "gpu-station"));
}

#[test]
fn session_references_composition() {
    let reg = PartRegistry::from_markdown(SAMPLE_PARTS);
    let ds = reg.get("dev-station").unwrap();
    assert_eq!(ds.kind, TileKind::Session);
    // Layout should have dev-pair as a leaf reference
    match ds.layout.as_ref().unwrap() {
        LayoutNode::Col { children } => {
            assert_eq!(children.len(), 2);
            // Second child should be a Pane referencing dev-pair
            match &children[1].node {
                LayoutNode::Pane { agent } => assert_eq!(agent, "dev-pair"),
                _ => panic!("second child should be a Pane reference"),
            }
        }
        _ => panic!("dev-station should be COL"),
    }
}

#[test]
fn to_json_groups() {
    let reg = PartRegistry::from_markdown(SAMPLE_PARTS);
    let json: serde_json::Value = serde_json::from_str(&reg.to_json()).unwrap();
    assert_eq!(json["agents"].as_array().unwrap().len(), 4);
    assert_eq!(json["compositions"].as_array().unwrap().len(), 2);
    assert_eq!(json["sessions"].as_array().unwrap().len(), 2);
}

#[test]
fn expand_agent() {
    let reg = PartRegistry::from_markdown(SAMPLE_PARTS);
    let node = reg.expand("pm").unwrap();
    match node {
        LayoutNode::Pane { agent } => assert_eq!(agent, "pm"),
        _ => panic!("agent should expand to Pane"),
    }
}

#[test]
fn expand_composition() {
    let reg = PartRegistry::from_markdown(SAMPLE_PARTS);
    let node = reg.expand("rig").unwrap();
    match node {
        LayoutNode::Col { children } => {
            assert_eq!(children.len(), 2);
            // Leaves should still be agent names (remote, worker)
            match &children[0].node {
                LayoutNode::Pane { agent } => assert_eq!(agent, "remote"),
                _ => panic!("expected Pane"),
            }
        }
        _ => panic!("rig should expand to Col"),
    }
}

#[test]
fn expand_session_recursive() {
    let reg = PartRegistry::from_markdown(SAMPLE_PARTS);
    let node = reg.expand("dev-station").unwrap();
    // dev-station = COL(pm 30%, dev-pair 70%)
    // dev-pair = ROW(worker, worker)
    // So expanded: COL(pm 30%, ROW(worker, worker) 70%)
    match node {
        LayoutNode::Col { children } => {
            assert_eq!(children.len(), 2);
            match &children[0].node {
                LayoutNode::Pane { agent } => assert_eq!(agent, "pm"),
                _ => panic!("first child should be pm pane"),
            }
            match &children[1].node {
                LayoutNode::Row { children } => {
                    assert_eq!(children.len(), 2);
                }
                _ => panic!("second child should be Row (expanded dev-pair)"),
            }
        }
        _ => panic!("dev-station should expand to Col"),
    }
}

#[test]
fn get_nonexistent() {
    let reg = PartRegistry::from_markdown(SAMPLE_PARTS);
    assert!(reg.get("nonexistent").is_none());
    assert!(reg.expand("nonexistent").is_none());
}

#[test]
fn empty_input() {
    let reg = PartRegistry::from_markdown("");
    assert!(reg.parts.is_empty());
}

#[test]
fn malformed_body_skipped() {
    let input = "## bad-part\nthis is not a valid layout or role\n\n## good-pm\nrole: pm\n";
    let reg = PartRegistry::from_markdown(input);
    assert_eq!(reg.parts.len(), 1);
    assert_eq!(reg.parts[0].name, "good-pm");
}

#[test]
fn total_parts_count() {
    let reg = PartRegistry::from_markdown(SAMPLE_PARTS);
    assert_eq!(reg.parts.len(), 8); // 4 agents + 2 compositions + 2 sessions
}

#[test]
fn expand_session_exact_tree() {
    let reg = PartRegistry::from_markdown(SAMPLE_PARTS);
    let expected = LayoutNode::Col {
        children: vec![
            entry(
                LayoutNode::Col {
                    children: vec![
                        entry(leaf("remote"), Some(70)),
                        entry(leaf("worker"), Some(30)),
                    ],
                },
                Some(80),
            ),
            entry(leaf("curator"), Some(20)),
        ],
    };
    assert_eq!(reg.expand("gpu-station").unwrap(), expected);
    assert_eq!(reg.expand_checked("gpu-station").unwrap(), expected);
}

#[test]
fn classification_of_each_kind() {
    let input = "## pm\nrole: pm\n## remote\nrole:   far away  \n## worker\nrole: worker\n\
                 ## rig\nCOL(remote 70%, worker 30%)\n## desk\nrow(pm, rig, stranger)\n";
    let reg = PartRegistry::from_markdown(input);
    assert_eq!(reg.get("pm").unwrap().kind, TileKind::Agent);
    assert_eq!(reg.get("remote").unwrap().role.as_deref(), Some("far away"));
    assert_eq!(reg.get("rig").unwrap().kind, TileKind::Composition);
    assert!(reg.get("rig").unwrap().role.is_none());
    assert_eq!(reg.get("desk").unwrap().kind, TileKind::Session);
    let expected = LayoutNode::Row {
        children: vec![
            entry(leaf("pm"), None),
            entry(
                LayoutNode::Col {
                    children: vec![
                        entry(leaf("remote"), Some(70)),
                        entry(leaf("worker"), Some(30)),
                    ],
                },
                None,
            ),
            entry(leaf("stranger"), None),
        ],
    };
    assert_eq!(reg.expand("desk").unwrap(), expected);
}

#[test]
fn a_reference_deep_in_the_tree_promotes_the_part() {
    let input = "## a\nrole: a\n## inner\nROW(a, a)\n## outer\nCOL(a, ROW(a, COL(a, inner)))\n";
    let reg = PartRegistry::from_markdown(input);
    assert_eq!(reg.get("inner").unwrap().kind, TileKind::Composition);
    assert_eq!(reg.get("outer").unwrap().kind, TileKind::Session);
}

#[test]
fn headings_of_other_levels_and_text_before_the_first_part_do_not_count() {
    let input = "stray line\nrole: nobody\n# Title\n## one  \n### note\n\n  role: first\n\
                 ## two\n# again\n\n   COL(one 40%, one 60%)   \nrole is not here\n## three\n";
    let reg = PartRegistry::from_markdown(input);
    assert_eq!(reg.parts.len(), 2);
    assert_eq!(reg.parts[0].name, "one");
    assert_eq!(reg.parts[0].role.as_deref(), Some("first"));
    assert_eq!(reg.parts[1].name, "two");
    assert_eq!(reg.parts[1].kind, TileKind::Composition);
}

#[test]
fn bodies_that_define_nothing_vanish() {
    let input = "## empty\n\n## prose\nwords\nROW(a, b)\n## broken\nROW(a,, b)\n\
                 ## open\nCOL(a, b\n## spaced\nROW (a)\n## kept\nrole: k\r\n";
    let reg = PartRegistry::from_markdown(input);
    assert_eq!(reg.parts.len(), 1);
    assert_eq!(reg.parts[0].name, "kept");
    assert_eq!(reg.parts[0].role.as_deref(), Some("k"));
}

#[test]
fn the_first_of_two_parts_with_one_name_is_kept() {
    let input = "## twin\nrole: first\n## twin\nrole: second\n";
    let reg = PartRegistry::from_markdown(input);
    assert_eq!(reg.parts.len(), 1);
    assert_eq!(reg.get("twin").unwrap().role.as_deref(), Some("first"));
}

#[test]
fn names_are_unique_in_the_registry() {
    let (reg, dropped) = PartRegistry::from_markdown_with_report("## a\nrole: x\n## a\nrole: y");
    assert_eq!(reg.parts.len(), 1);
    assert_eq!(reg.parts[0].name, "a");
    assert_eq!(reg.parts[0].role.as_deref(), Some("x"));
    assert_eq!(dropped.len(), 1);
    assert_eq!(dropped[0].name, "a");
    assert!(matches!(dropped[0].reason, DropReason::DuplicateName));
}

#[test]
fn a_later_part_of_a_taken_name_is_dropped_whatever_it_defines() {
    let input = "## w\nrole: w\n## box\nROW(w, w)\n## box\nrole: late\n## w\nCOL(box, box)\n\
                 ## box\nnothing\n## top\nCOL(box, w)\n";
    let (reg, dropped) = PartRegistry::from_markdown_with_report(input);
    let names: Vec<&str> = reg.parts.iter().map(|t| t.name.as_str()).collect();
    assert_eq!(names, vec!["w", "box", "top"]);
    assert_eq!(reg.get("w").unwrap().kind, TileKind::Agent);
    assert_eq!(reg.get("box").unwrap().kind, TileKind::Composition);
    assert_eq!(reg.get("top").unwrap().kind, TileKind::Session);
    let lost: Vec<&str> = dropped.iter().map(|d| d.name.as_str()).collect();
    assert_eq!(lost, vec!["box", "w", "box"]);
    assert!(matches!(dropped[0].reason, DropReason::DuplicateName));
    assert!(matches!(dropped[1].reason, DropReason::DuplicateName));
    assert!(matches!(dropped[2].reason, DropReason::NotAPart));
    assert_eq!(reg.parts.len() + dropped.len(), 6);
}

#[test]
fn a_name_whose_first_body_defines_nothing_is_still_free() {
    let input = "## a\nwords\n## a\nrole: second\n## a\nrole: third\n";
    let (reg, dropped) = PartRegistry::from_markdown_with_report(input);
    assert_eq!(reg.parts.len(), 1);
    assert_eq!(reg.get("a").unwrap().role.as_deref(), Some("second"));
    assert_eq!(dropped.len(), 2);
    assert!(matches!(dropped[0].reason, DropReason::NotAPart));
    assert!(matches!(dropped[1].reason, DropReason::DuplicateName));
}

#[test]
fn a_part_that_refers_to_itself_has_no_expansion() {
    let input = "## w\nrole: w\n## loop\nROW(w, loop)\n## ping\nCOL(pong)\n## pong\nCOL(w, ping)\n";
    let reg = PartRegistry::from_markdown(input);
    assert_eq!(reg.get("loop").unwrap().kind, TileKind::Session);
    assert!(reg.expand("loop").is_none());
    assert_eq!(reg.expand_checked("loop").unwrap_err(), ExpandError::Cycle);
    assert_eq!(reg.expand_checked("ping").unwrap_err(), ExpandError::Cycle);
    assert_eq!(reg.expand_checked("pong").unwrap_err(), ExpandError::Cycle);
    assert_eq!(reg.expand_checked("nobody").unwrap_err(), ExpandError::UnknownPart);
}

#[test]
fn a_part_used_twice_is_no_cycle() {
    let input = "## w\nrole: w\n## pair\nROW(w, w)\n## four\nCOL(pair, pair)\n## eight\nROW(four, four)\n";
    let reg = PartRegistry::from_markdown(input);
    let pair = LayoutNode::Row { children: vec![entry(leaf("w"), None), entry(leaf("w"), None)] };
    let four = LayoutNode::Col {
        children: vec![entry(pair.clone(), None), entry(pair.clone(), None)],
    };
    let eight = LayoutNode::Row {
        children: vec![entry(four.clone(), None), entry(four.clone(), None)],
    };
    assert_eq!(reg.expand("eight").unwrap(), eight);
}

#[test]
fn a_registry_built_by_hand() {
    let reg = PartRegistry {
        parts: vec![
            Tile { name: "bare".into(), kind: TileKind::Composition, role: None, layout: None },
            Tile {
                name: "odd".into(),
                kind: TileKind::Agent,
                role: None,
                layout: Some(leaf("x")),
            },
            Tile {
                name: "uses".into(),
                kind: TileKind::Session,
                role: None,
                layout: Some(LayoutNode::Row {
                    children: vec![entry(leaf("odd"), Some(10)), entry(leaf("bare"), None)],
                }),
            },
        ],
    };
    assert_eq!(reg.expand_checked("bare").unwrap_err(), ExpandError::NoLayout);
    assert_eq!(reg.expand("odd").unwrap(), leaf("odd"));
    assert_eq!(
        reg.expand("uses").unwrap(),
        LayoutNode::Row { children: vec![entry(leaf("odd"), Some(10)), entry(leaf("bare"), None)] }
    );
    assert_eq!(
        reg.to_json(),
        r#"{"agents":[{"name":"odd","role":null}],"compositions":[{"name":"bare"}],"sessions":[{"name":"uses"}]}"#
    );
    assert!(PartRegistry::default().parts.is_empty());
    assert_eq!(reg.clone().parts.len(), 3);
}

#[test]
fn to_json_text_and_escapes() {
    let reg = PartRegistry::from_markdown("## a\"b\nrole: tab\there\\\n## c\nrole: d\n## e\nROW(c)\n");
    let text = reg.to_json();
    assert_eq!(
        text,
        r#"{"agents":[{"name":"a\"b","role":"tab\there\\"},{"name":"c","role":"d"}],"compositions":[{"name":"e"}],"sessions":[]}"#
    );
    let json: serde_json::Value = serde_json::from_str(&text).unwrap();
    assert_eq!(json["agents"][0]["name"].as_str(), Some("a\"b"));
    assert_eq!(json["agents"][0]["role"].as_str(), Some("tab\there\\"));
    assert_eq!(
        PartRegistry::from_markdown("").to_json(),
        r#"{"agents":[],"compositions":[],"sessions":[]}"#
    );
}

#[test]
fn report_names_each_dropped_part_with_its_cause() {
    let input = "## empty\n\n## prose\nwords\n## broken\nROW(a,, b)\n## kept\nrole: k\n## last\n";
    let (reg, dropped) = PartRegistry::from_markdown_with_report(input);
    assert_eq!(reg.parts.len(), 1);
    assert_eq!(reg.parts[0].name, "kept");
    let names: Vec<&str> = dropped.iter().map(|d| d.name.as_str()).collect();
    assert_eq!(names, vec!["empty", "prose", "broken", "last"]);
    assert!(matches!(dropped[0].reason, DropReason::Blank));
    assert!(matches!(dropped[1].reason, DropReason::NotAPart));
    match &dropped[2].reason {
        DropReason::BadLayout(error) => {
            assert_eq!(error.kind, ParseErrorKind::MissingIdentifier);
            assert_eq!(error.position, 6);
        }
        other => panic!("expected a layout that does not parse, got {:?}", other),
    }
    assert!(matches!(dropped[3].reason, DropReason::Blank));
    let (_, none) = PartRegistry::from_markdown_with_report(SAMPLE_PARTS);
    assert!(none.is_empty());
}
