use muxux_core::layout::targeting::{resolve, validate_format};
use muxux_core::types::agent::{Agent, AgentStatus, AgentType, HealthState};

fn make_agent(name: &str, session: Option<&str>) -> Agent {
    Agent {
        name: name.into(),
        role: "worker".into(),
        agent_type: AgentType::Claude,
        task: None,
        path: "/tmp".into(),
        status: AgentStatus::Idle,
        status_notes: String::new(),
        health: HealthState::Healthy,
        last_heartbeat_ms: None,
        session: session.map(|s| s.into()),
    }
}

#[test]
fn p_notation_window_only() {
    let agents: Vec<Agent> = vec![];
    assert_eq!(resolve("P0", &agents).unwrap(), ":0.0");
    assert_eq!(resolve("P3", &agents).unwrap(), ":3.0");
}

#[test]
fn p_notation_window_and_pane() {
    let agents: Vec<Agent> = vec![];
    assert_eq!(resolve("P0.1", &agents).unwrap(), ":0.1");
    assert_eq!(resolve("P2.3", &agents).unwrap(), ":2.3");
}

#[test]
fn p_notation_lowercase() {
    let agents: Vec<Agent> = vec![];
    assert_eq!(resolve("p1.2", &agents).unwrap(), ":1.2");
}

#[test]
fn p_notation_invalid_window() {
    let agents: Vec<Agent> = vec![];
    assert!(resolve("Pabc", &agents).is_err());
}

#[test]
fn p_notation_empty() {
    let agents: Vec<Agent> = vec![];
    assert!(resolve("P", &agents).is_err());
}

#[test]
fn agent_name_found() {
    let agents = vec![make_agent("worker-1", Some("cmx-main"))];
    let result = resolve("worker-1", &agents).unwrap();
    assert_eq!(result, "cmx-main");
}

#[test]
fn agent_name_not_found() {
    let agents = vec![make_agent("worker-1", Some("cmx-main"))];
    assert!(resolve("nonexistent", &agents).is_err());
}

#[test]
fn agent_no_session() {
    let agents = vec![make_agent("worker-1", None)];
    assert!(resolve("worker-1", &agents).is_err());
}

#[test]
fn empty_target_error() {
    let agents: Vec<Agent> = vec![];
    assert!(resolve("", &agents).is_err());
}

#[test]
fn validate_p_notation_ok() {
    assert!(validate_format("P0").is_ok());
    assert!(validate_format("P1.2").is_ok());
    assert!(validate_format("p3").is_ok());
}

#[test]
fn validate_p_notation_bad() {
    assert!(validate_format("P").is_err());
    assert!(validate_format("P1.2.3").is_err());
}

#[test]
fn p_prefix_non_digit_is_agent_name() {
    // "Pabc" starts with P but is followed by letters, not digits.
    // It is treated as a valid agent name, not P-notation.
    assert!(validate_format("Pabc").is_ok());
}

#[test]
fn validate_agent_name_ok() {
    assert!(validate_format("worker-1").is_ok());
    assert!(validate_format("pm_agent").is_ok());
}

#[test]
fn validate_agent_name_bad() {
    assert!(validate_format("has space").is_err());
    assert!(validate_format("").is_err());
}

#[test]
fn resolve_messages() {
    let agents = vec![make_agent("worker-1", None), make_agent("pm", Some("main"))];
    assert_eq!(resolve("   ", &agents).unwrap_err(), "empty target string");
    assert_eq!(resolve("Pabc", &agents).unwrap_err(), "unknown agent: 'Pabc'");
    assert_eq!(
        resolve("worker-1", &agents).unwrap_err(),
        "agent 'worker-1' has no session assigned"
    );
    assert_eq!(
        resolve("P1x", &agents).unwrap_err(),
        "invalid window number in P-notation: '1x'"
    );
    assert_eq!(
        resolve("P1.", &agents).unwrap_err(),
        "invalid pane number in P-notation: ''"
    );
    assert_eq!(
        resolve("P1.2.3", &agents).unwrap_err(),
        "invalid pane number in P-notation: '2.3'"
    );
    assert_eq!(
        resolve("P4294967296", &agents).unwrap_err(),
        "invalid window number in P-notation: '4294967296'"
    );
}

#[test]
fn resolve_trims_and_prints_numbers_plainly() {
    let agents = vec![make_agent("pm", Some("main")), make_agent("pm", Some("other"))];
    assert_eq!(resolve("  P007.010 ", &agents).unwrap(), ":7.10");
    assert_eq!(resolve("p4294967295", &agents).unwrap(), ":4294967295.0");
    assert_eq!(resolve("P1.+2", &agents).unwrap(), ":1.2");
    assert_eq!(resolve(" pm\n", &agents).unwrap(), "main");
}

#[test]
fn validate_messages() {
    assert_eq!(validate_format(" \t").unwrap_err(), "empty target");
    assert_eq!(
        validate_format("p").unwrap_err(),
        "bare 'P' is ambiguous; use P0, P1.2, etc."
    );
    assert_eq!(
        validate_format("P1.2.3").unwrap_err(),
        "P-notation has too many components: 'P1.2.3'"
    );
    assert_eq!(
        validate_format("P1.x").unwrap_err(),
        "non-numeric component in P-notation: 'x'"
    );
    assert_eq!(
        validate_format("P1x.2").unwrap_err(),
        "non-numeric component in P-notation: '1x'"
    );
    assert_eq!(
        validate_format("has space").unwrap_err(),
        "invalid characters in target name: 'has space'"
    );
}

#[test]
fn validate_accepts_letters_and_numbers_of_any_script() {
    assert!(validate_format("büro_2").is_ok());
    assert!(validate_format("работник-٣").is_ok());
    assert!(validate_format("a!b").is_err());
    assert!(validate_format("a.b").is_err());
}

#[test]
fn resolver_examples() {
    let none: Vec<Agent> = vec![];
    assert_eq!(resolve("P0", &none).unwrap(), ":0.0");
    assert_eq!(resolve("P1.2", &none).unwrap(), ":1.2");
    let agents = vec![make_agent("worker-1", Some("cmx-main"))];
    assert_eq!(resolve("worker-1", &agents).unwrap(), "cmx-main");
    assert!(validate_format("Pabc").is_ok());
    assert_eq!(resolve("Pabc", &none).unwrap_err(), "unknown agent: 'Pabc'");
}

#[test]
fn among_the_first_128_characters_only_letters_digits_hyphen_and_underscore_pass() {
    for code in 0..128u32 {
        let c = char::from_u32(code).unwrap();
        let name = format!("x{}x", c);
        let expected = c.is_ascii_alphabetic() || c.is_ascii_digit() || c == '-' || c == '_';
        assert_eq!(validate_format(&name).is_ok(), expected, "U+{:04X}", code);
    }
}
