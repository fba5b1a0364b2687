use muxux_core::cli::{find_flag, parse_args};
use muxux_core::command::Command;

#[test]
fn parse_studio_all_flags() {
    let args = vec!["studio", "--pane", "%1", "--x", "50", "--y", "30"];
    let cmd = parse_args(&args).unwrap();
    assert_eq!(
        cmd,
        Command::Studio {
            pane: "%1".into(),
            x: 50,
            y: 30,
        }
    );
}

#[test]
fn parse_studio_missing_pane() {
    let args = vec!["studio", "--x", "50", "--y", "30"];
    assert!(parse_args(&args).is_err());
}

#[test]
fn parse_studio_invalid_x() {
    let args = vec!["studio", "--pane", "%1", "--x", "abc", "--y", "30"];
    assert!(parse_args(&args).is_err());
}

#[test]
fn parse_setup_hook() {
    let args = vec!["setup", "hook"];
    let cmd = parse_args(&args).unwrap();
    assert_eq!(cmd, Command::SetupHook);
}

#[test]
fn parse_setup_unhook() {
    let args = vec!["setup", "unhook"];
    let cmd = parse_args(&args).unwrap();
    assert_eq!(cmd, Command::RemoveHook);
}

#[test]
fn parse_setup_no_subcommand() {
    let args = vec!["setup"];
    assert!(parse_args(&args).is_err());
}

#[test]
fn parse_setup_unknown_subcommand() {
    let args = vec!["setup", "foo"];
    assert!(parse_args(&args).is_err());
}

#[test]
fn parse_top_level_commands() {
    assert_eq!(parse_args(&["status"]).unwrap(), Command::Status { format: None });
    assert_eq!(
        parse_args(&["status", "--json"]).unwrap(),
        Command::Status { format: Some("json".into()) }
    );
    assert_eq!(parse_args(&["status", "--yaml"]).unwrap(), Command::Status { format: None });
    assert_eq!(parse_args(&["view", "main"]).unwrap(), Command::View { name: "main".into() });
    assert_eq!(parse_args(&["help"]).unwrap(), Command::Help { topic: None });
    assert_eq!(
        parse_args(&["help", "layout"]).unwrap(),
        Command::Help { topic: Some("layout".into()) }
    );
    assert_eq!(
        parse_args(&["watch", "--since", "5"]).unwrap(),
        Command::Watch { since: None, timeout: None }
    );
    assert_eq!(parse_args(&["client", "next"]).unwrap(), Command::ClientNext);
    assert_eq!(parse_args(&["client", "prev"]).unwrap(), Command::ClientPrev);
    assert_eq!(parse_args(&["daemon", "run"]).unwrap(), Command::DaemonRun);
    assert_eq!(parse_args(&["daemon", "stop"]).unwrap(), Command::DaemonStop);
}

#[test]
fn parse_layout_commands() {
    assert_eq!(
        parse_args(&["layout", "row", "main", "--percent", "60"]).unwrap(),
        Command::LayoutRow { session: "main".into(), percent: Some("60".into()) }
    );
    assert_eq!(
        parse_args(&["layout", "column", "main"]).unwrap(),
        Command::LayoutColumn { session: "main".into(), percent: None }
    );
    assert_eq!(
        parse_args(&["layout", "merge", "main"]).unwrap(),
        Command::LayoutMerge { session: "main".into() }
    );
    assert_eq!(
        parse_args(&["layout", "place", "%3", "w1"]).unwrap(),
        Command::LayoutPlace { pane: "%3".into(), agent: "w1".into() }
    );
    assert_eq!(
        parse_args(&["layout", "capture", "main"]).unwrap(),
        Command::LayoutCapture { session: "main".into() }
    );
    assert_eq!(
        parse_args(&["layout", "session", "work", "--cwd", "/tmp"]).unwrap(),
        Command::LayoutSession { name: "work".into(), cwd: Some("/tmp".into()) }
    );
    assert_eq!(
        parse_args(&["layout", "session", "work", "--cwd"]).unwrap(),
        Command::LayoutSession { name: "work".into(), cwd: None }
    );
}

#[test]
fn messages_for_the_user() {
    let none: Vec<&str> = vec![];
    assert_eq!(
        parse_args(&none).unwrap_err(),
        "No command specified. Run 'mux help' for usage."
    );
    assert_eq!(
        parse_args(&["fly"]).unwrap_err(),
        "Unknown command: 'fly'. Run 'mux help' for usage."
    );
    assert_eq!(parse_args(&["view"]).unwrap_err(), "Usage: mux view <name>");
    assert_eq!(parse_args(&["layout"]).unwrap_err(), "Usage: mux layout <subcommand> ...");
    assert_eq!(
        parse_args(&["layout", "row"]).unwrap_err(),
        "Usage: mux layout row <session> [--percent <n>]"
    );
    assert_eq!(
        parse_args(&["layout", "column"]).unwrap_err(),
        "Usage: mux layout column <session> [--percent <n>]"
    );
    assert_eq!(parse_args(&["layout", "merge"]).unwrap_err(), "Usage: mux layout merge <session>");
    assert_eq!(
        parse_args(&["layout", "place", "%1"]).unwrap_err(),
        "Usage: mux layout place <pane> <agent>"
    );
    assert_eq!(
        parse_args(&["layout", "capture"]).unwrap_err(),
        "Usage: mux layout capture <session>"
    );
    assert_eq!(
        parse_args(&["layout", "session"]).unwrap_err(),
        "Usage: mux layout session <name> [--cwd <path>]"
    );
    assert_eq!(
        parse_args(&["layout", "spin", "x"]).unwrap_err(),
        "Unknown layout subcommand: 'spin'"
    );
    assert_eq!(parse_args(&["client"]).unwrap_err(), "Usage: mux client <next|prev>");
    assert_eq!(parse_args(&["client", "up"]).unwrap_err(), "Unknown client subcommand: 'up'");
    assert_eq!(parse_args(&["daemon"]).unwrap_err(), "Usage: mux daemon <run|stop>");
    assert_eq!(parse_args(&["daemon", "nap"]).unwrap_err(), "Unknown daemon subcommand: 'nap'");
    assert_eq!(parse_args(&["setup"]).unwrap_err(), "Usage: mux setup <hook|unhook>");
    assert_eq!(parse_args(&["setup", "foo"]).unwrap_err(), "Unknown setup subcommand: 'foo'");
    let usage = "Usage: mux studio --pane <id> --x <n> --y <n>";
    assert_eq!(parse_args(&["studio"]).unwrap_err(), usage);
    assert_eq!(parse_args(&["studio", "--pane", "%1"]).unwrap_err(), usage);
    assert_eq!(parse_args(&["studio", "--pane", "%1", "--x", "1"]).unwrap_err(), usage);
    assert_eq!(
        parse_args(&["studio", "--pane", "%1", "--x", "-1", "--y", "2"]).unwrap_err(),
        "Invalid value for --x: expected integer"
    );
    assert_eq!(
        parse_args(&["studio", "--pane", "%1", "--x", "1", "--y", "4294967296"]).unwrap_err(),
        "Invalid value for --y: expected integer"
    );
}

#[test]
fn the_first_occurrence_of_a_flag_counts() {
    assert_eq!(find_flag(&["a", "--x", "1", "--x", "2"], "--x"), Some("1".to_string()));
    assert_eq!(find_flag(&["a", "--x"], "--x"), None);
    assert_eq!(find_flag(&["--y", "--x", "--x"], "--x"), Some("--x".to_string()));
    assert_eq!(find_flag(&["a", "b"], "--x"), None);
}
