use muxux_core::overlay::{parse_tmux_pane_info, OverlayArgs, OverlayState, TmuxPaneInfo};
use muxux_core::tray_menu_ids;
use muxux_core::types::config::{default_search_max_rows, default_zone_max_width, MuxSettings};

#[test]
fn overlay_starts_hidden() {
    let overlay = OverlayState::new();
    assert!(!overlay.is_visible());
    assert!(overlay.get_target_pane().is_none());
}

#[test]
fn overlay_show_sets_visible_and_pane() {
    let mut overlay = OverlayState::new();
    overlay.show("%42".into());
    assert!(overlay.is_visible());
    assert_eq!(overlay.get_target_pane(), Some("%42".into()));
}

#[test]
fn overlay_hide_clears_visible_preserves_pane() {
    let mut overlay = OverlayState::new();
    overlay.show("%42".into());
    overlay.hide_overlay();
    assert!(!overlay.is_visible());
    assert_eq!(overlay.get_target_pane(), Some("%42".into()));
}

#[test]
fn overlay_toggle_show_hide_show() {
    let mut overlay = OverlayState::new();

    // Toggle from hidden -> visible
    let now_visible = overlay.toggle("%10".into());
    assert!(now_visible);
    assert!(overlay.is_visible());
    assert_eq!(overlay.get_target_pane(), Some("%10".into()));

    // Toggle from visible -> hidden
    let now_visible = overlay.toggle("%10".into());
    assert!(!now_visible);
    assert!(!overlay.is_visible());

    // Toggle from hidden -> visible again (with new pane)
    let now_visible = overlay.toggle("%20".into());
    assert!(now_visible);
    assert!(overlay.is_visible());
    assert_eq!(overlay.get_target_pane(), Some("%20".into()));
}

#[test]
fn toggle_to_hidden_keeps_the_old_pane() {
    let mut overlay = OverlayState::new();
    overlay.show("%1".into());
    assert!(!overlay.toggle("%2".into()));
    assert_eq!(overlay.get_target_pane(), Some("%1".into()));
}

#[test]
fn parse_tmux_pane_info_valid() {
    let info = parse_tmux_pane_info("%42 0 0 80 24").unwrap();
    assert_eq!(info.pane_id, "%42");
    assert_eq!(info.left, 0);
    assert_eq!(info.top, 0);
    assert_eq!(info.width, 80);
    assert_eq!(info.height, 24);
}

#[test]
fn parse_tmux_pane_info_with_offset() {
    let info = parse_tmux_pane_info("%7 10 5 120 40").unwrap();
    assert_eq!(info.pane_id, "%7");
    assert_eq!(info.left, 10);
    assert_eq!(info.top, 5);
    assert_eq!(info.width, 120);
    assert_eq!(info.height, 40);
}

#[test]
fn parse_tmux_pane_info_trailing_newline() {
    let info = parse_tmux_pane_info("%1 0 0 80 24\n").unwrap();
    assert_eq!(info.pane_id, "%1");
    assert_eq!(info.width, 80);
}

#[test]
fn parse_tmux_pane_info_too_few_parts() {
    assert!(parse_tmux_pane_info("%42 0 0").is_none());
}

#[test]
fn parse_tmux_pane_info_empty() {
    assert!(parse_tmux_pane_info("").is_none());
}

#[test]
fn parse_tmux_pane_info_bad_number() {
    assert!(parse_tmux_pane_info("%42 x 0 80 24").is_none());
}

#[test]
fn parse_tmux_pane_info_edges() {
    let info = parse_tmux_pane_info("\t %9   1\u{a0}2 \r\n 3 4294967295 more words").unwrap();
    assert_eq!(
        info,
        TmuxPaneInfo { pane_id: "%9".into(), left: 1, top: 2, width: 3, height: 4294967295 }
    );
    assert_eq!(info.clone(), info);
    assert!(parse_tmux_pane_info("%9 1 2 3 4294967296").is_none());
    assert!(parse_tmux_pane_info("%9 1 2 3 -4").is_none());
    assert_eq!(parse_tmux_pane_info("%9 +1 02 3 4").unwrap().left, 1);
}

#[test]
fn tray_menu_ids_are_distinct() {
    let ids = [
        tray_menu_ids::SHOW,
        tray_menu_ids::TERMINAL,
        tray_menu_ids::CONFIG,
        tray_menu_ids::HELP,
        tray_menu_ids::QUIT,
    ];
    // All IDs must be unique
    for (i, a) in ids.iter().enumerate() {
        for (j, b) in ids.iter().enumerate() {
            if i != j {
                assert_ne!(a, b, "tray menu IDs must be unique");
            }
        }
    }
}

#[test]
fn tray_menu_ids_match_expected_strings() {
    assert_eq!(tray_menu_ids::SHOW, "show");
    assert_eq!(tray_menu_ids::TERMINAL, "terminal");
    assert_eq!(tray_menu_ids::CONFIG, "config");
    assert_eq!(tray_menu_ids::HELP, "help");
    assert_eq!(tray_menu_ids::QUIT, "quit");
}

#[test]
fn tray_menu_ids_not_empty() {
    assert!(!tray_menu_ids::SHOW.is_empty());
    assert!(!tray_menu_ids::TERMINAL.is_empty());
    assert!(!tray_menu_ids::CONFIG.is_empty());
    assert!(!tray_menu_ids::HELP.is_empty());
    assert!(!tray_menu_ids::QUIT.is_empty());
}

fn line(words: &[&str]) -> Vec<String> {
    words.iter().map(|w| w.to_string()).collect()
}

#[test]
fn overlay_args_need_the_overlay_flag() {
    assert!(OverlayArgs::from_args(&line(&["muxux", "--x", "1"])).is_none());
    assert!(OverlayArgs::from_args(&[]).is_none());
}

#[test]
fn overlay_args_read_position_and_pane() {
    let args = OverlayArgs::from_args(&line(&[
        "muxux", "--overlay", "--x", "-12", "--y", "+34", "--pane", "%5",
    ]))
    .unwrap();
    assert!(args.overlay);
    assert_eq!(args.x, -12);
    assert_eq!(args.y, 34);
    assert_eq!(args.pane, "%5");
    assert_eq!(args.clone().pane, "%5");
}

#[test]
fn overlay_args_fall_back_to_zero_and_empty() {
    let args = OverlayArgs::from_args(&line(&["--x", "abc", "--overlay", "--y"])).unwrap();
    assert_eq!((args.x, args.y), (0, 0));
    assert_eq!(args.pane, "");
    let edge = OverlayArgs::from_args(&line(&[
        "--overlay", "--x", "-2147483648", "--y", "2147483648",
    ]))
    .unwrap();
    assert_eq!((edge.x, edge.y), (i32::MIN, 0));
}

#[test]
fn settings_defaults() {
    let settings = MuxSettings::default();
    assert_eq!(settings.project_root, "");
    assert_eq!(settings.zone_max_width, 160);
    assert_eq!(settings.search_max_rows, 10);
    assert_eq!(default_zone_max_width(), 160);
    assert_eq!(default_search_max_rows(), 10);
    assert_eq!(settings.clone().zone_max_width, 160);
}
