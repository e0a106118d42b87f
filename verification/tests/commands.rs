//! Commands as they are written in keybindings and on the command line.

use tili::command::{parse, parse_with_target};
use tili::ipc::{Command, Direction, LayoutKind, MonitorTarget, OrientationKind, Target};

#[test]
fn parses_focus_and_move() {
    assert!(matches!(
        parse("focus left"),
        Command::Focus(Direction::Left)
    ));
    assert!(matches!(parse("move down"), Command::Move(Direction::Down)));
}

#[test]
fn parses_workspace_commands() {
    assert!(matches!(
        parse("workspace entertain"),
        Command::WorkspaceSwitch(name) if name == "entertain"
    ));
    assert!(matches!(
        parse("move-node-to-workspace random"),
        Command::MoveNodeToWorkspace(name) if name == "random"
    ));
}

#[test]
fn parses_layout_commands() {
    assert!(matches!(
        parse("layout toggle"),
        Command::LayoutToggle(false)
    ));
    assert!(matches!(
        parse("layout toggle root"),
        Command::LayoutToggle(true)
    ));
    assert!(matches!(
        parse("layout tiles"),
        Command::LayoutSet(LayoutKind::Tiles, false)
    ));
    assert!(matches!(
        parse("layout accordion root"),
        Command::LayoutSet(LayoutKind::Accordion, true)
    ));
}

#[test]
fn parses_join_and_orientation_commands() {
    assert!(matches!(parse("join left"), Command::Join(Direction::Left)));
    assert!(matches!(
        parse("layout horizontal"),
        Command::OrientationSet(OrientationKind::Horizontal, false)
    ));
    assert!(matches!(
        parse("layout vertical root"),
        Command::OrientationSet(OrientationKind::Vertical, true)
    ));
}

#[test]
fn parses_orientation_toggle() {
    assert!(matches!(
        parse("layout toggle-orientation"),
        Command::OrientationToggle(false)
    ));
    assert!(matches!(
        parse("layout toggle-orientation root"),
        Command::OrientationToggle(true)
    ));
}

#[test]
fn parses_mode_commands() {
    assert!(matches!(
        parse("mode resize"),
        Command::ModeEnter(name) if name == "resize"
    ));
    assert!(matches!(parse("mode exit"), Command::ModeExit));
}

#[test]
fn parses_shutdown() {
    assert!(matches!(parse("shutdown"), Command::Shutdown));
}

#[test]
fn unrecognized_command_becomes_raw_not_an_error() {
    match parse("some-future-command with args") {
        Command::Raw { verb, args } => {
            assert_eq!(verb, "some-future-command");
            assert_eq!(args, vec!["with", "args"]);
        }
        other => panic!("expected Raw, got {other:?}"),
    }
}

#[test]
fn parses_balance_sizes() {
    assert!(matches!(
        parse("balance"),
        Command::BalanceSizes { root: false }
    ));
    assert!(matches!(
        parse("balance root"),
        Command::BalanceSizes { root: true }
    ));
}

#[test]
fn parses_flatten() {
    assert!(matches!(parse("flatten"), Command::Flatten));
}

#[test]
fn parses_fullscreen_toggle() {
    assert!(matches!(
        parse("fullscreen"),
        Command::FullscreenToggle { native: false }
    ));
    assert!(matches!(
        parse("fullscreen native"),
        Command::FullscreenToggle { native: true }
    ));
}

#[test]
fn parses_close() {
    assert!(matches!(parse("close"), Command::Close));
}

#[test]
fn parses_summon() {
    assert!(matches!(
        parse("summon Slack"),
        Command::Summon(name) if name == "Slack"
    ));
}

#[test]
fn parses_move_workspace_to_monitor() {
    assert!(matches!(
        parse("move-workspace-to-monitor work next"),
        Command::MoveWorkspaceToMonitor { workspace, target: MonitorTarget::Next }
            if workspace == Some("work".to_string())
    ));
    assert!(matches!(
        parse("move-workspace-to-monitor work main"),
        Command::MoveWorkspaceToMonitor { workspace, target: MonitorTarget::Main }
            if workspace == Some("work".to_string())
    ));
    assert!(matches!(
        parse("move-workspace-to-monitor work 3"),
        Command::MoveWorkspaceToMonitor { workspace, target: MonitorTarget::Id(3) }
            if workspace == Some("work".to_string())
    ));
}

#[test]
fn parses_move_workspace_to_monitor_without_an_explicit_workspace() {
    assert!(matches!(
        parse("move-workspace-to-monitor next"),
        Command::MoveWorkspaceToMonitor {
            workspace: None,
            target: MonitorTarget::Next
        }
    ));
    assert!(matches!(
        parse("move-workspace-to-monitor main"),
        Command::MoveWorkspaceToMonitor {
            workspace: None,
            target: MonitorTarget::Main
        }
    ));
    assert!(matches!(
        parse("move-workspace-to-monitor 3"),
        Command::MoveWorkspaceToMonitor {
            workspace: None,
            target: MonitorTarget::Id(3)
        }
    ));
}

#[test]
fn move_workspace_to_monitor_with_unparseable_target_becomes_raw() {
    match parse("move-workspace-to-monitor work not-a-target") {
        Command::Raw { verb, args } => {
            assert_eq!(verb, "move-workspace-to-monitor");
            assert_eq!(args, vec!["work", "not-a-target"]);
        }
        other => panic!("expected Raw, got {other:?}"),
    }
}

#[test]
fn parses_workspace_back() {
    assert!(matches!(parse("workspace-back"), Command::WorkspaceBack));
}

#[test]
fn parses_set_floating() {
    assert!(matches!(
        parse("set-floating on"),
        Command::SetFloating(true)
    ));
    assert!(matches!(
        parse("set-floating off"),
        Command::SetFloating(false)
    ));
}

#[test]
fn parse_with_target_strips_window_id_flag() {
    let (cmd, target) = parse_with_target("close --window-id 42");
    assert!(matches!(cmd, Command::Close));
    assert_eq!(target.window_id, Some(42));
    assert_eq!(target.workspace, None);
}

#[test]
fn parse_with_target_strips_workspace_flag() {
    let (cmd, target) = parse_with_target("close --workspace work");
    assert!(matches!(cmd, Command::Close));
    assert_eq!(target.workspace, Some("work".to_string()));
    assert_eq!(target.window_id, None);
}

#[test]
fn parse_with_target_strips_both_flags_in_either_order() {
    let (cmd, target) = parse_with_target("close --window-id 7 --workspace work");
    assert!(matches!(cmd, Command::Close));
    assert_eq!(target.window_id, Some(7));
    assert_eq!(target.workspace, Some("work".to_string()));

    let (cmd, target) = parse_with_target("close --workspace work --window-id 7");
    assert!(matches!(cmd, Command::Close));
    assert_eq!(target.window_id, Some(7));
    assert_eq!(target.workspace, Some("work".to_string()));
}

#[test]
fn parse_with_target_no_flags_yields_default_target() {
    let (cmd, target) = parse_with_target("focus left");
    assert!(matches!(cmd, Command::Focus(Direction::Left)));
    assert_eq!(target, Target::default());
}

#[test]
fn parse_with_target_ignores_a_non_numeric_window_id() {
    let (cmd, target) = parse_with_target("close --window-id not-a-number");
    assert!(matches!(cmd, Command::Close));
    assert_eq!(target.window_id, None);
}

#[test]
fn plain_parse_discards_target_but_still_strips_flags_from_the_verb_match() {
    assert!(matches!(parse("close --window-id 42"), Command::Close));
}

#[test]
fn resize_keeps_the_amount_as_written() {
    assert_eq!(
        parse("resize -0.05"),
        Command::ResizeRatio {
            amount: "-0.05".to_string()
        }
    );
    assert!(matches!(parse("resize wide"), Command::Raw { .. }));
    assert!(matches!(parse("resize"), Command::Raw { .. }));
}

#[test]
fn white_space_between_words_does_not_matter() {
    assert_eq!(parse("  focus \t left "), parse("focus left"));
}

#[test]
fn an_empty_line_is_raw() {
    assert_eq!(
        parse(""),
        Command::Raw {
            verb: String::new(),
            args: vec![]
        }
    );
}

#[test]
fn a_later_flag_of_the_same_kind_wins() {
    let (command, target) = parse_with_target("close --window-id 1 --window-id 2");
    assert_eq!(command, Command::Close);
    assert_eq!(target.window_id, Some(2));
    let (_, target) = parse_with_target("close --workspace a --workspace b");
    assert_eq!(target.workspace.as_deref(), Some("b"));
}

#[test]
fn flags_do_not_change_the_command() {
    for line in ["focus left", "workspace work", "nonsense here"] {
        let (plain, _) = parse_with_target(line);
        let (flagged, _) = parse_with_target(&format!("{line} --workspace x --window-id 3"));
        assert_eq!(plain, flagged);
    }
}

#[test]
fn a_monitor_id_has_to_fit() {
    assert!(matches!(
        parse("move-workspace-to-monitor 4294967295"),
        Command::MoveWorkspaceToMonitor {
            workspace: None,
            target: MonitorTarget::Id(u32::MAX)
        }
    ));
    assert!(matches!(
        parse("move-workspace-to-monitor 4294967296"),
        Command::Raw { .. }
    ));
}
