//! Commands, as the daemon runs them.

use tili::config::parse;
use tili::daemon::{on_hotkey, on_request, run_hotkey, HotkeyStep, RequestStep};
use tili::desk::Monitor;
use tili::dispatch::{
    command_is_read_only, dispatch, prepare, Permissions, TreeAnswer, TreeCall,
};
use tili::hotkey::parse_key_combo;
use tili::ipc::{
    Command, Direction, LayoutKind, MonitorTarget, OrientationKind, Payload, RectInfo, Response,
    WorkspaceInfo,
};
use tili::placement::WindowKind;
use tili::state::scan::{Scanned, TreeReply};
use tili::state::{Action, Window, WmState};

fn rect(x: f64, y: f64, width: f64, height: f64) -> RectInfo {
    RectInfo {
        x: x.to_bits(),
        y: y.to_bits(),
        width: width.to_bits(),
        height: height.to_bits(),
    }
}

fn fresh() -> WmState {
    WmState::new(vec![Monitor {
        id: 1,
        is_main: true,
        tall: false,
        frame: rect(0.0, 25.0, 1920.0, 1055.0),
    }])
}

const GRANTED: Permissions = Permissions {
    accessibility: true,
    input_monitoring: false,
};

fn silence() -> TreeAnswer {
    TreeAnswer {
        found: None,
        changed: false,
        is_accordion: false,
        suggested: None,
        node: 0,
    }
}

fn run(state: &mut WmState, command: Command) -> Response {
    prepare(state, &command, None);
    dispatch(state, &command, silence(), GRANTED).0
}

fn workspaces(state: &mut WmState) -> Vec<WorkspaceInfo> {
    match run(state, Command::ListWorkspaces) {
        Response::OkWithPayload(Payload::Workspaces(v)) => v,
        other => panic!("expected workspaces, got {other:?}"),
    }
}

fn mode(state: &mut WmState) -> String {
    match run(state, Command::CurrentMode) {
        Response::OkWithPayload(Payload::Mode(m)) => m,
        other => panic!("expected a mode, got {other:?}"),
    }
}

fn refusal(response: Response) -> String {
    match response {
        Response::Failed { message } => message,
        other => panic!("expected an error, got {other:?}"),
    }
}

fn open(state: &mut WmState, id: u32, node: u64) -> Vec<Action> {
    let active = state.active_workspace_name();
    state.admit_window(
        id,
        Scanned {
            window: Window {
                pid: 100,
                bundle_id: Some("org.example.editor".to_string()),
                title: format!("window {id}"),
                fullscreen: false,
                frame: rect(0.0, 0.0, 100.0, 100.0),
            },
            kind: WindowKind::Standard,
            app_hidden: false,
            minimized: false,
            moved_to: None,
        },
        &active,
        0,
        TreeReply {
            node,
            suggested: None,
            default_focus: None,
        },
    )
}

#[test]
fn ping_returns_ok() {
    let mut state = fresh();
    assert!(matches!(run(&mut state, Command::Ping), Response::Done));
}

#[test]
fn raw_command_error_names_the_unknown_verb() {
    let mut state = fresh();
    let response = run(
        &mut state,
        Command::Raw {
            verb: "fcous".to_string(),
            args: vec!["left".to_string()],
        },
    );
    let message = refusal(response);
    assert!(
        message.contains("fcous"),
        "message should name the unknown verb: {message}"
    );
    assert_eq!(message, "unknown command: fcous");
}

#[test]
fn list_windows_reflects_cache_not_a_fresh_scan() {
    let mut state = fresh();
    let Response::OkWithPayload(Payload::Windows(windows)) = run(&mut state, Command::ListWindows)
    else {
        panic!("expected OkWithPayload");
    };
    assert!(windows.is_empty(), "empty cache before any event arrives");
}

#[test]
fn focus_with_no_windows_is_an_error() {
    let mut state = fresh();
    let response = run(&mut state, Command::Focus(Direction::Left));
    assert!(matches!(response, Response::Failed { .. }));
}

#[test]
fn layout_toggle_with_no_windows_is_an_error() {
    let mut state = fresh();
    let response = run(&mut state, Command::LayoutToggle(false));
    assert!(matches!(response, Response::Failed { .. }));

    let response = run(
        &mut state,
        Command::LayoutSet(LayoutKind::Accordion, false),
    );
    assert!(matches!(response, Response::Failed { .. }));
}

#[test]
fn list_workspaces_starts_with_one_active_default() {
    let mut state = fresh();
    let workspaces = workspaces(&mut state);
    assert_eq!(workspaces.len(), 1);
    assert!(workspaces[0].active);
    assert_eq!(workspaces[0].window_count, 0);
}

#[test]
fn switching_to_an_undeclared_workspace_is_an_error() {
    let mut state = fresh();
    let response = run(
        &mut state,
        Command::WorkspaceSwitch("entertain".to_string()),
    );
    assert_eq!(
        refusal(response),
        "workspace 'entertain' isn't declared in config"
    );
    assert_eq!(
        workspaces(&mut state).len(),
        1,
        "undeclared workspace must not be created"
    );
}

#[test]
fn switching_to_a_declared_workspace_activates_it() {
    let mut state = fresh();
    let config = parse(
        r#"
        workspaces {
            workspace "entertain"
        }
        "#,
    )
    .unwrap();
    state.apply_config(&config);

    let response = run(
        &mut state,
        Command::WorkspaceSwitch("entertain".to_string()),
    );
    assert!(matches!(response, Response::Done));

    let workspaces = workspaces(&mut state);
    let active: Vec<_> = workspaces.iter().filter(|w| w.active).collect();
    assert_eq!(active.len(), 1);
    assert_eq!(active[0].name, "entertain");
}

#[test]
fn bootstrap_main_workspace_is_dropped_once_real_workspaces_are_declared() {
    let mut state = fresh();
    let config = parse(
        r#"
        workspaces {
            workspace "work"
            workspace "entertain"
        }
        "#,
    )
    .unwrap();
    state.apply_config(&config);

    let response = run(&mut state, Command::WorkspaceSwitch("main".to_string()));
    assert!(
        matches!(response, Response::Failed { .. }),
        "the internal bootstrap workspace must not be reachable once config declares real ones"
    );
    assert!(!workspaces(&mut state).iter().any(|w| w.name == "main"));
}

#[test]
fn entering_an_unknown_mode_is_an_error() {
    let mut state = fresh();
    let response = run(&mut state, Command::ModeEnter("resize".to_string()));
    assert!(matches!(response, Response::Failed { .. }));
}

#[test]
fn mode_round_trips_via_config_then_hotkey_resolution() {
    let mut state = fresh();
    let config = parse(
        r#"
        keybindings mode="main" {
            bind "alt-shift-semicolon" "mode resize"
        }
        keybindings mode="resize" {
            bind "escape" "mode main"
        }
        "#,
    )
    .unwrap();
    state.apply_config(&config);

    let enter_resize = parse_key_combo("alt-shift-semicolon").unwrap();
    assert!(state.active_key_combos().contains(&enter_resize));

    let response = run(&mut state, Command::ModeEnter("resize".to_string()));
    assert!(matches!(response, Response::Done));

    let exit_resize = parse_key_combo("escape").unwrap();
    assert!(state.active_key_combos().contains(&exit_resize));
    assert!(!state.active_key_combos().contains(&enter_resize));
}

#[test]
fn current_mode_reports_active_mode() {
    let mut state = fresh();
    assert_eq!(mode(&mut state), "main");

    let config = parse(
        r#"
        keybindings mode="manage" auto-exit=#true {
            bind "escape" "mode main"
        }
        "#,
    )
    .unwrap();
    state.apply_config(&config);
    run(&mut state, Command::ModeEnter("manage".to_string()));

    assert_eq!(mode(&mut state), "manage");
}

#[test]
fn flatten_is_always_ok() {
    let mut state = fresh();
    assert!(matches!(run(&mut state, Command::Flatten), Response::Done));
}

#[test]
fn balance_sizes_with_no_windows_is_an_error() {
    let mut state = fresh();
    let response = run(&mut state, Command::BalanceSizes { root: false });
    assert!(matches!(response, Response::Failed { .. }));
}

#[test]
fn fullscreen_toggle_with_no_windows_is_an_error() {
    let mut state = fresh();
    let response = run(&mut state, Command::FullscreenToggle { native: false });
    assert!(matches!(response, Response::Failed { .. }));
}

#[test]
fn close_with_no_windows_is_an_error() {
    let mut state = fresh();
    let response = run(&mut state, Command::Close);
    assert!(matches!(response, Response::Failed { .. }));
}

#[test]
fn summon_with_no_matching_window_is_an_error() {
    let mut state = fresh();
    let response = run(&mut state, Command::Summon("nonexistent".to_string()));
    assert_eq!(refusal(response), "no window matching 'nonexistent'");
}

#[test]
fn workspace_back_with_no_previous_workspace_is_an_error() {
    let mut state = fresh();
    let response = run(&mut state, Command::WorkspaceBack);
    assert!(matches!(response, Response::Failed { .. }));
}

#[test]
fn set_floating_with_no_windows_is_an_error() {
    let mut state = fresh();
    let response = run(&mut state, Command::SetFloating(true));
    assert!(matches!(response, Response::Failed { .. }));
}

#[test]
fn move_workspace_to_monitor_for_undeclared_workspace_is_an_error() {
    let mut state = fresh();
    let response = run(
        &mut state,
        Command::MoveWorkspaceToMonitor {
            workspace: Some("nope".to_string()),
            target: MonitorTarget::Main,
        },
    );
    assert!(matches!(response, Response::Failed { .. }));
}

#[test]
fn trees_are_asked_only_where_it_matters() {
    let mut state = fresh();
    let left = Command::Focus(Direction::Left);
    assert_eq!(prepare(&mut state, &left, None).1, TreeCall::Nothing);

    open(&mut state, 1, 10);
    assert_eq!(
        prepare(&mut state, &left, None).1,
        TreeCall::FocusInDirection {
            node: 10,
            direction: Direction::Left
        }
    );
    assert_eq!(
        prepare(&mut state, &Command::OrientationToggle(true), None).1,
        TreeCall::ToggleOrientation {
            node: 10,
            root: true
        }
    );
    let set = Command::OrientationSet(OrientationKind::Vertical, false);
    assert_eq!(
        prepare(&mut state, &set, None).1,
        TreeCall::SetOrientation {
            node: 10,
            root: false,
            orientation: OrientationKind::Vertical
        }
    );
    assert_eq!(
        prepare(&mut state, &Command::Ping, None).1,
        TreeCall::Nothing
    );
}

#[test]
fn focus_follows_what_the_trees_find() {
    let mut state = fresh();
    open(&mut state, 1, 10);
    open(&mut state, 2, 20);
    let command = Command::Focus(Direction::Right);
    let found = TreeAnswer {
        found: Some(20),
        ..silence()
    };
    let (response, actions) = dispatch(&mut state, &command, found, GRANTED);
    assert_eq!(response, Response::Done);
    assert_eq!(
        actions,
        vec![
            Action::RecordFocus {
                workspace: "main".to_string(),
                node: 20
            },
            Action::Relayout(1),
            Action::Raise {
                window: 2,
                warp: false
            },
        ]
    );
    assert_eq!(state.focused_node(), Some(20));

    let (response, actions) = dispatch(&mut state, &command, silence(), GRANTED);
    assert_eq!(refusal(response), "no window in that direction");
    assert!(actions.is_empty());
    assert_eq!(state.focused_node(), Some(20));
}

#[test]
fn every_command_acts_on_what_has_the_focus() {
    let mut state = fresh();
    open(&mut state, 1, 10);
    open(&mut state, 2, 20);
    assert_eq!(state.focused_node(), Some(10));
    let (first, call) = prepare(&mut state, &Command::Close, Some(2));
    assert_eq!(
        first,
        vec![Action::RecordFocus {
            workspace: "main".to_string(),
            node: 20
        }]
    );
    assert_eq!(call, TreeCall::Nothing);
    let (response, actions) = dispatch(&mut state, &Command::Close, silence(), GRANTED);
    assert_eq!(response, Response::Done);
    assert_eq!(actions, vec![Action::Close(2)]);
}

#[test]
fn doctor_reports_permissions_and_warnings() {
    let mut state = fresh();
    let config = parse(
        r#"
        workspace-rules { rule app-id="a" workspace="nowhere"; }
        floating-rules { rule app-id="b" title="("; }
        "#,
    )
    .unwrap();
    state.apply_config(&config);
    let Response::OkWithPayload(Payload::Report(report)) = run(&mut state, Command::Doctor) else {
        panic!("expected a report");
    };
    assert!(report.accessibility_granted);
    assert!(!report.input_monitoring_granted);
    assert_eq!(report.config_warnings.len(), 2);
}

#[test]
fn commands_of_the_daemon_itself_are_not_dispatched() {
    let mut state = fresh();
    for command in [
        Command::Shutdown,
        Command::WaitForChange,
        Command::ReloadConfig,
        Command::MenubarStyle,
    ] {
        assert_eq!(refusal(run(&mut state, command)), "not implemented yet");
    }
}

#[test]
fn read_only_commands_are_told_apart() {
    assert!(command_is_read_only(&Command::Ping));
    assert!(command_is_read_only(&Command::CurrentMode));
    assert!(!command_is_read_only(&Command::Close));
    assert!(!command_is_read_only(&Command::WaitForChange));
}

#[test]
fn queries_do_not_wake_waiting_clients() {
    for command in [
        Command::Ping,
        Command::ListWindows,
        Command::ListWorkspaces,
        Command::ListMonitors,
        Command::CurrentMode,
        Command::MenubarStyle,
        Command::Doctor,
    ] {
        assert_eq!(
            on_request(&command),
            RequestStep::Dispatch { changes: false }
        );
    }
    assert_eq!(
        on_request(&Command::Close),
        RequestStep::Dispatch { changes: true }
    );
    assert_eq!(on_request(&Command::Shutdown), RequestStep::Shutdown);
    assert_eq!(on_request(&Command::WaitForChange), RequestStep::Wait);
}

#[test]
fn a_hotkey_runs_its_command_and_leaves_a_passing_mode() {
    let mut state = fresh();
    let config = parse(
        r#"
        keybindings mode="manage" auto-exit=#true {
            bind "f" "flatten"
            bind "q" "shutdown"
        }
        "#,
    )
    .unwrap();
    state.apply_config(&config);
    let flatten = parse_key_combo("f").unwrap();
    assert!(matches!(on_hotkey(&state, flatten), HotkeyStep::Ignore));
    state.enter_mode("manage").unwrap();
    let quit = parse_key_combo("q").unwrap();
    assert!(matches!(on_hotkey(&state, quit), HotkeyStep::Shutdown));
    let (command, auto_exits) = match on_hotkey(&state, flatten) {
        HotkeyStep::Run {
            command,
            auto_exits,
        } => (command.clone(), auto_exits),
        _ => panic!("expected a command"),
    };
    assert_eq!(command, Command::Flatten);
    assert!(auto_exits);
    let actions = run_hotkey(&mut state, &command, silence(), GRANTED, auto_exits);
    assert!(actions.is_empty());
    assert_eq!(state.current_mode(), "main");
}
