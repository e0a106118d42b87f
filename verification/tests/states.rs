//! The state of the window manager, window by window and monitor by monitor.

use tili::config::{parse, Gaps, Ratio, SIX_TENTHS};
use tili::desk::{Desk, Monitor, MonitorDiff};
use tili::forest::{Forest, Leaf};
use tili::ipc::{LayoutKind, MonitorTarget, OrientationKind, PlacementInfo, RectInfo};
use tili::placement::{FloatGeometry, PlacementKind, Restore, WindowKind};
use tili::rules::compile_workspace_rules;
use tili::state::commands::next_orientation;
use tili::state::report::{Extent, FirstPlace, FloatingStep, LayoutPlan};
use tili::state::scan::{has_area, ScanPlan, Scanned, Suggestion, TreeReply};
use tili::state::setup::resolve_default_workspace;
use tili::state::{Action, Window, WmState};

const PID: i32 = 100;

fn rect(x: f64, y: f64, width: f64, height: f64) -> RectInfo {
    RectInfo {
        x: x.to_bits(),
        y: y.to_bits(),
        width: width.to_bits(),
        height: height.to_bits(),
    }
}

fn display(id: u32, x: f64) -> Monitor {
    Monitor {
        id,
        is_main: id == 1,
        tall: false,
        frame: rect(x, 0.0, 1920.0, 1080.0),
    }
}

fn one_display() -> WmState {
    WmState::new(vec![display(1, 0.0)])
}

/// The workspace `a` on the first display, which is focused, and `b` on the
/// second.
fn two_displays() -> WmState {
    let mut state = WmState::new(vec![display(1, 0.0), display(2, 1920.0)]);
    declare(&mut state, &["a", "b", "c"]);
    state
        .move_workspace_to_monitor(Some("b"), MonitorTarget::Id(2))
        .unwrap();
    assert_eq!(state.active_on(1).as_deref(), Some("a"));
    assert_eq!(state.active_on(2).as_deref(), Some("b"));
    state
}

fn declare(state: &mut WmState, names: &[&str]) {
    let mut source = String::from("workspaces {\n");
    for name in names {
        source.push_str(&format!("workspace \"{name}\"\n"));
    }
    source.push_str("}\n");
    state.apply_config(&parse(&source).unwrap());
}

fn found(kind: WindowKind) -> Scanned {
    Scanned {
        window: Window {
            pid: PID,
            bundle_id: Some("org.example.editor".to_string()),
            title: "notes".to_string(),
            fullscreen: false,
            frame: rect(0.0, 0.0, 400.0, 300.0),
        },
        kind,
        app_hidden: false,
        minimized: false,
        moved_to: None,
    }
}

fn reply(node: u64) -> TreeReply {
    TreeReply {
        node,
        suggested: None,
        default_focus: None,
    }
}

fn take_in(state: &mut WmState, id: u32, scanned: Scanned, answer: TreeReply) -> Vec<Action> {
    let active = state.active_workspace_name();
    state.admit_window(id, scanned, &active, 0, answer)
}

fn tile(state: &mut WmState, id: u32, node: u64) -> Vec<Action> {
    take_in(state, id, found(WindowKind::Standard), reply(node))
}

fn float(state: &mut WmState, id: u32, node: u64) -> Vec<Action> {
    take_in(state, id, found(WindowKind::Dialog), reply(node))
}

fn minimized() -> Scanned {
    Scanned {
        minimized: true,
        ..found(WindowKind::Standard)
    }
}

fn geometry() -> FloatGeometry {
    FloatGeometry {
        rel_x: 0.1f64.to_bits(),
        rel_y: 0.1f64.to_bits(),
        rel_w: 0.2f64.to_bits(),
        rel_h: 0.2f64.to_bits(),
    }
}

fn relayouts(actions: &[Action]) -> usize {
    actions
        .iter()
        .filter(|a| {
            matches!(
                a,
                Action::Relayout(_) | Action::RelayoutAll | Action::RefreshAll
            )
        })
        .count()
}

/// Lets a window go missing at time 0, and looks at it at `now`.
fn lose(state: &mut WmState, ids: &[u32], now: u64) -> Vec<Action> {
    let active: Vec<u32> = state
        .windows_of(PID)
        .into_iter()
        .filter(|id| !ids.contains(id))
        .collect();
    state.begin_scan(PID, &active, 0);
    state.finalize_expired_removals(now, &vec![])
}

#[test]
fn demote_to_special_removes_a_tiled_window_from_its_tree() {
    let mut state = one_display();
    tile(&mut state, 1, 10);
    assert_eq!(state.tiled_windows_in("main"), vec![1]);

    take_in(&mut state, 1, minimized(), reply(0));

    assert!(state.tiled_windows_in("main").is_empty());
    assert_eq!(
        state.placement(1),
        Some(PlacementKind::Minimized(Restore::Tiled))
    );
}

#[test]
fn remove_from_tree_returns_the_reassigned_node_when_its_workspace_is_visible() {
    let mut state = one_display();
    tile(&mut state, 1, 10);
    tile(&mut state, 2, 20);
    assert_eq!(state.focused_node(), Some(10));

    state.begin_scan(PID, &vec![2], 0);
    let actions = state.finalize_expired_removals(
        200,
        &vec![Suggestion {
            window: 1,
            node: Some(20),
        }],
    );

    assert_eq!(state.focused_node(), Some(20));
    assert!(actions.contains(&Action::Raise {
        window: 2,
        warp: false
    }));
}

#[test]
fn remove_from_tree_returns_none_when_the_workspace_is_parked() {
    let mut state = one_display();
    declare(&mut state, &["main", "side"]);
    state.switch_workspace("side", None).unwrap();
    tile(&mut state, 1, 10);
    tile(&mut state, 2, 20);
    state.switch_workspace("main", None).unwrap();

    state.begin_scan(PID, &vec![2], 0);
    let actions = state.finalize_expired_removals(
        200,
        &vec![Suggestion {
            window: 1,
            node: Some(20),
        }],
    );

    assert!(!actions.iter().any(|a| matches!(a, Action::Raise { .. })));
    assert_eq!(state.focus_of("side"), Some(20));
}

#[test]
fn remove_from_tree_returns_none_when_the_removed_window_was_not_the_recorded_focus() {
    let mut state = one_display();
    tile(&mut state, 1, 10);
    tile(&mut state, 2, 20);

    let actions = lose(&mut state, &[2], 200);

    assert_eq!(state.placement(2), None);
    assert!(!actions.iter().any(|a| matches!(a, Action::Raise { .. })));
    assert_eq!(state.focused_node(), Some(10));
}

#[test]
fn promote_from_special_reinserts_into_the_tree() {
    let mut state = one_display();
    take_in(&mut state, 1, minimized(), reply(0));
    assert_eq!(
        state.placement(1),
        Some(PlacementKind::Minimized(Restore::Tiled))
    );

    tile(&mut state, 1, 10);

    assert_eq!(state.placement(1), Some(PlacementKind::Tiled));
    assert_eq!(state.tiled_windows_in("main"), vec![1]);
}

#[test]
fn reconcile_existing_placement_round_trips_tiled_through_minimized() {
    let mut state = one_display();
    tile(&mut state, 1, 10);

    take_in(&mut state, 1, minimized(), reply(0));
    assert_eq!(
        state.placement(1),
        Some(PlacementKind::Minimized(Restore::Tiled))
    );
    assert!(state.tiled_windows_in("main").is_empty());

    tile(&mut state, 1, 11);
    assert_eq!(state.placement(1), Some(PlacementKind::Tiled));
    assert_eq!(state.tiled_windows_in("main"), vec![1]);
}

#[test]
fn reconcile_existing_placement_no_change_is_a_no_op() {
    let mut state = one_display();
    tile(&mut state, 1, 10);

    let actions = tile(&mut state, 1, 99);

    assert!(actions.is_empty());
    assert_eq!(state.placement(1), Some(PlacementKind::Tiled));
    assert_eq!(state.tiled_windows_in("main"), vec![1]);
    assert_eq!(state.focused_node(), Some(10));
}

#[test]
fn next_floating_cascade_index_counts_up_independently_per_workspace() {
    let mut forest = Forest::new();
    assert_eq!(forest.next_floating_cascade_index("main"), 0);
    assert_eq!(forest.next_floating_cascade_index("main"), 1);
    assert_eq!(forest.next_floating_cascade_index("main"), 2);
    assert_eq!(forest.next_floating_cascade_index("side"), 0);
    assert_eq!(forest.next_floating_cascade_index("main"), 3);
}

#[test]
fn capture_resize_snapshot_is_none_with_fewer_than_two_tiled_windows() {
    let mut state = one_display();
    assert_eq!(state.resizable_workspace(), None);

    tile(&mut state, 1, 10);
    assert_eq!(
        state.resizable_workspace(),
        None,
        "a lone tiled window has no sibling to resize against"
    );
    float(&mut state, 2, 20);
    assert_eq!(state.resizable_workspace(), None);
}

#[test]
fn capture_resize_snapshot_returns_the_current_tiled_layout() {
    let mut state = one_display();
    tile(&mut state, 1, 10);
    tile(&mut state, 2, 20);

    let workspace = state
        .resizable_workspace()
        .expect("two tiled windows share a resizable border");
    assert_eq!(workspace, "main");
    assert_eq!(state.focused_monitor(), 1);
    assert_eq!(state.tiled_windows_in(&workspace), vec![1, 2]);
}

#[test]
fn capture_resize_snapshot_is_none_during_tiled_fullscreen() {
    let mut state = one_display();
    tile(&mut state, 1, 10);
    tile(&mut state, 2, 20);
    state.toggle_fullscreen(false).unwrap();

    assert_eq!(
        state.resizable_workspace(),
        None,
        "only one window is actually on screen during tiled fullscreen"
    );
}

#[test]
fn maybe_capture_manual_geometry_ignores_an_unchanged_frame() {
    let mut state = one_display();
    float(&mut state, 1, 10);
    float(&mut state, 1, 10);
    assert_eq!(
        state.placement(1),
        Some(PlacementKind::Floating { manual: None })
    );
}

#[test]
fn maybe_capture_manual_geometry_captures_on_drift() {
    let mut state = one_display();
    float(&mut state, 1, 10);
    let dragged = Scanned {
        moved_to: Some(geometry()),
        ..found(WindowKind::Dialog)
    };
    take_in(&mut state, 1, dragged, reply(0));
    assert_eq!(
        state.placement(1),
        Some(PlacementKind::Floating {
            manual: Some(geometry())
        })
    );
}

#[test]
fn maybe_capture_manual_geometry_is_idempotent_once_captured() {
    let mut state = one_display();
    float(&mut state, 1, 10);
    state.capture_manual_geometry(1, geometry());
    state.capture_manual_geometry(
        1,
        FloatGeometry {
            rel_x: 0.9f64.to_bits(),
            ..geometry()
        },
    );
    assert_eq!(
        state.placement(1),
        Some(PlacementKind::Floating {
            manual: Some(geometry())
        })
    );
}

#[test]
fn parked_positionable_ids_includes_only_parked_tiled_and_floating() {
    let mut state = one_display();
    declare(&mut state, &["main", "parked"]);
    state.switch_workspace("parked", None).unwrap();
    tile(&mut state, 1, 10);
    float(&mut state, 2, 20);
    take_in(&mut state, 4, minimized(), reply(0));
    state.switch_workspace("main", None).unwrap();
    tile(&mut state, 3, 30);

    let mut ids = state.parked_positionable_ids();
    ids.sort_unstable();
    assert_eq!(ids, vec![1, 2]);
    assert!(state.is_parked(1));
    assert!(!state.is_parked(3));
    assert!(!state.is_parked(4));
}

#[test]
fn reconcile_existing_placement_reparks_an_already_parked_window() {
    let mut state = one_display();
    declare(&mut state, &["main", "parked"]);
    state.switch_workspace("parked", None).unwrap();
    float(&mut state, 1, 10);
    state.switch_workspace("main", None).unwrap();

    let actions = float(&mut state, 1, 10);

    assert_eq!(actions, vec![Action::Park(1)]);
    assert!(state.parked_positionable_ids().contains(&1));
}

#[test]
fn unpark_all_does_not_panic_with_no_real_windows() {
    let mut state = one_display();
    assert!(state.unpark_all().is_empty());
    declare(&mut state, &["main", "parked"]);
    state.switch_workspace("parked", None).unwrap();
    tile(&mut state, 1, 10);
    state.switch_workspace("main", None).unwrap();
    let back = state.unpark_all();
    assert_eq!(back.len(), 1);
    assert_eq!(back[0].window, 1);
}

#[test]
fn finalize_expired_removals_drops_entries_past_the_grace_period() {
    let mut state = one_display();
    state.set_removal_grace(0);
    tile(&mut state, 1, 10);
    lose(&mut state, &[1], 0);
    assert_eq!(state.placement(1), None);
    assert!(state.expired_removals(0).is_empty());
    assert!(state.list_windows().is_empty());
}

#[test]
fn finalize_expired_removals_keeps_entries_still_within_the_grace_period() {
    let mut state = one_display();
    state.set_removal_grace(3_600_000);
    tile(&mut state, 1, 10);
    lose(&mut state, &[1], 1_000);
    assert_eq!(state.placement(1), Some(PlacementKind::Tiled));
    assert_eq!(state.expired_removals(3_600_000), vec![1]);
}

#[test]
fn note_system_wake_keeps_a_pending_removal_alive_past_zero_removal_grace() {
    let mut state = one_display();
    state.set_removal_grace(0);
    state.note_system_wake(0);
    tile(&mut state, 1, 10);
    lose(&mut state, &[1], 0);
    assert_eq!(state.placement(1), Some(PlacementKind::Tiled));
    assert_eq!(state.expired_removals(90_000), vec![1]);
}

#[test]
fn an_expired_wake_grace_falls_back_to_removal_grace() {
    let mut state = one_display();
    state.set_removal_grace(0);
    state.note_system_wake(0);
    tile(&mut state, 1, 10);
    state.begin_scan(PID, &vec![], 91_000);
    state.finalize_expired_removals(91_000, &vec![]);
    assert_eq!(state.placement(1), None);
}

#[test]
fn finalize_expired_removals_relayouts_the_survivors() {
    let mut state = one_display();
    state.set_removal_grace(0);
    tile(&mut state, 1, 10);
    tile(&mut state, 2, 20);
    let actions = lose(&mut state, &[1], 0);
    assert_eq!(state.placement(1), None);
    assert_eq!(state.placement(2), Some(PlacementKind::Tiled));
    assert!(
        relayouts(&actions) > 0,
        "closing a tiled window must trigger a relayout so the survivor fills the freed space"
    );
}

#[test]
fn finalize_expired_removals_skips_relayout_when_nothing_expired() {
    let mut state = one_display();
    state.set_removal_grace(3_600_000);
    tile(&mut state, 1, 10);
    let actions = lose(&mut state, &[1], 0);
    assert_eq!(relayouts(&actions), 0);
}

#[test]
fn finalize_expired_launches_drops_entries_past_the_grace_period() {
    let mut state = one_display();
    state.set_launch_grace(0);
    state.note_app_launched(1234, 0);
    state.finalize_expired_launches(0);
    assert!(!state.is_launching());
}

#[test]
fn finalize_expired_launches_keeps_entries_still_within_the_grace_period() {
    let mut state = one_display();
    state.set_launch_grace(3_600_000);
    state.note_app_launched(1234, 0);
    state.finalize_expired_launches(0);
    assert!(state.is_launching());
}

#[test]
fn reveal_current_frontmost_skips_while_a_launch_is_pending() {
    let mut state = one_display();
    tile(&mut state, 1, 10);
    state.note_app_launched(1234, 0);

    let actions = state.reveal_current_frontmost(Some(PID), Some(1), None, false, 0, None);

    assert_eq!(state.last_frontmost_pid(), None);
    assert_eq!(relayouts(&actions), 0);
    assert!(actions.is_empty());
}

#[test]
fn remove_app_clears_pending_launch_pids() {
    let mut state = one_display();
    state.note_app_launched(1234, 0);
    state.remove_app(1234, &vec![]);
    assert!(!state.is_launching());
}

#[test]
fn toggle_orientation_flips_between_horizontal_and_vertical() {
    let mut state = one_display();
    tile(&mut state, 1, 10);
    tile(&mut state, 2, 20);
    let before = state.root_orientation_hint();
    assert_eq!(before, OrientationKind::Horizontal);
    assert!(state.toggle_orientation(false, true).is_ok());
    let after = next_orientation(Some(before));
    assert_ne!(before, after);
    assert!(state.toggle_orientation(false, true).is_ok());
    assert_eq!(next_orientation(Some(after)), before);
}

#[test]
fn toggle_orientation_errors_when_nothing_is_focused() {
    let state = one_display();
    assert!(state.toggle_orientation(false, true).is_err());
}

#[test]
fn current_mode_auto_exits_reflects_config() {
    let mut state = one_display();
    let config = parse(
        r#"
        keybindings mode="main" {
            bind "alt-shift-s" "mode manage"
        }
        keybindings mode="manage" auto-exit=#true {
            bind "escape" "mode main"
        }
        "#,
    )
    .unwrap();
    state.apply_config(&config);

    assert!(!state.current_mode_auto_exits());

    state.enter_mode("manage").unwrap();
    assert!(state.current_mode_auto_exits());

    state.exit_mode();
    assert!(!state.current_mode_auto_exits());
}

#[test]
fn current_mode_auto_exits_defaults_false_when_flag_omitted() {
    let mut state = one_display();
    let config = parse(
        r#"
        keybindings mode="resize" {
            bind "escape" "mode main"
        }
        "#,
    )
    .unwrap();
    state.apply_config(&config);

    state.enter_mode("resize").unwrap();
    assert!(!state.current_mode_auto_exits());
}

#[test]
fn balance_sizes_resets_skewed_weights() {
    let mut state = one_display();
    tile(&mut state, 1, 10);
    tile(&mut state, 2, 20);
    assert_eq!(
        state.balance_sizes(false, true),
        Ok(vec![Action::Relayout(1)])
    );
    assert_eq!(
        state.balance_sizes(false, false),
        Err("nothing to balance — only one window here".to_string())
    );
}

#[test]
fn balance_sizes_errors_when_nothing_is_focused() {
    let state = one_display();
    assert!(state.balance_sizes(false, true).is_err());
}

#[test]
fn toggle_fullscreen_tiled_marks_and_clears_fullscreen_focus() {
    let mut state = one_display();
    tile(&mut state, 1, 10);

    assert!(state.toggle_fullscreen(false).is_ok());
    assert_eq!(state.fullscreen_of("main"), Some(10));
    assert_eq!(
        state.layout_plan(1),
        Some(LayoutPlan::Fill { window: Some(1) })
    );

    assert!(state.toggle_fullscreen(false).is_ok());
    assert_eq!(state.fullscreen_of("main"), None);
}

#[test]
fn toggle_fullscreen_errors_when_nothing_is_focused() {
    let mut state = one_display();
    assert!(state.toggle_fullscreen(false).is_err());
    assert!(state.toggle_fullscreen(true).is_err());
}

#[test]
fn removing_the_fullscreened_window_clears_fullscreen_focus() {
    let mut state = one_display();
    tile(&mut state, 1, 10);
    state.toggle_fullscreen(false).unwrap();
    assert_eq!(state.fullscreen_of("main"), Some(10));

    state.remove_app(PID, &vec![]);

    assert_eq!(state.fullscreen_of("main"), None);
}

#[test]
fn close_focused_errors_when_nothing_is_focused() {
    let state = one_display();
    assert!(state.close_focused().is_err());
}

#[test]
fn summon_errors_when_no_window_matches() {
    let mut state = one_display();
    assert!(state.summon("nonexistent", None).is_err());
}

#[test]
fn resolve_monitor_target_id_main_and_next() {
    let desk = Desk::new(
        vec![display(1, 0.0), display(2, 1920.0)],
        "main".to_string(),
    );
    assert_eq!(desk.resolve_monitor_target(MonitorTarget::Id(2)), Ok(2));
    assert_eq!(
        desk.resolve_monitor_target(MonitorTarget::Id(99)),
        Err("no connected monitor with id 99".to_string())
    );
    assert_eq!(desk.resolve_monitor_target(MonitorTarget::Main), Ok(1));
    assert_eq!(desk.resolve_monitor_target(MonitorTarget::Next), Ok(2));
}

#[test]
fn a_monitor_that_is_not_there_is_no_target() {
    let lone = Desk::new(vec![display(2, 0.0)], "main".to_string());
    assert_eq!(
        lone.resolve_monitor_target(MonitorTarget::Main),
        Err("no main monitor connected".to_string())
    );
    assert_eq!(
        lone.resolve_monitor_target(MonitorTarget::Next),
        Err("fewer than two monitors connected".to_string())
    );
}

#[test]
fn move_workspace_to_monitor_swaps_with_whatever_is_there() {
    let mut state = two_displays();
    assert!(state
        .move_workspace_to_monitor(Some("a"), MonitorTarget::Id(2))
        .is_ok());
    assert_eq!(state.active_on(2).as_deref(), Some("a"));
    assert_eq!(state.active_on(1).as_deref(), Some("b"));
}

#[test]
fn move_workspace_to_monitor_from_parked_displaces_whatever_was_shown() {
    let mut state = two_displays();
    let actions = state
        .move_workspace_to_monitor(Some("c"), MonitorTarget::Id(2))
        .unwrap();
    assert_eq!(state.active_on(2).as_deref(), Some("c"));
    assert_eq!(state.active_on(1).as_deref(), Some("a"));
    assert!(actions.contains(&Action::ParkTiled("b".to_string())));
}

#[test]
fn move_workspace_to_monitor_errors_for_an_undeclared_workspace() {
    let mut state = one_display();
    assert!(state
        .move_workspace_to_monitor(Some("nope"), MonitorTarget::Main)
        .is_err());
}

#[test]
fn move_workspace_to_monitor_with_no_name_targets_the_current_workspace() {
    let mut state = two_displays();
    assert!(state
        .move_workspace_to_monitor(None, MonitorTarget::Id(2))
        .is_ok());
    assert_eq!(state.active_on(2).as_deref(), Some("a"));
    assert_eq!(state.active_on(1).as_deref(), Some("b"));
}

#[test]
fn set_floating_true_moves_the_focused_tiled_window_out_of_the_tree() {
    let mut state = one_display();
    tile(&mut state, 1, 10);

    assert!(state.set_floating(true, None, 11).is_ok());

    assert!(matches!(
        state.placement(1),
        Some(PlacementKind::Floating { .. })
    ));
    assert_eq!(state.focused_node(), Some(11));
    assert!(!state.tiled_windows_in("main").contains(&1));
    assert_eq!(state.floating_windows_in("main"), vec![1]);
}

#[test]
fn set_floating_false_moves_a_floating_window_into_the_tree() {
    let mut state = one_display();
    float(&mut state, 1, 10);

    assert!(state.set_floating(false, None, 11).is_ok());

    assert_eq!(state.placement(1), Some(PlacementKind::Tiled));
    assert!(state.tiled_windows_in("main").contains(&1));
}

#[test]
fn set_floating_true_targets_the_tiled_focus_even_with_another_window_already_floating() {
    let mut state = one_display();
    tile(&mut state, 2, 20);
    float(&mut state, 1, 10);
    assert_eq!(state.focused_node(), Some(20));

    assert!(state.set_floating(true, Some(10), 21).is_ok());

    assert!(matches!(
        state.placement(2),
        Some(PlacementKind::Floating { .. })
    ));
    assert!(matches!(
        state.placement(1),
        Some(PlacementKind::Floating { .. })
    ));
}

#[test]
fn set_floating_true_errors_when_nothing_is_focused() {
    let mut state = one_display();
    assert!(state.set_floating(true, None, 1).is_err());
}

#[test]
fn set_floating_false_errors_when_nothing_is_floating() {
    let mut state = one_display();
    assert!(state.set_floating(false, None, 1).is_err());
    tile(&mut state, 1, 10);
    assert_eq!(
        state.set_floating(false, None, 1),
        Err("focused window is already tiled".to_string())
    );
}

#[test]
fn switch_to_previous_workspace_toggles_back_and_forth() {
    let mut state = one_display();
    declare(&mut state, &["a", "b"]);

    assert!(state.switch_to_previous_workspace(None).is_err());

    assert!(state.switch_workspace("b", None).is_ok());
    assert_eq!(state.active_workspace_name(), "b");

    assert!(state.switch_to_previous_workspace(None).is_ok());
    assert_eq!(state.active_workspace_name(), "a");

    assert!(state.switch_to_previous_workspace(None).is_ok());
    assert_eq!(state.active_workspace_name(), "b");
    assert_eq!(state.previous_workspace().as_deref(), Some("a"));
}

#[test]
fn switch_epoch_bumps_only_on_a_real_switch() {
    let mut state = one_display();
    declare(&mut state, &["a", "b"]);

    let epoch0 = state.switch_epoch();

    assert!(state.switch_workspace("a", None).is_ok());
    assert_eq!(state.switch_epoch(), epoch0);

    assert!(state.switch_workspace("nope", None).is_err());
    assert_eq!(state.switch_epoch(), epoch0);

    assert!(state.switch_workspace("b", None).is_ok());
    assert_eq!(state.switch_epoch(), epoch0 + 1);

    assert!(state.switch_to_previous_workspace(None).is_ok());
    assert_eq!(state.switch_epoch(), epoch0 + 2);
}

#[test]
fn apply_config_keeps_a_workspace_rule_when_its_workspace_is_declared() {
    let config = parse(
        r#"
        workspaces {
            workspace "work"
        }
        workspace-rules {
            rule app-id="com.mitchellh.ghostty" workspace="work"
        }
        "#,
    )
    .unwrap();
    let (rules, warnings) = compile_workspace_rules(&config.workspace_rules, &config.workspaces);
    assert_eq!(rules.len(), 1);
    assert_eq!(rules[0].app_id, "com.mitchellh.ghostty");
    assert_eq!(rules[0].workspace, "work");
    assert!(warnings.is_empty());

    let mut state = one_display();
    state.apply_config(&config);
    assert!(state.config_warnings().is_empty());
    let ghostty = Scanned {
        window: Window {
            bundle_id: Some("com.mitchellh.ghostty".to_string()),
            ..found(WindowKind::Standard).window
        },
        ..found(WindowKind::Standard)
    };
    assert!(matches!(
        state.scan_plan(1, &ghostty, "elsewhere"),
        ScanPlan::New { workspace, .. } if workspace == "work"
    ));
}

#[test]
fn apply_config_drops_the_whole_workspace_rule_when_its_workspace_isnt_declared() {
    let config = parse(
        r#"
        workspace-rules {
            rule app-id="com.mitchellh.ghostty" workspace="ghost"
        }
        "#,
    )
    .unwrap();
    let (rules, warnings) = compile_workspace_rules(&config.workspace_rules, &config.workspaces);
    assert!(
        rules.is_empty(),
        "an undeclared workspace target has nothing else in the rule worth keeping"
    );
    assert_eq!(warnings.len(), 1);

    let mut state = one_display();
    state.apply_config(&config);
    assert_eq!(state.config_warnings(), warnings);
}

#[test]
fn place_new_window_tiled_into_the_active_workspace_matches_previous_behavior() {
    let mut state = one_display();
    let actions = tile(&mut state, 1, 10);
    assert_eq!(state.tiled_windows_in("main"), vec![1]);
    assert_eq!(relayouts(&actions), 0);
    assert_eq!(state.end_scan(), vec![Action::Relayout(1)]);
}

/// A state in which windows of the test application start on `side`.
fn ruled(names: &[&str], side: &str, displays: Vec<Monitor>) -> WmState {
    let mut state = WmState::new(displays);
    let mut source = String::from("workspaces {\n");
    for name in names {
        source.push_str(&format!("workspace \"{name}\"\n"));
    }
    source.push_str(&format!(
        "}}\nworkspace-rules {{ rule app-id=\"org.example.editor\" workspace=\"{side}\"; }}\n"
    ));
    state.apply_config(&parse(&source).unwrap());
    state
}

#[test]
fn place_new_window_tiled_into_an_inactive_workspace_switches_to_it_instead_of_parking() {
    let mut state = ruled(&["main", "side"], "side", vec![display(1, 0.0)]);
    assert_eq!(state.active_workspace_name(), "main");

    let actions = tile(&mut state, 1, 10);

    assert_eq!(state.tiled_windows_in("side"), vec![1]);
    assert_eq!(state.active_workspace_name(), "side");
    assert!(relayouts(&actions) > 0);
}

#[test]
fn a_waking_system_does_not_switch_for_a_new_window() {
    let mut state = ruled(&["main", "side"], "side", vec![display(1, 0.0)]);
    state.note_system_wake(0);
    let actions = tile(&mut state, 1, 10);
    assert_eq!(actions, vec![Action::Park(1)]);
    assert_eq!(state.tiled_windows_in("side"), vec![1]);
    assert_eq!(state.active_workspace_name(), "main");
    assert!(state.parked_positionable_ids().contains(&1));
}

#[test]
fn place_new_window_tiled_into_a_workspace_active_on_another_monitor_swaps_monitors_to_show_it() {
    let mut state = ruled(&["a", "b"], "b", vec![display(1, 0.0), display(2, 1920.0)]);
    state
        .move_workspace_to_monitor(Some("b"), MonitorTarget::Id(2))
        .unwrap();

    let actions = tile(&mut state, 1, 10);

    assert_eq!(state.tiled_windows_in("b"), vec![1]);
    assert!(relayouts(&actions) > 0);
    assert_eq!(
        state.active_on(1).as_deref(),
        Some("b"),
        "the focused monitor should now show 'b', the workspace the new window landed on"
    );
    assert_eq!(
        state.active_on(2).as_deref(),
        Some("a"),
        "monitor 2 should pick up whatever monitor 1 was showing before, swap-style"
    );
}

#[test]
fn place_new_window_floating_joins_the_tree_as_an_inert_leaf() {
    let mut state = one_display();
    let actions = float(&mut state, 1, 10);
    assert_eq!(state.focused_node(), Some(10));
    assert_eq!(state.list_workspaces()[0].window_count, 1);
    assert!(!state.tiled_windows_in("main").contains(&1));
    assert_eq!(actions, vec![Action::PlaceFloating(1)]);
}

#[test]
fn move_focused_to_workspace_swaps_monitors_when_target_visible_on_another_monitor() {
    let mut state = two_displays();
    tile(&mut state, 1, 10);

    let actions = state.move_focused_to_workspace("b", None, 11).unwrap();
    assert!(relayouts(&actions) > 0);
    assert_eq!(
        state.active_on(1).as_deref(),
        Some("b"),
        "the focused monitor should now show 'b', the workspace the window was moved to"
    );
    assert_eq!(
        state.active_on(2).as_deref(),
        Some("a"),
        "monitor 2 should pick up whatever monitor 1 was showing before, swap-style"
    );
}

#[test]
fn move_focused_to_workspace_switches_active_workspace() {
    let mut state = one_display();
    declare(&mut state, &["main", "side"]);
    tile(&mut state, 1, 10);

    assert!(state.move_focused_to_workspace("side", None, 11).is_ok());

    assert_eq!(state.active_workspace_name(), "side");
    assert_eq!(state.tiled_windows_in("side"), vec![1]);
    assert!(state.tiled_windows_in("main").is_empty());
}

#[test]
fn move_focused_to_workspace_moves_the_floating_focus_not_a_stale_tiled_one() {
    let mut state = one_display();
    declare(&mut state, &["main", "random"]);
    tile(&mut state, 1, 10);
    float(&mut state, 2, 20);
    state.sync_focus(2);

    assert!(state
        .move_focused_to_workspace("random", Some(10), 21)
        .is_ok());

    assert_eq!(state.workspace_of(2).as_deref(), Some("random"));
    assert!(matches!(
        state.placement(2),
        Some(PlacementKind::Floating { .. })
    ));
    assert_eq!(
        state.workspace_of(1).as_deref(),
        Some("main"),
        "the tiled window must stay put"
    );
    assert_eq!(state.tiled_windows_in("main"), vec![1]);
}

#[test]
fn move_focused_errors_when_the_focused_window_is_floating() {
    let mut state = one_display();
    float(&mut state, 1, 10);

    assert!(state.move_focused(true).is_err());
    assert!(state.join(true).is_err());
    assert!(state.resize(true).is_err());
    assert!(state.balance_sizes(false, true).is_err());
    assert!(state.set_layout(LayoutKind::Tiles, false, true, true).is_err());
    assert!(state.toggle_fullscreen(false).is_err());
}

#[test]
fn a_failed_command_changes_nothing() {
    let mut state = two_displays();
    tile(&mut state, 1, 10);
    let before = (state.list_monitors(), state.list_workspaces());
    assert!(state.switch_workspace("nope", None).is_err());
    assert!(state.move_focused_to_workspace("nope", None, 9).is_err());
    assert!(state.summon("nothing like that", None).is_err());
    assert!(state.focus(None).is_err());
    assert_eq!(before, (state.list_monitors(), state.list_workspaces()));
}

#[test]
fn no_two_monitors_come_to_show_one_workspace() {
    let mut state = two_displays();
    for name in ["b", "c", "a", "b", "a"] {
        state.switch_workspace(name, None).unwrap();
        state.focus_monitor_next();
        assert_ne!(state.active_on(1), state.active_on(2));
    }
}

#[test]
fn switching_parks_what_was_shown() {
    let mut state = one_display();
    declare(&mut state, &["a", "b"]);
    tile(&mut state, 1, 10);
    let actions = state.switch_workspace("b", None).unwrap();
    assert_eq!(
        actions,
        vec![
            Action::Relayout(1),
            Action::RepositionFloating(1),
            Action::ParkFloating("a".to_string()),
            Action::ParkTiled("a".to_string()),
        ]
    );
    let actions = state.switch_workspace("a", None).unwrap();
    assert!(actions.contains(&Action::RecordFocus {
        workspace: "a".to_string(),
        node: 10
    }));
    assert!(actions.contains(&Action::Raise {
        window: 1,
        warp: false
    }));
}

#[test]
fn summoning_brings_the_workspace_of_a_window_into_view() {
    let mut state = one_display();
    declare(&mut state, &["a", "b"]);
    tile(&mut state, 1, 10);
    state.switch_workspace("b", None).unwrap();
    let actions = state.summon("example.edit", None).unwrap();
    assert_eq!(state.active_workspace_name(), "a");
    assert_eq!(
        actions.last(),
        Some(&Action::Raise {
            window: 1,
            warp: false
        })
    );
    assert_eq!(state.last_frontmost_pid(), Some(PID));
}

#[test]
fn what_is_in_front_is_brought_into_view() {
    let mut state = one_display();
    declare(&mut state, &["a", "b"]);
    tile(&mut state, 1, 10);
    state.switch_workspace("b", None).unwrap();
    state.reveal_frontmost(PID, Some(1), None, false, 0, None);
    assert_eq!(state.active_workspace_name(), "a");

    state.switch_workspace("b", None).unwrap();
    state.reveal_frontmost(PID, Some(1), None, false, 0, None);
    assert_eq!(state.active_workspace_name(), "b");
    state.reveal_frontmost(PID, Some(1), None, true, 0, None);
    assert_eq!(state.active_workspace_name(), "a");
}

#[test]
fn displays_come_and_go() {
    let mut state = two_displays();
    let lone = MonitorDiff {
        renamed: vec![],
        disconnected: vec![2],
        connected: vec![],
    };
    let actions = state.on_displays_changed(vec![display(1, 0.0)], &lone);
    assert_eq!(
        actions,
        vec![
            Action::ParkTiled("b".to_string()),
            Action::ParkFloating("b".to_string()),
            Action::RefreshAll,
        ]
    );
    assert_eq!(state.active_on(2), None);

    let third = MonitorDiff {
        renamed: vec![(1, 7)],
        disconnected: vec![],
        connected: vec![3],
    };
    state.on_displays_changed(vec![display(7, 0.0), display(3, 1920.0)], &third);
    assert_eq!(state.active_on(7).as_deref(), Some("a"));
    assert_eq!(state.active_on(3).as_deref(), Some("monitor-3"));
    assert_eq!(state.focused_monitor(), 7);

    let none = MonitorDiff {
        renamed: vec![],
        disconnected: vec![7, 3],
        connected: vec![],
    };
    assert!(state.on_displays_changed(vec![], &none).is_empty());
    assert_eq!(state.active_on(7).as_deref(), Some("a"));
}

#[test]
fn a_window_without_a_bundle_id_is_put_off() {
    let mut state = one_display();
    let anonymous = || Scanned {
        window: Window {
            bundle_id: None,
            ..found(WindowKind::Standard).window
        },
        ..found(WindowKind::Standard)
    };
    assert_eq!(
        state.scan_plan(1, &anonymous(), "main"),
        ScanPlan::PutOff
    );
    let mut tries = 0;
    while state.placement(1).is_none() {
        take_in(&mut state, 1, anonymous(), reply(10));
        tries += 1;
        assert!(tries < 100);
    }
    assert!(tries > 1);
    assert_eq!(state.placement(1), Some(PlacementKind::Tiled));
}

#[test]
fn floating_rules_match_titles() {
    let mut state = one_display();
    let config = parse(
        r#"
        floating-rules {
            rule app-id="org.example.editor" title="^no.es$" mode="float"
        }
        "#,
    )
    .unwrap();
    state.apply_config(&config);
    assert!(matches!(
        state.scan_plan(1, &found(WindowKind::Standard), "main"),
        ScanPlan::New {
            kind: PlacementKind::Floating { manual: None },
            ..
        }
    ));
    let other = Scanned {
        window: Window {
            title: "my notes".to_string(),
            ..found(WindowKind::Standard).window
        },
        ..found(WindowKind::Standard)
    };
    assert!(matches!(
        state.scan_plan(1, &other, "main"),
        ScanPlan::New {
            kind: PlacementKind::Tiled,
            ..
        }
    ));
}

#[test]
fn windows_are_listed_with_their_placements() {
    let mut state = one_display();
    tile(&mut state, 1, 10);
    float(&mut state, 2, 20);
    let mut listed: Vec<(u32, PlacementInfo)> = state
        .list_windows()
        .iter()
        .map(|w| (w.id, w.placement))
        .collect();
    listed.sort_by_key(|w| w.0);
    assert_eq!(
        listed,
        vec![(1, PlacementInfo::Tiled), (2, PlacementInfo::Floating)]
    );
}

#[test]
fn workspaces_are_listed_by_name() {
    let mut state = one_display();
    declare(&mut state, &["zoo", "art", "Mail"]);
    let names: Vec<String> = state
        .list_workspaces()
        .into_iter()
        .map(|w| w.name)
        .collect();
    assert_eq!(names, vec!["Mail", "art", "zoo"]);
}

#[test]
fn the_first_workspace_is_the_one_set_or_the_least() {
    let config = parse("workspaces { workspace \"b\"; workspace \"a\"; }").unwrap();
    assert_eq!(resolve_default_workspace(&config).as_deref(), Some("a"));
    let config = parse(
        "workspaces { workspace \"b\"; workspace \"a\"; }\nsettings { default-workspace \"b\"; }",
    )
    .unwrap();
    assert_eq!(resolve_default_workspace(&config).as_deref(), Some("b"));
    let config = parse("settings { default-workspace \"b\"; }").unwrap();
    assert_eq!(resolve_default_workspace(&config), None);
}

#[test]
fn a_reload_keeps_what_is_shown() {
    let mut state = one_display();
    declare(&mut state, &["a", "b"]);
    state.switch_workspace("b", None).unwrap();
    declare(&mut state, &["a", "b", "c"]);
    assert_eq!(state.active_workspace_name(), "b");
    assert_eq!(state.list_workspaces().len(), 3);
}

#[test]
fn a_mouse_button_holds_the_layout() {
    let mut state = one_display();
    state.on_mouse_button_down();
    assert!(state.end_scan().is_empty());
    assert_eq!(state.on_mouse_button_up(), vec![Action::Relayout(1)]);
    assert_eq!(state.end_scan(), vec![Action::Relayout(1)]);
}

#[test]
fn the_cursor_chooses_a_monitor_only_if_asked_to() {
    let mut state = two_displays();
    state.on_mouse_moved(Some(2));
    assert_eq!(state.focused_monitor(), 1);
    state.apply_config(&parse("settings { focus-follows-monitor #true; }").unwrap());
    state.on_mouse_moved(Some(2));
    assert_eq!(state.focused_monitor(), 2);
    state.on_mouse_moved(None);
    assert_eq!(state.focused_monitor(), 2);
}

#[test]
fn a_forgotten_window_leaves_no_trace() {
    let mut state = one_display();
    tile(&mut state, 1, 10);
    tile(&mut state, 2, 20);
    state.remove_app(PID, &vec![]);
    assert!(state.list_windows().is_empty());
    assert_eq!(state.placement(1), None);
    assert_eq!(state.list_workspaces()[0].window_count, 0);
    assert_eq!(state.focused_node(), None);
}

#[test]
fn a_leaf_taken_out_hands_its_focus_on() {
    let mut forest = Forest::new();
    forest.declare("a");
    forest.add_leaf(
        "a",
        Leaf {
            node: 10,
            window: 1,
        },
    );
    forest.add_leaf(
        "a",
        Leaf {
            node: 20,
            window: 2,
        },
    );
    forest.set_first_focus("a", 10);
    forest.set_first_focus("a", 20);
    assert_eq!(forest.focus("a"), Some(10));
    assert_eq!(forest.take_out("a", 1, Some(20)), Some(20));
    assert_eq!(forest.focus("a"), Some(20));
    assert_eq!(forest.window_count("a"), 1);
    assert_eq!(forest.node_of("a", 1), None);
}

#[test]
fn only_windows_with_an_area_count() {
    assert!(has_area(&rect(0.0, 0.0, 1.0, 1.0)));
    assert!(!has_area(&rect(0.0, 0.0, 0.0, 1.0)));
    assert!(!has_area(&rect(0.0, 0.0, 1.0, -1.0)));
}

#[test]
fn a_floating_window_gets_its_first_place_once() {
    let mut state = one_display();
    float(&mut state, 1, 10);
    assert_eq!(state.capture_monitor(1), Some(1));
    assert_eq!(
        state.floating_plan(1),
        vec![FloatingStep::Place { window: 1 }]
    );
    let share = Extent::Share(Ratio::Double(SIX_TENTHS));
    assert_eq!(
        state.place_floating_window(1),
        Some(FirstPlace {
            width: share,
            height: share,
            center: true,
            steps: 0
        })
    );
    assert!(state.floating_plan(1).is_empty());
    state.capture_manual_geometry(1, geometry());
    assert_eq!(
        state.floating_plan(1),
        vec![FloatingStep::Restore {
            window: 1,
            geometry: geometry()
        }]
    );
    assert_eq!(state.place_floating_window(99), None);
}

#[test]
fn a_rule_sizes_floating_windows() {
    let mut state = one_display();
    let config = parse(
        r#"
        floating-rules {
            rule app-id="org.example.editor" { width 900; center #false; }
        }
        "#,
    )
    .unwrap();
    state.apply_config(&config);
    tile(&mut state, 1, 10);
    assert!(matches!(
        state.placement(1),
        Some(PlacementKind::Floating { .. })
    ));
    let place = state.place_floating_window(1).unwrap();
    assert_eq!(place.width, Extent::Points(900));
    assert!(!place.center);
}

#[test]
fn monitors_are_laid_out_by_what_they_show() {
    let mut state = one_display();
    let config = parse(
        r#"
        workspaces { workspace "a"; workspace "b"; }
        gaps {
            inner 4
            outer 1 2 3 4
            workspace "b" { inner 9; }
        }
        "#,
    )
    .unwrap();
    state.apply_config(&config);
    let plan = |workspace: &str, gaps: Gaps| {
        Some(LayoutPlan::Tree {
            workspace: workspace.to_string(),
            gaps,
            accordion_padding: 30,
        })
    };
    assert_eq!(
        state.layout_plan(1),
        plan(
            "a",
            Gaps {
                inner: 4,
                outer: (1, 2, 3, 4)
            }
        )
    );
    state.switch_workspace("b", None).unwrap();
    assert_eq!(
        state.layout_plan(1),
        plan(
            "b",
            Gaps {
                inner: 9,
                outer: (0, 0, 0, 0)
            }
        )
    );
    assert_eq!(state.layout_plan(7), None);
}

fn connects(id: u32) -> MonitorDiff {
    MonitorDiff {
        renamed: vec![],
        disconnected: vec![],
        connected: vec![id],
    }
}

#[test]
fn a_new_display_gets_a_workspace_that_no_other_shows() {
    let mut state = one_display();
    declare(&mut state, &["monitor-3"]);
    assert_eq!(state.active_on(1).as_deref(), Some("monitor-3"));
    state.on_displays_changed(vec![display(1, 0.0), display(3, 1920.0)], &connects(3));
    assert_eq!(state.active_on(1).as_deref(), Some("monitor-3"));
    assert_eq!(state.active_on(3).as_deref(), Some("monitor-3-1"));
    assert_eq!(state.list_workspaces().len(), 2);
}

#[test]
fn a_new_display_gets_a_workspace_without_windows() {
    let mut state = one_display();
    declare(&mut state, &["a", "monitor-3", "monitor-3-1"]);
    state.switch_workspace("monitor-3", None).unwrap();
    tile(&mut state, 1, 10);
    state.switch_workspace("monitor-3-1", None).unwrap();
    take_in(&mut state, 2, minimized(), reply(0));
    state.switch_workspace("a", None).unwrap();
    state.on_displays_changed(vec![display(1, 0.0), display(3, 1920.0)], &connects(3));
    assert_eq!(state.active_on(3).as_deref(), Some("monitor-3-2"));
    assert!(state.tiled_windows_in("monitor-3-2").is_empty());
    assert_eq!(state.tiled_windows_in("monitor-3"), vec![1]);
}

#[test]
fn a_display_that_comes_again_gets_its_empty_workspace_again() {
    let mut state = one_display();
    let both = || vec![display(1, 0.0), display(3, 1920.0)];
    state.on_displays_changed(both(), &connects(3));
    assert_eq!(state.active_on(3).as_deref(), Some("monitor-3"));
    let gone = MonitorDiff {
        renamed: vec![],
        disconnected: vec![3],
        connected: vec![],
    };
    state.on_displays_changed(vec![display(1, 0.0)], &gone);
    state.on_displays_changed(both(), &connects(3));
    assert_eq!(state.active_on(3).as_deref(), Some("monitor-3"));
}

#[test]
fn moving_the_window_that_fills_a_monitor_clears_what_fills_it() {
    let mut state = one_display();
    declare(&mut state, &["a", "b"]);
    tile(&mut state, 1, 10);
    tile(&mut state, 2, 20);
    state.sync_focus(1);
    state.toggle_fullscreen(false).unwrap();
    assert_eq!(state.fullscreen_of("a"), Some(10));
    state.move_focused_to_workspace("b", Some(20), 11).unwrap();
    assert_eq!(state.fullscreen_of("a"), None);
    assert_eq!(state.fullscreen_of("b"), None);

    state.switch_workspace("a", None).unwrap();
    state.toggle_fullscreen(false).unwrap();
    assert_eq!(state.fullscreen_of("a"), Some(20));
}

#[test]
fn moving_another_window_leaves_what_fills_a_monitor() {
    let mut state = one_display();
    declare(&mut state, &["a", "b"]);
    tile(&mut state, 1, 10);
    tile(&mut state, 2, 20);
    state.sync_focus(1);
    state.toggle_fullscreen(false).unwrap();
    state.sync_focus(2);
    state.move_focused_to_workspace("b", Some(10), 21).unwrap();
    assert_eq!(state.fullscreen_of("a"), Some(10));
}

#[test]
fn native_fullscreen_is_turned_on_and_off_in_turn() {
    let mut state = one_display();
    tile(&mut state, 1, 10);
    for on in [true, false, true] {
        assert_eq!(
            state.toggle_fullscreen(true).unwrap(),
            vec![Action::SetNativeFullscreen { window: 1, on }]
        );
    }
}

#[test]
fn a_window_is_listed_where_it_was_last_put() {
    let mut state = one_display();
    tile(&mut state, 1, 10);
    let put = rect(5.0, 6.0, 700.0, 800.0);
    state.note_frame(1, put);
    state.note_frame(2, put);
    let listed = state.list_windows();
    assert_eq!(listed.len(), 1);
    assert_eq!(listed[0].frame, put);
    assert_eq!(listed[0].placement, PlacementInfo::Tiled);
}

#[test]
fn a_first_configuration_with_windows_there_keeps_what_is_shown() {
    let mut state = one_display();
    tile(&mut state, 1, 10);
    declare(&mut state, &["a", "b"]);
    assert_eq!(state.active_workspace_name(), "main");
    assert_eq!(state.tiled_windows_in("main"), vec![1]);
    assert_eq!(state.list_workspaces().len(), 3);
}

#[test]
fn a_first_configuration_shows_no_workspace_twice() {
    let mut state = WmState::new(vec![display(1, 0.0)]);
    state.on_displays_changed(vec![display(1, 0.0), display(2, 1920.0)], &connects(2));
    assert_eq!(state.active_on(2).as_deref(), Some("monitor-2"));
    declare(&mut state, &["main", "monitor-2"]);
    assert_eq!(state.active_on(1).as_deref(), Some("main"));

    let mut state = WmState::new(vec![display(1, 0.0)]);
    state.on_displays_changed(vec![display(1, 0.0), display(2, 1920.0)], &connects(2));
    let source = "workspaces { workspace \"main\"; workspace \"monitor-2\"; }\n\
                  settings { default-workspace \"monitor-2\"; }";
    state.apply_config(&parse(source).unwrap());
    assert_eq!(state.active_on(1).as_deref(), Some("monitor-2"));
    assert_eq!(state.active_on(2).as_deref(), Some("main"));
}

#[test]
fn summoning_takes_the_window_with_the_least_id() {
    let mut state = one_display();
    tile(&mut state, 7, 70);
    tile(&mut state, 3, 30);
    tile(&mut state, 5, 50);
    let actions = state.summon("example.edit", None).unwrap();
    assert_eq!(
        actions.last(),
        Some(&Action::Raise {
            window: 3,
            warp: false
        })
    );
}

#[test]
fn each_window_off_the_screen_is_brought_back_once() {
    let mut state = one_display();
    declare(&mut state, &["main", "parked"]);
    state.switch_workspace("parked", None).unwrap();
    tile(&mut state, 1, 10);
    float(&mut state, 2, 20);
    state.switch_workspace("main", None).unwrap();
    float(&mut state, 3, 30);
    float(&mut state, 4, 40);
    let mut back: Vec<u32> = state.unpark_all().iter().map(|b| b.window).collect();
    back.sort_unstable();
    assert_eq!(back, vec![1, 2]);
    assert_eq!(state.floating_plan(1).len(), 2);
}

#[test]
fn special_states_in_turn_lose_no_window() {
    let hidden = |kind| Scanned {
        app_hidden: true,
        ..found(kind)
    };
    let small = |kind| Scanned {
        minimized: true,
        ..found(kind)
    };
    let filling = |kind| Scanned {
        window: Window {
            fullscreen: true,
            ..found(kind).window
        },
        ..found(kind)
    };
    for (kind, restore) in [
        (WindowKind::Standard, Restore::Tiled),
        (WindowKind::Dialog, Restore::Floating),
    ] {
        let mut state = one_display();
        declare(&mut state, &["a", "b"]);
        take_in(&mut state, 1, found(kind), reply(10));
        let before = state.placement(1);
        state.switch_workspace("b", None).unwrap();
        for (scanned, special) in [
            (hidden(kind), PlacementKind::HiddenApplication(restore)),
            (hidden(kind), PlacementKind::HiddenApplication(restore)),
            (small(kind), PlacementKind::Minimized(restore)),
            (filling(kind), PlacementKind::NativeFullscreen(restore)),
        ] {
            take_in(&mut state, 1, scanned, reply(11));
            assert_eq!(state.placement(1), Some(special));
            assert_eq!(state.workspace_of(1).as_deref(), Some("a"));
            assert!(state.list_workspaces().iter().all(|w| w.window_count == 0));
        }
        for node in [12, 13] {
            take_in(&mut state, 1, found(kind), reply(node));
            assert_eq!(state.placement(1), before);
            assert_eq!(state.workspace_of(1).as_deref(), Some("a"));
            let counts: Vec<usize> = state
                .list_workspaces()
                .iter()
                .map(|w| w.window_count)
                .collect();
            assert_eq!(counts, vec![1, 0]);
        }
    }
}

#[test]
fn a_drag_resizes_what_its_monitor_shows_when_it_ends() {
    let mut state = two_displays();
    assert_eq!(
        state.tiled_layout_inputs(1).map(|inputs| inputs.0).as_deref(),
        Some("a")
    );
    state.switch_workspace("c", None).unwrap();
    assert_eq!(
        state.tiled_layout_inputs(1),
        Some(("c".to_string(), Gaps::default()))
    );
    assert_eq!(state.tiled_layout_inputs(9), None);
}
