//! Events: applications, displays, the mouse, and what is put off.

use tili::config::parse;
use tili::daemon::Backlog;
use tili::desk::Monitor;
use tili::display::{
    beyond, choose_parking_corner, main_display_frame, main_first, match_monitors, Reach,
};
use tili::grace::Grace;
use tili::ipc::RectInfo;
use tili::resize::{
    dragged_window, is_before_border, magnet_resize_edge, Amount, Border, MouseSignal, Pull,
    ResizeEdge, Throttle,
};
use tili::setter::{
    Frame, InstantFrameSetter, Request, TweenedFrameSetter, WindowFrameSetter,
};
use tili::state::WmState;
use tili::watch::{window_event, watchable_pids, AppEvent, Wait, WatchStep, Watcher, WmEvent};

fn rect(x: f64, y: f64, width: f64, height: f64) -> RectInfo {
    RectInfo {
        x: x.to_bits(),
        y: y.to_bits(),
        width: width.to_bits(),
        height: height.to_bits(),
    }
}

fn monitor(id: u32, x: f64, y: f64, width: f64, height: f64) -> Monitor {
    Monitor {
        id,
        is_main: id == 1,
        tall: height > width,
        frame: rect(x, y, width, height),
    }
}

/// Where windows are parked: the chosen corner of what all monitors span, with
/// a margin.
fn parking(monitors: &[Monitor], margin: f64) -> (f64, f64) {
    let frames: Vec<(f64, f64, f64, f64)> = monitors
        .iter()
        .map(|m| {
            let x = f64::from_bits(m.frame.x);
            let y = f64::from_bits(m.frame.y);
            (
                x,
                y,
                x + f64::from_bits(m.frame.width),
                y + f64::from_bits(m.frame.height),
            )
        })
        .collect();
    let left = frames.iter().map(|f| f.0).fold(f64::MAX, f64::min);
    let top = frames.iter().map(|f| f.1).fold(f64::MAX, f64::min);
    let right = frames.iter().map(|f| f.2).fold(f64::MIN, f64::max);
    let bottom = frames.iter().map(|f| f.3).fold(f64::MIN, f64::max);
    let count = |x: f64, y: f64| {
        frames
            .iter()
            .filter(|f| x >= f.0 && x <= f.2 && y >= f.1 && y <= f.3)
            .count() as u64
    };
    let corner = choose_parking_corner(Reach {
        bottom_right: count(right, bottom),
        bottom_left: count(left, bottom),
        top_right: count(right, top),
        top_left: count(left, top),
    });
    let (to_right, down) = beyond(corner);
    (
        if to_right { right + margin } else { left - margin },
        if down { bottom + margin } else { top - margin },
    )
}

#[test]
fn single_monitor_parks_bottom_right_beyond_it() {
    let monitors = [monitor(1, 0.0, 0.0, 1920.0, 1080.0)];
    let (x, y) = parking(&monitors, 100.0);
    assert_eq!(x, 2020.0);
    assert_eq!(y, 1180.0);
}

#[test]
fn side_by_side_equal_height_pair_ties_to_bottom_right() {
    let monitors = [
        monitor(1, 0.0, 0.0, 1920.0, 1080.0),
        monitor(2, 1920.0, 0.0, 1920.0, 1080.0),
    ];
    let (x, y) = parking(&monitors, 100.0);
    assert_eq!(x, 3940.0);
    assert_eq!(y, 1180.0);
}

#[test]
fn l_shaped_triple_prefers_the_uncovered_quadrant() {
    let monitors = [
        monitor(1, 0.0, 0.0, 1920.0, 1080.0),
        monitor(2, 1920.0, 0.0, 1920.0, 1080.0),
        monitor(3, 0.0, 1080.0, 1920.0, 1080.0),
    ];
    let (x, y) = parking(&monitors, 100.0);
    assert_eq!(x, 3940.0);
    assert_eq!(y, 2260.0);
}

#[test]
fn chooses_the_empty_quadrant_even_when_its_not_bottom_right() {
    let monitors = [
        monitor(1, 1920.0, 0.0, 1920.0, 1080.0),
        monitor(2, 0.0, 1080.0, 1920.0, 1080.0),
        monitor(3, 1920.0, 1080.0, 1920.0, 1080.0),
    ];
    let (x, y) = parking(&monitors, 100.0);
    assert_eq!(x, -100.0);
    assert_eq!(y, -100.0);
}

#[test]
fn the_main_display_comes_first() {
    let listed = vec![
        monitor(3, 0.0, 0.0, 1.0, 1.0),
        monitor(1, 5.0, 0.0, 1.0, 1.0),
        monitor(2, 0.0, 0.0, 1.0, 1.0),
    ];
    let ids: Vec<u32> = main_first(&listed).iter().map(|m| m.id).collect();
    assert_eq!(ids, vec![1, 3, 2]);
    assert_eq!(main_display_frame(&listed), Some(rect(5.0, 0.0, 1.0, 1.0)));
    assert_eq!(main_display_frame(&vec![listed[0]]), None);
}

#[test]
fn a_display_that_only_changed_its_id_is_renamed() {
    let before = vec![
        monitor(1, 0.0, 0.0, 1920.0, 1080.0),
        monitor(2, 1920.0, 0.0, 1920.0, 1080.0),
        monitor(3, 0.0, 1080.0, 1920.0, 1080.0),
    ];
    let after = vec![
        monitor(1, 0.0, 0.0, 2560.0, 1440.0),
        monitor(9, 1920.0, 0.0, 1280.0, 720.0),
        monitor(8, -1920.0, 0.0, 1920.0, 1080.0),
    ];
    let diff = match_monitors(&before, &after);
    assert_eq!(diff.renamed, vec![(2, 9)]);
    assert_eq!(diff.disconnected, vec![3]);
    assert_eq!(diff.connected, vec![8]);
    let same = match_monitors(&before, &before);
    assert!(same.renamed.is_empty() && same.disconnected.is_empty() && same.connected.is_empty());
}

const BORDER: Border = Border {
    before: 10,
    after: 20,
};

/// How far a drag of so many points pulls, at two of weight per thousand
/// points and steps of a tenth.
fn pull(points: f64, room: f64) -> Option<Pull> {
    let delta: f64 = points.abs() * 0.002;
    Some(Pull {
        beyond: delta >= room,
        room: room > 0.0,
        steps: (delta / 0.1).round() as u64,
    })
}

#[test]
fn magnet_resize_edge_snaps_growth_to_the_nearest_step_multiple() {
    assert_eq!(
        magnet_resize_edge(ResizeEdge::Right, true, Some(BORDER), pull(80.0, 0.95)),
        Some((10, Amount::Steps(2)))
    );
}

#[test]
fn magnet_resize_edge_below_half_a_step_is_a_no_op() {
    assert_eq!(
        magnet_resize_edge(ResizeEdge::Right, true, Some(BORDER), pull(20.0, 0.95)),
        None
    );
}

#[test]
fn magnet_resize_edge_on_a_lone_window_is_a_no_op() {
    assert_eq!(
        magnet_resize_edge(ResizeEdge::Right, true, None, pull(-200.0, 0.95)),
        None
    );
}

#[test]
fn magnet_resize_edge_overflows_straight_to_the_bound_for_a_huge_drag() {
    assert_eq!(
        magnet_resize_edge(ResizeEdge::Right, true, Some(BORDER), pull(5000.0, 0.25)),
        Some((10, Amount::Room))
    );
}

#[test]
fn magnet_resize_edge_overflow_still_applies_when_less_than_one_step_of_room_remains() {
    assert_eq!(
        magnet_resize_edge(ResizeEdge::Right, true, Some(BORDER), pull(5000.0, 0.02)),
        Some((10, Amount::Room))
    );
    assert_eq!(
        magnet_resize_edge(ResizeEdge::Right, true, Some(BORDER), pull(5000.0, 0.0)),
        None
    );
}

#[test]
fn edges_resize_the_side_of_the_border_they_are_on() {
    for (edge, before) in [
        (ResizeEdge::Left, false),
        (ResizeEdge::Right, true),
        (ResizeEdge::Top, false),
        (ResizeEdge::Bottom, true),
    ] {
        assert_eq!(is_before_border(edge), before);
        let node = if before { 10 } else { 20 };
        assert_eq!(
            magnet_resize_edge(edge, true, Some(BORDER), pull(50.0, 1.0)),
            Some((node, Amount::Steps(1)))
        );
        assert_eq!(
            magnet_resize_edge(edge, false, Some(BORDER), pull(50.0, 1.0)),
            None
        );
        assert_eq!(magnet_resize_edge(edge, true, Some(BORDER), None), None);
    }
}

#[test]
fn the_dragged_window_is_the_one_that_moved() {
    assert_eq!(
        dragged_window(&vec![true, false, true], &vec![false, true, true]),
        Some(2)
    );
    assert_eq!(dragged_window(&vec![true], &vec![false]), None);
}

#[test]
fn moves_of_the_mouse_are_thinned_out() {
    let mut throttle = Throttle::new();
    let moved = MouseSignal::Moved { x: 1, y: 2 };
    assert!(throttle.lets_pass(moved, 1_000));
    assert!(!throttle.lets_pass(moved, 1_079));
    assert!(throttle.lets_pass(MouseSignal::ButtonDown, 1_079));
    assert!(throttle.lets_pass(moved, 1_080));
}

fn request(id: u32, now: u64) -> Request {
    Request {
        id,
        from: rect(0.0, 0.0, 1.0, 1.0),
        target: rect(9.0, 0.0, 1.0, 1.0),
        there: false,
        on_the_way: false,
        now,
    }
}

#[test]
fn an_instant_setter_writes_at_once() {
    let mut setter = InstantFrameSetter;
    assert!(setter.set_frame(request(1, 0)));
    assert!(!setter.is_animating(1));
    assert!(!setter.has_active_animations());
    setter.set_suppressed(true);
    assert!(setter.tick(&vec![1], 5).is_empty());
    assert_eq!(setter.finish(1), None);
}

#[test]
fn an_animation_runs_to_its_end() {
    let mut setter = TweenedFrameSetter::new(100);
    assert!(!setter.set_frame(request(1, 1_000)));
    assert!(setter.is_animating(1));
    assert_eq!(setter.target_of(1), Some(request(1, 0).target));
    assert_eq!(
        setter.tick(&vec![1], 1_040),
        vec![(
            1,
            Frame::Between {
                start: request(1, 0).from,
                target: request(1, 0).target,
                passed: 40
            }
        )]
    );
    let again = Request {
        on_the_way: true,
        ..request(1, 1_050)
    };
    assert!(!setter.set_frame(again));
    assert_eq!(
        setter.tick(&vec![1], 1_100),
        vec![(1, Frame::Target(request(1, 0).target))]
    );
    assert!(!setter.has_active_animations());
}

#[test]
fn an_animation_can_be_cut_short() {
    let mut setter = TweenedFrameSetter::new(100);
    setter.set_frame(request(1, 0));
    setter.set_frame(request(2, 0));
    assert_eq!(setter.finish(1), Some(request(1, 0).target));
    assert!(setter.tick(&vec![], 10).is_empty());
    assert!(!setter.has_active_animations());

    setter.set_frame(request(1, 0));
    setter.set_suppressed(true);
    assert!(setter.set_frame(request(1, 10)));
    assert!(!setter.is_animating(1));
    setter.set_suppressed(false);
    let there = Request {
        there: true,
        ..request(1, 0)
    };
    assert!(setter.set_frame(there));
}

#[test]
fn every_application_worth_watching_is_watched_once() {
    assert_eq!(watchable_pids(&vec![5, 3, 5], &vec![4, 3]), vec![3, 4, 5]);
    assert!(watchable_pids(&vec![], &vec![]).is_empty());
}

#[test]
fn notifications_tell_focus_from_change() {
    assert_eq!(
        window_event("AXFocusedWindowChanged", 7),
        WmEvent::WindowFocused { pid: 7 }
    );
    assert_eq!(
        window_event("AXMainWindowChanged", 7),
        WmEvent::WindowFocused { pid: 7 }
    );
    assert_eq!(
        window_event("AXWindowCreated", 7),
        WmEvent::WindowsChanged { pid: 7 }
    );
}

#[test]
fn a_launch_is_watched_and_read() {
    let mut watcher = Watcher::new(0);
    let launched = Wait::Event(AppEvent::Launched {
        pid: 7,
        bundle_id: None,
    });
    assert_eq!(
        watcher.step(launched, 10),
        vec![
            WatchStep::Send(WmEvent::AppLaunched {
                pid: 7,
                bundle_id: None
            }),
            WatchStep::Watch(7),
            WatchStep::Send(WmEvent::WindowsChanged { pid: 7 }),
        ]
    );
    watcher.watch_result(7, true);
    assert_eq!(
        watcher.step(Wait::Event(AppEvent::Terminated { pid: 7 }), 20),
        vec![
            WatchStep::Send(WmEvent::AppTerminated { pid: 7 }),
            WatchStep::Unwatch(7),
        ]
    );
}

#[test]
fn all_windows_are_read_again_now_and_then() {
    let mut watcher = Watcher::new(0);
    let tick = || Wait::Timeout { waited: 2_000 };
    assert_eq!(
        watcher.step(tick(), 2_000),
        vec![WatchStep::Resync { full: false }]
    );
    assert_eq!(
        watcher.step(tick(), 20_000),
        vec![WatchStep::Resync { full: true }]
    );
    assert_eq!(
        watcher.step(tick(), 22_000),
        vec![WatchStep::Resync { full: false }]
    );
    watcher.step(Wait::Event(AppEvent::Terminated { pid: 7 }), 23_000);
    assert_eq!(
        watcher.step(tick(), 24_999),
        vec![WatchStep::Resync { full: false }]
    );
    assert_eq!(
        watcher.step(tick(), 25_000),
        vec![WatchStep::Resync { full: true }]
    );
}

#[test]
fn a_long_wait_means_that_the_system_slept() {
    let mut watcher = Watcher::new(0);
    assert_eq!(
        watcher.step(Wait::Timeout { waited: 5_001 }, 6_000),
        vec![
            WatchStep::Send(WmEvent::SystemDidWake),
            WatchStep::Resync { full: true },
        ]
    );
    assert_eq!(
        watcher.step(Wait::Event(AppEvent::SystemDidWake), 6_100),
        vec![
            WatchStep::Send(WmEvent::SystemDidWake),
            WatchStep::Resync { full: true },
        ]
    );
}

#[test]
fn a_locked_screen_is_left_alone() {
    let mut watcher = Watcher::new(0);
    assert_eq!(
        watcher.step(Wait::Event(AppEvent::ScreenLocked), 0),
        vec![WatchStep::Send(WmEvent::ScreenLocked)]
    );
    assert!(watcher
        .step(Wait::Timeout { waited: 2_000 }, 90_000)
        .is_empty());
    assert_eq!(
        watcher.step(Wait::Event(AppEvent::SystemDidWake), 90_000),
        vec![WatchStep::Send(WmEvent::SystemDidWake)]
    );
    assert_eq!(
        watcher.step(Wait::Event(AppEvent::ScreenUnlocked), 91_000),
        vec![
            WatchStep::Send(WmEvent::ScreenUnlocked),
            WatchStep::Resync { full: true },
        ]
    );
}

#[test]
fn the_frontmost_application_is_reported_once() {
    let mut watcher = Watcher::new(0);
    let front = |pid| Wait::Event(AppEvent::Activated { pid });
    assert_eq!(
        watcher.step(front(7), 0),
        vec![WatchStep::Send(WmEvent::FrontmostAppChanged { pid: 7 })]
    );
    assert!(watcher.step(front(7), 1).is_empty());
    assert_eq!(watcher.step(front(8), 2).len(), 1);
}

#[test]
fn looking_around_mends_what_was_missed() {
    let mut watcher = Watcher::new(0);
    watcher.watch_result(1, true);
    watcher.watch_result(2, true);
    watcher.watch_result(3, false);
    assert_eq!(watcher.known_pids(), vec![1, 2, 3]);
    assert_eq!(
        watcher.attach(&vec![1, 3, 4, 5], &vec![4]),
        vec![
            WatchStep::Watch(4),
            WatchStep::Send(WmEvent::WindowsChanged { pid: 4 }),
            WatchStep::Watch(5),
        ]
    );
    watcher.watch_result(4, true);
    watcher.watch_result(5, true);
    let steps = watcher.resync(&vec![1, 4, 5], &vec![4], &vec![1, 3], true);
    assert_eq!(
        steps[0],
        WatchStep::Send(WmEvent::WindowsChanged { pid: 4 })
    );
    assert!(steps.contains(&WatchStep::Send(WmEvent::AppTerminated { pid: 1 })));
    assert!(steps.contains(&WatchStep::Unwatch(1)));
    assert!(steps.contains(&WatchStep::Unwatch(2)));
    assert!(!steps.contains(&WatchStep::Send(WmEvent::AppTerminated { pid: 2 })));
    assert_eq!(
        steps.last(),
        Some(&WatchStep::Send(WmEvent::AppTerminated { pid: 3 }))
    );
    assert!(watcher.attach(&vec![4, 5], &vec![]).is_empty());
    assert_eq!(
        watcher.attach(&vec![3], &vec![]),
        vec![WatchStep::Watch(3)]
    );
}

fn one_display() -> WmState {
    WmState::new(vec![monitor(1, 0.0, 0.0, 1920.0, 1080.0)])
}

#[test]
fn changes_of_windows_are_read_once() {
    let mut state = one_display();
    let mut backlog = Backlog::new();
    for pid in [7, 8, 7] {
        let (actions, told) =
            backlog.handle_event(&mut state, WmEvent::WindowsChanged { pid }, &vec![], 0);
        assert!(actions.is_empty() && told);
    }
    let (_, told) =
        backlog.handle_event(&mut state, WmEvent::AppTerminated { pid: 8 }, &vec![], 0);
    assert!(told);
    assert_eq!(backlog.take_pids(), vec![7]);
    assert!(backlog.take_pids().is_empty());
}

#[test]
fn events_reach_the_state() {
    let mut state = one_display();
    let mut backlog = Backlog::new();
    let launched = WmEvent::AppLaunched {
        pid: 7,
        bundle_id: None,
    };
    let (_, told) = backlog.handle_event(&mut state, launched, &vec![], 0);
    assert!(!told);
    assert!(state.is_launching());
    for event in [
        WmEvent::SystemDidWake,
        WmEvent::WindowFocused { pid: 7 },
        WmEvent::ScreenLocked,
        WmEvent::ScreenUnlocked,
    ] {
        assert!(!backlog.handle_event(&mut state, event, &vec![], 0).1);
    }
}

#[test]
fn revealing_is_put_off_and_gives_way() {
    let mut state = one_display();
    state.apply_config(&parse("workspaces { workspace \"a\"; workspace \"b\"; }").unwrap());
    let mut backlog = Backlog::new();
    let front = || WmEvent::FrontmostAppChanged { pid: 7 };
    backlog.handle_event(&mut state, front(), &vec![], 1_000);
    assert_eq!(backlog.take_reveal(state.switch_epoch(), 1_099), None);
    assert_eq!(
        backlog.take_reveal(state.switch_epoch(), 1_100),
        Some(Some(false))
    );
    assert_eq!(backlog.take_reveal(state.switch_epoch(), 1_200), None);

    backlog.handle_event(&mut state, front(), &vec![], 2_000);
    state.switch_workspace("b", None).unwrap();
    assert_eq!(
        backlog.take_reveal(state.switch_epoch(), 2_100),
        Some(None)
    );

    let (actions, told) =
        backlog.handle_mouse(&mut state, MouseSignal::ButtonUp, None, 3_000);
    assert!(told && !actions.is_empty());
    assert_eq!(
        backlog.take_reveal(state.switch_epoch(), 3_100),
        Some(Some(true))
    );
    let (actions, told) =
        backlog.handle_mouse(&mut state, MouseSignal::Moved { x: 0, y: 0 }, Some(1), 3_000);
    assert!(actions.is_empty() && !told);
}

#[test]
fn missing_windows_have_their_period_of_grace() {
    let mut grace = Grace::new();
    grace.note_missing(1, 1_000);
    assert!(grace.is_missing(1));
    assert!(grace.expired_removals(1_099).is_empty());
    assert_eq!(grace.expired_removals(1_100), vec![1]);
    grace.note_system_wake(1_050);
    assert!(grace.is_waking(1_100));
    assert_eq!(grace.effective_removal_grace(1_100), 90_000);
    assert!(grace.expired_removals(1_100).is_empty());
    grace.note_present(1);
    assert!(grace.expired_removals(1_000_000).is_empty());
}
