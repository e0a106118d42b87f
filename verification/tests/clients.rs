//! The command line and the menu bar badge.

use tili::cli::{
    launch_agent_plist, left_align, parse_monitor_target, placement_label, print_response,
    print_status, right_align, start_step, stop_daemon, uninstall_config, Agent, ConfigFile,
    ExpectedPayload, Ping, Printed, StartStep, StopStep,
};
use tili::doctor::{
    doctor, doctor_line, doctor_report_launch_agent, problems_remain, verdict, ConfigCheck,
    Findings, Fix, Reply, Status, Verdict,
};
use tili::ipc::{
    DoctorReport, MonitorInfo, MonitorTarget, Payload, PlacementInfo, RectInfo, Response,
    WindowInfo, WorkspaceInfo,
};
use tili::menubar::{
    build_menu_connecting, glyph_font_size_for_mode, glyph_for_mode, handle, menu_key, openers,
    parse_hex_color, poll_daemon, spinner_glyph, workspace_label, BadgeStep, GlyphSize,
    MenuAction, MenuLine, MenuState, MenubarStyle, Opener, Outage, Snapshot, WatchStep,
    MAX_CONSECUTIVE_FAILURES, SPINNER_TICKS_PER_FRAME,
};
use tili::paths::{
    daemon_label, default_config_path, default_socket_path, homebrew_link,
    homebrew_stable_equivalent, is_reload, launch_agent_path, logs_dir, menubar_label,
    symlinked_ancestor, ChangeKind,
};
use tili::wire::{decode_frame, encode_frame, length_bytes, payload_length, Side};

const NOWHERE: RectInfo = RectInfo {
    x: 0,
    y: 0,
    width: 0,
    height: 0,
};

fn workspace(name: &str, window_count: usize) -> WorkspaceInfo {
    WorkspaceInfo {
        name: name.to_string(),
        active: false,
        window_count,
        monitor: None,
    }
}

fn monitor(id: u32, focused: bool, shows: Option<&str>) -> MonitorInfo {
    MonitorInfo {
        id,
        is_main: id == 1,
        focused,
        active_workspace: shows.map(str::to_string),
        frame: NOWHERE,
    }
}

fn lines(printed: Printed) -> Vec<String> {
    match printed {
        Printed::Lines(v) => v,
        other => panic!("expected lines, got {other:?}"),
    }
}

fn components(path: &str) -> Vec<String> {
    let mut out = vec!["/".to_string()];
    for part in path.split('/').filter(|p| !p.is_empty()) {
        out.push(part.to_string());
    }
    out
}

fn strings(v: &[&str]) -> Vec<String> {
    v.iter().map(|s| s.to_string()).collect()
}

#[test]
fn symlinked_ancestor_finds_a_symlinked_grandparent() {
    let ancestors = strings(&["/root/config-link", "/root", "/"]);
    assert_eq!(
        symlinked_ancestor(&ancestors, &vec![true, false, false]).as_deref(),
        Some("/root/config-link")
    );
    assert_eq!(
        symlinked_ancestor(&ancestors, &vec![false, true, true]).as_deref(),
        Some("/root")
    );
}

#[test]
fn symlinked_ancestor_is_none_for_an_ordinary_path() {
    let ancestors = strings(&["/root/.config/tili", "/root/.config", "/root", "/"]);
    assert_eq!(
        symlinked_ancestor(&ancestors, &vec![false, false, false, false]),
        None
    );
}

#[test]
fn homebrew_stable_equivalent_rewrites_through_the_opt_symlink() {
    let daemon = components("/root/Cellar/tili/0.5.0/tili.app/Contents/MacOS/tili-daemon");
    assert_eq!(
        homebrew_link(&daemon),
        Some(components("/root/opt/tili"))
    );
    assert_eq!(
        homebrew_stable_equivalent(&daemon, &Some(components("/root/Cellar/tili/0.5.0"))),
        Some(components(
            "/root/opt/tili/tili.app/Contents/MacOS/tili-daemon"
        ))
    );
}

#[test]
fn homebrew_stable_equivalent_survives_a_simulated_upgrade() {
    let old_daemon = components("/root/Cellar/tili/0.5.0/tili.app/Contents/MacOS/tili-daemon");
    let new_daemon = components("/root/Cellar/tili/0.5.1/tili.app/Contents/MacOS/tili-daemon");
    assert_eq!(
        homebrew_stable_equivalent(&old_daemon, &Some(components("/root/Cellar/tili/0.5.0"))),
        homebrew_stable_equivalent(&new_daemon, &Some(components("/root/Cellar/tili/0.5.1"))),
    );
    assert_eq!(
        homebrew_stable_equivalent(&old_daemon, &Some(components("/root/Cellar/tili/0.5.1"))),
        None
    );
}

#[test]
fn homebrew_stable_equivalent_is_none_when_opt_does_not_match() {
    let daemon = components("/root/Cellar/tili/0.5.0/tili.app/Contents/MacOS/tili-daemon");
    assert_eq!(homebrew_stable_equivalent(&daemon, &None), None);
}

#[test]
fn homebrew_stable_equivalent_is_none_for_a_non_cellar_path() {
    let daemon = components("/root/target/debug/tili-daemon");
    assert_eq!(homebrew_link(&daemon), None);
    assert_eq!(homebrew_stable_equivalent(&daemon, &None), None);
    let other = components("/root/Cellar/other/1.0/bin/other");
    assert_eq!(homebrew_link(&other), None);
    assert_eq!(homebrew_link(&components("/root/Cellar/tili")), None);
}

#[test]
fn files_stand_below_the_home_directory() {
    assert_eq!(
        default_socket_path("/Users/me"),
        "/Users/me/Library/Application Support/tili/tili.sock"
    );
    assert_eq!(
        default_config_path("/Users/me/"),
        "/Users/me/.config/tili/tili.kdl"
    );
    assert_eq!(
        launch_agent_path("/Users/me", daemon_label()),
        "/Users/me/Library/LaunchAgents/com.tili.daemon.plist"
    );
    assert_eq!(
        launch_agent_path("/Users/me", menubar_label()),
        "/Users/me/Library/LaunchAgents/com.tili.menubar.plist"
    );
    assert_eq!(logs_dir("/Users/me"), "/Users/me/Library/Logs/tili");
}

#[test]
fn only_a_written_file_is_read_again() {
    let path = "/home/me/tili.kdl";
    let changed = strings(&["/home/me/other", path]);
    assert!(is_reload(ChangeKind::Modified, &changed, path));
    assert!(is_reload(ChangeKind::Created, &changed, path));
    assert!(!is_reload(ChangeKind::Other, &changed, path));
    assert!(!is_reload(ChangeKind::Modified, &strings(&["x"]), path));
}

#[test]
fn lengths_are_written_most_significant_byte_first() {
    assert_eq!(length_bytes(0x0102_0304), [1, 2, 3, 4]);
    assert_eq!(payload_length([0, 0, 1, 0]), 256);
    for n in [0, 1, 255, 256, 65_536, u32::MAX] {
        assert_eq!(payload_length(length_bytes(n)), n);
        assert_eq!(length_bytes(n), n.to_be_bytes());
    }
}

#[test]
fn a_frame_is_read_back() {
    let payload = b"\"Ping\"".to_vec();
    let mut bytes = encode_frame(&payload, Side::Client).unwrap();
    assert_eq!(&bytes[..4], &[0, 0, 0, 6]);
    assert_eq!(decode_frame(&bytes), Some(payload.clone()));
    bytes.extend_from_slice(b"more");
    assert_eq!(decode_frame(&bytes), Some(payload));
    assert_eq!(decode_frame(&bytes[..9].to_vec()), None);
    assert_eq!(decode_frame(&vec![0, 0]), None);
    assert_eq!(decode_frame(&vec![0, 0, 0, 0]), Some(vec![]));
}

#[test]
fn columns_are_as_wide_as_they_should_be() {
    assert_eq!(left_align("ab", 4), "ab  ");
    assert_eq!(right_align("ab", 4), "  ab");
    assert_eq!(left_align("abcdef", 4), "abcdef");
    assert_eq!(left_align("é", 3), format!("{:<3}", "é"));
}

#[test]
fn monitors_are_named_by_id_or_word() {
    assert_eq!(parse_monitor_target("next"), Some(MonitorTarget::Next));
    assert_eq!(parse_monitor_target("main"), Some(MonitorTarget::Main));
    assert_eq!(parse_monitor_target("17"), Some(MonitorTarget::Id(17)));
    assert_eq!(parse_monitor_target("left"), None);
    assert_eq!(parse_monitor_target("-1"), None);
    assert_eq!(parse_monitor_target(""), None);
}

#[test]
fn windows_are_printed_in_columns() {
    let window = WindowInfo {
        id: 42,
        pid: -7,
        title: "notes".to_string(),
        placement: PlacementInfo::NativeFullscreen,
        frame: NOWHERE,
    };
    let expected = format!(
        "{:>10}  pid={:<8} {} {}  {}",
        42, -7, "fullscr", "400x300+10+20", "notes"
    );
    let reply = Response::OkWithPayload(Payload::Windows(vec![window]));
    let frames = strings(&["400x300+10+20"]);
    assert_eq!(
        lines(print_response(&reply, ExpectedPayload::Windows, &frames)),
        vec![expected]
    );
    let reply = Response::OkWithPayload(Payload::Windows(vec![]));
    assert_eq!(
        lines(print_response(&reply, ExpectedPayload::Windows, &vec![])),
        vec!["no windows found"]
    );
    assert_eq!(placement_label(PlacementInfo::Tiled), "tile ");
    assert_eq!(placement_label(PlacementInfo::Popup), "popup");
}

#[test]
fn workspaces_are_printed_in_columns() {
    let shown = WorkspaceInfo {
        active: true,
        monitor: Some(3),
        ..workspace("work", 2)
    };
    let reply = Response::OkWithPayload(Payload::Workspaces(vec![shown, workspace("play", 0)]));
    assert_eq!(
        lines(print_response(
            &reply,
            ExpectedPayload::Workspaces,
            &vec![]
        )),
        vec![
            format!("* {:<20} 2 window(s)  monitor=3", "work"),
            format!("  {:<20} 0 window(s)  ", "play"),
        ]
    );
}

#[test]
fn monitors_are_printed_in_columns() {
    let reply = Response::OkWithPayload(Payload::Monitors(vec![
        monitor(1, true, Some("work")),
        monitor(2, false, None),
    ]));
    let frames = strings(&["1x2+3+4", "5x6+7+8"]);
    assert_eq!(
        lines(print_response(&reply, ExpectedPayload::Monitors, &frames)),
        vec![
            format!("* {:<10} main  1x2+3+4  work", 1),
            format!("  {:<10}       5x6+7+8  -", 2),
        ]
    );
}

#[test]
fn other_replies_are_printed_too() {
    assert_eq!(
        lines(print_response(
            &Response::Done,
            ExpectedPayload::Windows,
            &vec![]
        )),
        vec!["ok"]
    );
    let failed = Response::Failed {
        message: "no window is focused".to_string(),
    };
    assert_eq!(
        print_response(&failed, ExpectedPayload::Nothing, &vec![]),
        Printed::Failure("tili: no window is focused".to_string())
    );
    let odd = Response::OkWithPayload(Payload::Mode("main".to_string()));
    assert_eq!(
        print_response(&odd, ExpectedPayload::Nothing, &vec![]),
        Printed::Payload
    );
    assert_eq!(
        lines(print_response(&odd, ExpectedPayload::Monitors, &vec![])),
        vec!["(response payload not recognized)"]
    );
}

#[test]
fn the_status_is_told_calmly() {
    assert_eq!(
        print_status(Ping::Answered, "/s"),
        "tili-daemon is running (socket: /s)"
    );
    assert!(print_status(Ping::TimedOut, "/s").contains("hasn't finished starting yet"));
    assert_eq!(print_status(Ping::Failed, "/s"), "tili-daemon is not running");
}

#[test]
fn starting_ends_one_way_or_another() {
    assert_eq!(start_step(true, true, true), StartStep::Interrupted);
    assert_eq!(start_step(false, true, false), StartStep::Running);
    assert_eq!(start_step(false, false, false), StartStep::Stopped);
    assert_eq!(start_step(false, false, true), StartStep::WaitOn);
}

#[test]
fn stopping_takes_down_what_is_there() {
    let gone = Agent {
        installed: false,
        loaded: false,
    };
    let there = Agent {
        installed: true,
        loaded: true,
    };
    let orphan = Agent {
        installed: false,
        loaded: true,
    };
    assert!(stop_daemon(gone, gone).is_empty());
    assert_eq!(
        stop_daemon(there, orphan),
        vec![
            StopStep::UnloadDaemon,
            StopStep::RemoveDaemon,
            StopStep::UnloadMenubar,
        ]
    );
}

#[test]
fn an_agent_runs_its_binary_from_login_on() {
    let plist = launch_agent_plist("com.tili.daemon", "/bin/tili-daemon", "/logs", "daemon");
    assert!(plist.starts_with("<?xml version=\"1.0\" encoding=\"UTF-8\"?>\n"));
    assert!(plist.contains("    <key>Label</key>\n    <string>com.tili.daemon</string>\n"));
    assert!(plist.contains("        <string>/bin/tili-daemon</string>\n"));
    assert!(plist.contains("    <key>KeepAlive</key>\n    <true/>\n"));
    assert!(plist.contains("<string>/logs/daemon.log</string>"));
    assert!(plist.contains("<string>/logs/daemon.err.log</string>"));
    assert!(plist.ends_with("</dict>\n</plist>\n"));
}

#[test]
fn a_linked_configuration_is_left_in_place() {
    let (remove, said) = uninstall_config(&ConfigFile::Link, "/c");
    assert!(!remove);
    assert_eq!(
        said.unwrap(),
        "tili: /c is a symlink (likely managed by a dotfiles tool) — leaving it in place"
    );
    let below = ConfigFile::Plain {
        linked_dir: Some("/d".to_string()),
    };
    let (remove, said) = uninstall_config(&below, "/c");
    assert!(!remove);
    assert!(said.unwrap().contains("/c is inside /d, a symlink"));
    let plain = ConfigFile::Plain { linked_dir: None };
    assert_eq!(uninstall_config(&plain, "/c"), (true, None));
    assert_eq!(uninstall_config(&ConfigFile::Absent, "/c"), (false, None));
}

fn healthy() -> Findings {
    let agent = Agent {
        installed: true,
        loaded: true,
    };
    Findings {
        config_path: "/c".to_string(),
        config: ConfigCheck::Parses,
        daemon: agent,
        menubar: agent,
        socket_path: "/s".to_string(),
        socket_exists: true,
        reachable: true,
        reply: Reply::Report(DoctorReport {
            accessibility_granted: true,
            input_monitoring_granted: true,
            config_warnings: vec![],
        }),
    }
}

#[test]
fn a_healthy_installation_has_no_problems() {
    let report = doctor(&healthy());
    assert_eq!(report.problems, 0);
    assert!(report.fixes.is_empty());
    assert_eq!(
        report.lines,
        vec![
            "config file          ok    /c parses",
            "daemon LaunchAgent   ok    installed and loaded",
            "menubar LaunchAgent  ok    installed and loaded",
            "daemon/menubar pair  ok    both installed",
            "IPC socket           ok    daemon reachable at /s",
            "accessibility        ok    granted",
            "input monitoring     ok    granted",
            "config warnings      ok    none from the last load",
        ]
    );
    assert_eq!(
        verdict(&report),
        Verdict::Healthy("tili doctor: no problems found.".to_string())
    );
    assert!(!problems_remain(&report));
}

#[test]
fn what_can_be_fixed_is_offered() {
    let findings = Findings {
        config: ConfigCheck::Missing,
        daemon: Agent {
            installed: true,
            loaded: false,
        },
        menubar: Agent {
            installed: false,
            loaded: false,
        },
        reachable: false,
        ..healthy()
    };
    let report = doctor(&findings);
    assert_eq!(
        report.fixes,
        vec![Fix::InstallMenubar, Fix::ReloadDaemon, Fix::RemoveSocket]
    );
    assert_eq!(report.problems, 3);
    assert!(!problems_remain(&report));
    assert_eq!(
        verdict(&report),
        Verdict::Fixable(strings(&[
            "tili doctor: found 3 problem(s), 3 auto-fixable:",
            "  - install the missing menu bar badge LaunchAgent",
            "  - reload the daemon's LaunchAgent",
            "  - remove the stale IPC socket file",
        ]))
    );
    assert_eq!(
        report.lines.last().unwrap(),
        "permissions          ..    can't check without a running daemon — run `tili start`"
    );
}

#[test]
fn a_lone_badge_wants_its_daemon() {
    let findings = Findings {
        daemon: Agent {
            installed: false,
            loaded: false,
        },
        menubar: Agent {
            installed: true,
            loaded: false,
        },
        ..healthy()
    };
    assert_eq!(
        doctor(&findings).fixes,
        vec![Fix::InstallDaemon, Fix::ReloadMenubar]
    );
}

#[test]
fn what_only_the_user_can_mend_is_reported() {
    let findings = Findings {
        config: ConfigCheck::Broken("config parse error: no".to_string()),
        reply: Reply::Report(DoctorReport {
            accessibility_granted: false,
            input_monitoring_granted: false,
            config_warnings: strings(&["one", "two"]),
        }),
        ..healthy()
    };
    let report = doctor(&findings);
    assert_eq!(report.problems, 5);
    assert!(problems_remain(&report));
    assert_eq!(
        verdict(&report),
        Verdict::Unfixable(
            "tili doctor: found 5 problem(s), none auto-fixable — see above.".to_string()
        )
    );
    assert_eq!(
        report.lines[0],
        "config file          FAIL  /c failed to parse: config parse error: no"
    );
    assert_eq!(
        &report.lines[report.lines.len() - 3..],
        &[
            "config warnings      FAIL  2 from the last load:",
            "                            - one",
            "                            - two",
        ]
    );
}

#[test]
fn a_silent_daemon_is_no_problem() {
    for (reply, said) in [
        (Reply::Unreadable, "couldn't parse the daemon's reply"),
        (Reply::NoAnswer, "daemon didn't answer Command::Doctor"),
    ] {
        let report = doctor(&Findings { reply, ..healthy() });
        assert_eq!(report.problems, 0);
        assert_eq!(
            report.lines.last().unwrap(),
            &doctor_line("doctor report", Status::Open, said)
        );
    }
    assert_eq!(
        doctor_report_launch_agent("x", true, false),
        format!("{:<20} {:<5} installed but not loaded", "x", "FAIL")
    );
    let absent = doctor(&Findings {
        socket_exists: false,
        reachable: false,
        ..healthy()
    });
    assert!(absent
        .lines
        .iter()
        .any(|l| l.ends_with("not present (daemon not running)")));
}

fn snapshot(current: Option<&str>, names: &[&str]) -> Snapshot {
    Snapshot {
        current: current.map(str::to_string),
        workspaces: names.iter().map(|n| workspace(n, 0)).collect(),
        mode: "main".to_string(),
        style: None,
    }
}

fn menu_of(steps: &[BadgeStep]) -> Option<&Vec<MenuLine>> {
    steps.iter().find_map(|s| match s {
        BadgeStep::Menu(lines) => Some(lines),
        _ => None,
    })
}

#[test]
fn a_poll_needs_all_but_the_style() {
    let monitors = || Some(vec![monitor(1, false, Some("a")), monitor(2, true, Some("b"))]);
    let workspaces = || Some(vec![workspace("a", 1)]);
    let mode = || Some("main".to_string());
    let s = poll_daemon(monitors(), workspaces(), mode(), None).unwrap();
    assert_eq!(s.current.as_deref(), Some("b"));
    assert_eq!(s.mode, "main");
    assert!(s.style.is_none());
    assert!(poll_daemon(None, workspaces(), mode(), None).is_none());
    assert!(poll_daemon(monitors(), None, mode(), None).is_none());
    assert!(poll_daemon(monitors(), workspaces(), None, None).is_none());
    let unfocused = Some(vec![monitor(1, false, Some("a"))]);
    let s = poll_daemon(unfocused, workspaces(), mode(), None).unwrap();
    assert_eq!(s.current, None);
}

#[test]
fn the_key_of_a_menu_leaves_window_counts_out() {
    let mut a = snapshot(Some("b"), &["b", "a"]);
    let key = menu_key(&a);
    assert_eq!(
        key,
        (
            Some("b".to_string()),
            strings(&["a", "b"]),
            "main".to_string()
        )
    );
    a.workspaces[0].window_count = 9;
    assert_eq!(menu_key(&a), key);
    a.mode = "resize".to_string();
    assert_ne!(menu_key(&a), key);
}

#[test]
fn labels_tell_what_is_shown_and_how_full_it_is() {
    let mut style = MenubarStyle::default();
    assert_eq!(workspace_label(&workspace("a", 0), false, &style), "a");
    assert_eq!(workspace_label(&workspace("a", 3), false, &style), "a (3)");
    assert_eq!(
        workspace_label(&workspace("a", 3), true, &style),
        "\u{2022} a (3)"
    );
    style.show_window_count = false;
    assert_eq!(workspace_label(&workspace("a", 3), false, &style), "a");
}

#[test]
fn modes_have_their_glyphs() {
    let mut style = MenubarStyle::default();
    assert_eq!(glyph_for_mode("main", &style), "\u{25CF} ");
    assert_eq!(glyph_for_mode("resize", &style), "\u{2194} ");
    assert_eq!(glyph_for_mode("manage", &style), "\u{2699} ");
    assert_eq!(glyph_for_mode("mine", &style), "\u{25CF} ");
    style.glyphs.insert("resize".to_string(), "R".to_string());
    assert_eq!(glyph_for_mode("resize", &style), "R ");
    assert_eq!(glyph_font_size_for_mode("manage"), GlyphSize::Name);
    assert_eq!(glyph_font_size_for_mode("resize"), GlyphSize::Mode);
    assert_eq!(glyph_font_size_for_mode("main"), GlyphSize::Dot);
    assert_eq!(spinner_glyph(0), "\u{280B} ");
    assert_eq!(spinner_glyph(13), "\u{2838} ");
}

#[test]
fn colours_are_hexadecimal() {
    assert_eq!(parse_hex_color("#FF8000"), Some((255, 128, 0)));
    assert_eq!(parse_hex_color("ff8000"), Some((255, 128, 0)));
    assert_eq!(parse_hex_color("#f80"), Some((255, 136, 0)));
    assert_eq!(parse_hex_color("#ff80"), None);
    assert_eq!(parse_hex_color("#gg0000"), None);
    assert_eq!(parse_hex_color("##ff800"), None);
    assert_eq!(parse_hex_color("\u{20ac}\u{20ac}"), None);
    assert_eq!(parse_hex_color(""), None);
}

#[test]
fn the_badge_follows_the_daemon() {
    let mut state = MenuState::new();
    let steps = state.apply_snapshot(Some(snapshot(Some("a"), &["a", "b"])));
    assert_eq!(steps[0], BadgeStep::Show);
    assert_eq!(
        steps[1],
        BadgeStep::Badge {
            text: "a".to_string(),
            mode: "main".to_string()
        }
    );
    let menu = menu_of(&steps).unwrap();
    assert_eq!(menu.len(), 5);
    assert_eq!(
        menu[0],
        MenuLine::Item {
            id: "workspace:a".to_string(),
            label: "\u{2022} a".to_string(),
            enabled: true
        }
    );
    assert_eq!(menu[2], MenuLine::Separator);

    let mut fuller = snapshot(Some("a"), &["a", "b"]);
    fuller.workspaces[1].window_count = 2;
    let steps = state.apply_snapshot(Some(fuller));
    assert!(menu_of(&steps).is_none());
    assert!(steps.contains(&BadgeStep::SetLabel {
        workspace: "b".to_string(),
        label: "b (2)".to_string()
    }));

    let steps = state.apply_snapshot(Some(snapshot(None, &["a", "b"])));
    assert!(menu_of(&steps).is_some());
    assert!(steps.contains(&BadgeStep::Badge {
        text: "tili".to_string(),
        mode: "main".to_string()
    }));
}

#[test]
fn an_outage_spins_and_ends_with_a_new_menu() {
    let mut state = MenuState::new();
    assert_eq!(state.tick_spinner(), None);
    state.apply_snapshot(Some(snapshot(Some("a"), &["a"])));
    let steps = state.apply_snapshot(None);
    assert_eq!(
        steps,
        vec![
            BadgeStep::Menu(build_menu_connecting()),
            BadgeStep::ConnectingBadge { frame: 0 },
        ]
    );
    for _ in 1..SPINNER_TICKS_PER_FRAME {
        assert_eq!(state.tick_spinner(), None);
    }
    assert_eq!(state.tick_spinner(), Some(1));
    assert_eq!(
        state.apply_snapshot(None),
        vec![BadgeStep::ConnectingBadge { frame: 1 }]
    );
    let steps = state.apply_snapshot(Some(snapshot(Some("a"), &["a"])));
    assert!(menu_of(&steps).is_some());
    assert_eq!(state.tick_spinner(), None);
}

#[test]
fn a_missing_style_keeps_the_last_one() {
    let mut state = MenuState::new();
    let mut styled = snapshot(None, &[]);
    styled.style = Some(MenubarStyle {
        show_window_count: false,
        ..MenubarStyle::default()
    });
    state.apply_snapshot(Some(styled));
    assert!(!state.style().show_window_count);
    state.apply_snapshot(Some(snapshot(None, &[])));
    assert!(!state.style().show_window_count);
}

#[test]
fn clicks_do_what_their_line_says() {
    assert_eq!(
        handle("workspace:my work"),
        MenuAction::Switch("my work".to_string())
    );
    assert_eq!(handle("workspace:"), MenuAction::Switch(String::new()));
    assert_eq!(handle("open-settings"), MenuAction::OpenSettings);
    assert_eq!(handle("quit"), MenuAction::Quit);
    assert_eq!(handle("status"), MenuAction::Nothing);
}

#[test]
fn settings_open_in_something() {
    assert_eq!(
        openers(Some("code")),
        vec![
            Opener::Editor("code".to_string()),
            Opener::Default,
            Opener::TextEdit
        ]
    );
    assert_eq!(openers(Some("")), vec![Opener::Default, Opener::TextEdit]);
    assert_eq!(openers(None), vec![Opener::Default, Opener::TextEdit]);
}

#[test]
fn a_lasting_outage_is_given_up() {
    let mut outage = Outage::new();
    for _ in 1..MAX_CONSECUTIVE_FAILURES {
        assert_eq!(outage.on_wait(false), WatchStep::Retry);
    }
    assert_eq!(outage.on_wait(true), WatchStep::Poll);
    for _ in 1..MAX_CONSECUTIVE_FAILURES {
        assert_eq!(outage.on_wait(false), WatchStep::Retry);
    }
    assert_eq!(outage.on_wait(false), WatchStep::GiveUp);
}
