//! The configuration file.

use tili::config::{load, parse, Config, ConfigError, Ratio, Source};
use tili::placement::FloatingRuleMode;

fn share(r: Ratio) -> f32 {
    match r {
        Ratio::Whole(n) => n as f32,
        Ratio::Double(bits) => f64::from_bits(bits) as f32,
    }
}

fn message(r: Result<Config, ConfigError>) -> String {
    match r {
        Ok(_) => panic!("expected an error"),
        Err(e) => e.message(),
    }
}

#[test]
fn empty_document_parses_to_default_config() {
    let config = parse("").unwrap();
    assert!(config.workspaces.is_empty());
    assert_eq!(config.gaps.inner, 0);
}

#[test]
fn malformed_kdl_is_rejected() {
    assert!(parse("workspaces {").is_err());
}

#[test]
fn parses_workspaces_with_monitor_attribute() {
    let source = r#"
        workspaces {
            workspace "work" monitor="main"
            workspace "random"
        }
    "#;
    let config = parse(source).unwrap();
    assert_eq!(config.workspaces.len(), 2);
    assert_eq!(config.workspaces[0].name, "work");
    assert_eq!(config.workspaces[0].monitor.as_deref(), Some("main"));
    assert_eq!(config.workspaces[1].name, "random");
    assert_eq!(config.workspaces[1].monitor, None);
}

#[test]
fn parses_global_gaps_single_and_four_value_outer() {
    let source = r#"
        gaps {
            inner 4
            outer 8 8 8 8
        }
    "#;
    let config = parse(source).unwrap();
    assert_eq!(config.gaps.inner, 4);
    assert_eq!(config.gaps.outer, (8, 8, 8, 8));
}

#[test]
fn parses_per_workspace_gap_overrides() {
    let source = r#"
        gaps {
            inner 4
            outer 8
            workspace "entertain" {
                inner 0
                outer 0
            }
        }
    "#;
    let config = parse(source).unwrap();
    assert_eq!(config.gaps.inner, 4);
    assert_eq!(config.gaps.outer, (8, 8, 8, 8));
    let override_gaps = config
        .workspace_gaps
        .get(&"entertain".to_string())
        .unwrap();
    assert_eq!(override_gaps.inner, 0);
    assert_eq!(override_gaps.outer, (0, 0, 0, 0));
}

#[test]
fn parses_settings_and_default_layout() {
    // KDL v2 booleans are `#true`/`#false` (`#`-prefixed keywords, to
    // disambiguate from bare identifiers) — not bare `true`/`false`
    // like v1 or most other config languages. Easy to get wrong when
    // hand-writing a config; see the same note on the example in
    // README.md.
    let source = r#"
        default-layout "accordion"
        settings {
            mouse-follows-focus #true
            auto-reload #false
            default-workspace "work"
        }
    "#;
    let config = parse(source).unwrap();
    assert_eq!(config.default_layout.as_deref(), Some("accordion"));
    assert!(config.settings.mouse_follows_focus);
    assert!(!config.settings.auto_reload);
    assert_eq!(config.settings.default_workspace.as_deref(), Some("work"));
    // Untouched setting keeps its default.
    assert!(!config.settings.focus_follows_monitor);
}

#[test]
fn parses_accordion_padding_and_root_orientation() {
    let source = r#"
        settings {
            accordion-padding 40
            default-root-orientation "vertical"
        }
    "#;
    let config = parse(source).unwrap();
    assert_eq!(config.settings.accordion_padding, 40);
    assert_eq!(config.settings.default_root_orientation, "vertical");
}

#[test]
fn accordion_padding_and_root_orientation_default_when_unset() {
    let config = parse("").unwrap();
    assert_eq!(config.settings.accordion_padding, 30);
    assert_eq!(config.settings.default_root_orientation, "auto");
}

#[test]
fn unrecognized_sections_are_ignored_not_rejected() {
    let source = r#"
        experimental-future-section {
            whatever "this-does-not-exist-yet"
        }
        workspaces {
            workspace "work"
        }
    "#;
    let config = parse(source).unwrap();
    assert_eq!(config.workspaces.len(), 1);
}

#[test]
fn parses_floating_rules_and_defaults() {
    let source = r#"
        floating-rules {
            rule app-id="com.apple.finder"
            rule app-id="com.apple.systempreferences" {
                width 900
                height 600
                center #true
            }
            rule app-id="com.apple.finder" title="^Copy$"

            defaults {
                center #true
                width-ratio 0.6
                height-ratio 0.6
            }
        }
    "#;
    let config = parse(source).unwrap();
    assert_eq!(config.floating_rules.len(), 3);

    let plain = &config.floating_rules[0];
    assert_eq!(plain.app_id, "com.apple.finder");
    assert_eq!(plain.width, None);

    let sized = &config.floating_rules[1];
    assert_eq!(sized.app_id, "com.apple.systempreferences");
    assert_eq!(sized.width, Some(900));
    assert_eq!(sized.height, Some(600));
    assert_eq!(sized.center, Some(true));

    let titled = &config.floating_rules[2];
    assert_eq!(titled.title.as_deref(), Some("^Copy$"));

    assert!(config.floating_defaults.center);
    assert!((share(config.floating_defaults.width_ratio) - 0.6).abs() < f32::EPSILON);
    assert!((share(config.floating_defaults.height_ratio) - 0.6).abs() < f32::EPSILON);
}

#[test]
fn floating_defaults_fall_back_when_block_is_absent() {
    let config = parse("").unwrap();
    assert!(config.floating_defaults.center);
    assert!((share(config.floating_defaults.width_ratio) - 0.6).abs() < f32::EPSILON);
}

#[test]
fn parses_keybindings_across_multiple_modes() {
    let source = r#"
        keybindings mode="main" {
            bind "alt-h" "focus left"
            bind "alt-shift-semicolon" "mode resize"
        }
        keybindings mode="resize" {
            bind "h" "resize -50"
            bind "escape" "mode main"
        }
    "#;
    let config = parse(source).unwrap();
    assert_eq!(config.keybindings.len(), 2);

    let main = config
        .keybindings
        .iter()
        .find(|m| m.name == "main")
        .unwrap();
    assert_eq!(main.bindings.len(), 2);
    assert_eq!(main.bindings[0].key, "alt-h");
    assert_eq!(main.bindings[0].command, "focus left");

    let resize = config
        .keybindings
        .iter()
        .find(|m| m.name == "resize")
        .unwrap();
    assert_eq!(resize.bindings.len(), 2);
    assert_eq!(resize.bindings[1].key, "escape");
    assert_eq!(resize.bindings[1].command, "mode main");
}

#[test]
fn load_missing_file_returns_default_config() {
    let config = load(Source::Missing).unwrap();
    assert!(config.workspaces.is_empty());
}

#[test]
fn an_unreadable_file_is_an_error() {
    assert_eq!(
        message(load(Source::Unreadable("permission denied".to_string()))),
        "config parse error: permission denied"
    );
}

#[test]
fn a_file_is_parsed_like_its_text() {
    let config = load(Source::Text("default-layout \"tiles\"".to_string())).unwrap();
    assert_eq!(config.default_layout.as_deref(), Some("tiles"));
    assert!(load(Source::Text("gaps {".to_string())).is_err());
}

#[test]
fn an_error_names_itself() {
    assert!(message(parse("workspaces {")).starts_with("config parse error: "));
}

#[test]
fn floating_rules_say_how_a_window_is_treated() {
    let source = r#"
        floating-rules {
            rule app-id="a" mode="tile"
            rule app-id="b" mode="ignore"
            rule app-id="c" mode="float"
            rule app-id="d"
            rule title="no application"
        }
    "#;
    let config = parse(source).unwrap();
    let modes: Vec<FloatingRuleMode> = config.floating_rules.iter().map(|r| r.mode).collect();
    assert_eq!(
        modes,
        vec![
            FloatingRuleMode::Tile,
            FloatingRuleMode::Ignore,
            FloatingRuleMode::Float,
            FloatingRuleMode::Float,
        ]
    );
}

#[test]
fn whole_numbers_are_ratios_too() {
    let config = parse("floating-rules { defaults { width-ratio 1; center #false; } }").unwrap();
    assert_eq!(config.floating_defaults.width_ratio, Ratio::Whole(1));
    assert!(!config.floating_defaults.center);
    assert!((share(config.floating_defaults.height_ratio) - 0.6).abs() < f32::EPSILON);
}
