//! Texts, tables, documents and rules.

use tili::config::parse;
use tili::document::{read_kdl, Value};
use tili::modes::Modes;
use tili::placement::FloatingRuleMode;
use tili::rules::{
    compile_floating_rules, is_declared, matching_floating_rule, matching_workspace_rule,
    rule_applies, rule_warning,
};
use tili::table::Table;
use tili::text::{
    contains, decimal, is_less, parse_unsigned, split_at_char, split_words, strip_prefix,
};

#[test]
fn words_are_split_at_white_space() {
    assert_eq!(split_words(" a\tbc\u{a0}d\n"), vec!["a", "bc", "d"]);
    assert!(split_words("   ").is_empty());
    assert_eq!(split_at_char("a--b", '-'), vec!["a", "", "b"]);
    assert_eq!(split_at_char("", '-'), vec![""]);
}

#[test]
fn numbers_are_written_and_read() {
    assert_eq!(decimal(0), "0");
    assert_eq!(decimal(u64::MAX), u64::MAX.to_string());
    assert_eq!(parse_unsigned("4096", 4096), Some(4096));
    assert_eq!(parse_unsigned("4097", 4096), None);
    assert_eq!(parse_unsigned("+7", 9), Some(7));
    assert_eq!(parse_unsigned("+", 9), None);
    assert_eq!(parse_unsigned("7x", 9), None);
    for n in [0, 9, 10, 12_345] {
        assert_eq!(parse_unsigned(&decimal(n), u64::MAX), Some(n));
    }
}

#[test]
fn texts_are_ordered_by_code_points() {
    for (a, b) in [("", "a"), ("a", "b"), ("a", "ab"), ("Z", "a"), ("a", "é")] {
        assert!(is_less(a, b));
        assert!(!is_less(b, a));
        assert!(!is_less(a, a));
    }
}

#[test]
fn parts_of_texts_are_found() {
    assert!(contains("notes", "ote"));
    assert!(contains("notes", ""));
    assert!(!contains("notes", "Note"));
    assert_eq!(strip_prefix("workspace:a", "workspace:").as_deref(), Some("a"));
    assert_eq!(strip_prefix("work", "workspace:"), None);
}

#[test]
fn a_table_holds_the_last_value_of_each_key() {
    let mut table: Table<u32, u32> = Table::new();
    table.insert(7, 70);
    table.insert(3, 30);
    table.insert(7, 71);
    assert_eq!(table.len(), 2);
    assert_eq!(table.get(&7), Some(&71));
    assert_eq!(*table.key_at(1), 3);
    assert_eq!(*table.value_at(1), 30);
    assert_eq!(table.remove(&7), Some(71));
    assert_eq!(table.remove(&7), None);
    assert!(!table.contains(&7));
}

#[test]
fn a_document_is_read_as_it_is_written() {
    let nodes = read_kdl("bind \"alt-h\" on=#true { depth 1; width 0.5; none #null; }").unwrap();
    assert_eq!(nodes.len(), 1);
    assert_eq!(nodes[0].name, "bind");
    assert_eq!(nodes[0].entries.len(), 2);
    assert_eq!(nodes[0].entries[0].name, None);
    assert!(matches!(&nodes[0].entries[0].value, Value::Text(s) if s == "alt-h"));
    assert_eq!(nodes[0].entries[1].name.as_deref(), Some("on"));
    assert!(matches!(&nodes[0].entries[1].value, Value::Bool(true)));
    let children = nodes[0].children.as_ref().unwrap();
    assert!(matches!(&children[0].entries[0].value, Value::Integer(1)));
    assert!(
        matches!(&children[1].entries[0].value, Value::Float(b) if *b == 0.5f64.to_bits())
    );
    assert!(matches!(&children[2].entries[0].value, Value::Null));
    assert!(read_kdl("bind {").is_err());
}

#[test]
fn the_first_rule_that_applies_wins() {
    let config = parse(
        r#"
        floating-rules {
            rule app-id="a" title="^Copy$" mode="ignore"
            rule app-id="a" mode="tile" { width 100; }
            rule app-id="a" mode="float"
            rule app-id="b" title="["
        }
        "#,
    )
    .unwrap();
    let (rules, warnings) = compile_floating_rules(&config.floating_rules);
    assert_eq!(rules.len(), 3);
    assert_eq!(warnings.len(), 1);
    let found = |bundle: Option<&str>, title: &str| {
        matching_floating_rule(&rules, bundle, title).map(|r| r.mode())
    };
    assert_eq!(found(Some("a"), "Copy"), Some(FloatingRuleMode::Ignore));
    assert_eq!(found(Some("a"), "Copying"), Some(FloatingRuleMode::Tile));
    assert_eq!(found(Some("b"), "["), None);
    assert_eq!(found(None, "Copy"), None);
    let tile = matching_floating_rule(&rules, Some("a"), "x").unwrap();
    assert_eq!(tile.width(), Some(100));
    assert_eq!(tile.height(), None);
    assert_eq!(tile.center(), None);
}

#[test]
fn workspace_rules_go_by_application() {
    let config = parse(
        r#"
        workspaces { workspace "w"; }
        workspace-rules {
            rule app-id="a" workspace="w"
        }
        "#,
    )
    .unwrap();
    assert!(is_declared(&config.workspaces, "w"));
    assert!(!is_declared(&config.workspaces, "v"));
    let rule = matching_workspace_rule(&config.workspace_rules, Some("a")).unwrap();
    assert_eq!(rule.workspace, "w");
    assert!(matching_workspace_rule(&config.workspace_rules, Some("b")).is_none());
    assert!(matching_workspace_rule(&config.workspace_rules, None).is_none());
}

#[test]
fn a_mode_that_is_no_longer_declared_is_left() {
    let mut modes = Modes::new();
    modes.reconfigure(&parse("keybindings mode=\"resize\" { bind \"h\" \"flatten\"; }").unwrap().keybindings);
    assert!(modes.enter_mode("nope").is_err());
    modes.enter_mode("resize").unwrap();
    assert_eq!(modes.current_mode(), "resize");
    assert_eq!(modes.active_key_combos().len(), 1);
    modes.reconfigure(&vec![]);
    assert_eq!(modes.current_mode(), "main");
    assert!(modes.active_key_combos().is_empty());
}

#[test]
fn a_pattern_that_does_not_compile_is_told_of() {
    let config = parse("floating-rules { rule app-id=\"b\" title=\"[\"; rule app-id=\"c\"; }").unwrap();
    let bad = &config.floating_rules[0];
    assert_eq!(
        rule_warning(bad, Some("why")).as_deref(),
        Some("skipping floating rule for 'b' — invalid title regex '[': why")
    );
    assert_eq!(rule_warning(bad, None), None);
    assert_eq!(rule_warning(&config.floating_rules[1], Some("why")), None);
    let (rules, warnings) = compile_floating_rules(&config.floating_rules);
    assert_eq!(rules.len(), 1);
    let why = regex::Regex::new("[").unwrap_err().to_string();
    assert_eq!(warnings, vec![rule_warning(bad, Some(&why)).unwrap()]);
}

#[test]
fn a_rule_applies_to_its_application_and_titles() {
    assert!(rule_applies("a", "a", None));
    assert!(rule_applies("a", "a", Some(true)));
    assert!(!rule_applies("a", "a", Some(false)));
    assert!(!rule_applies("a", "b", Some(true)));
}
