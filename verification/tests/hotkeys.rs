//! Key combinations.

use tili::hotkey::{is_bound, key_code_for_name, parse_key_combo, KeyCombo};

#[test]
fn parses_single_modifier_combo() {
    let combo = parse_key_combo("alt-h").unwrap();
    assert!(combo.alt);
    assert!(!combo.shift && !combo.cmd && !combo.ctrl);
    assert_eq!(combo.keycode, 0x04);
}

#[test]
fn modifier_order_does_not_matter() {
    assert_eq!(
        parse_key_combo("alt-shift-h"),
        parse_key_combo("shift-alt-h")
    );
}

#[test]
fn parses_special_keys() {
    assert_eq!(parse_key_combo("escape").unwrap().keycode, 0x35);
    assert_eq!(
        parse_key_combo("alt-slash").unwrap().keycode,
        0x2C
    );
}

#[test]
fn unknown_key_name_returns_none() {
    assert_eq!(parse_key_combo("alt-notakey"), None);
    assert_eq!(parse_key_combo(""), None);
}

#[test]
fn every_name_of_a_modifier_counts() {
    let all = KeyCombo {
        cmd: true,
        alt: true,
        ctrl: true,
        shift: true,
        keycode: 0x24,
    };
    assert_eq!(parse_key_combo("cmd-alt-ctrl-shift-enter"), Some(all));
    assert_eq!(
        parse_key_combo("command-option-control-shift-return"),
        Some(all)
    );
}

#[test]
fn a_combination_ends_with_a_base_key() {
    assert_eq!(parse_key_combo("alt"), None);
    assert_eq!(parse_key_combo("h-alt"), None);
}

#[test]
fn letters_digits_and_names_have_their_codes() {
    assert_eq!(key_code_for_name("a"), Some(0x00));
    assert_eq!(key_code_for_name("z"), Some(0x06));
    assert_eq!(key_code_for_name("0"), Some(0x1D));
    assert_eq!(key_code_for_name("semicolon"), Some(0x29));
    assert_eq!(key_code_for_name("down"), Some(0x7D));
    assert_eq!(key_code_for_name("A"), None);
}

#[test]
fn only_bound_presses_are_taken() {
    let h = parse_key_combo("alt-h").unwrap();
    let j = parse_key_combo("alt-j").unwrap();
    assert!(is_bound(&vec![j, h], h));
    assert!(!is_bound(&vec![j], h));
    assert!(!is_bound(&vec![], h));
}
