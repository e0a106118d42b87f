//! How windows are classified and placed.

use tili::ipc::{PlacementInfo, RectInfo};
use tili::placement::{
    cascade_steps, classify_new_window, current_special, is_protected_finder_dialog,
    is_system_ui_bundle, placed_special, placement_info, resolve_disposition, restore_for,
    special_kind, FloatingRuleMode, PlacementKind, Restore, SpecialKind, WindowKind,
};
use tili::window::{classify_window_kind, Attributes, AxWindow};

#[test]
fn special_kind_priority_order() {
    assert_eq!(
        special_kind(true, true, true),
        Some(SpecialKind::HiddenApplication)
    );
    assert_eq!(
        special_kind(false, true, true),
        Some(SpecialKind::Minimized)
    );
    assert_eq!(
        special_kind(false, false, true),
        Some(SpecialKind::NativeFullscreen)
    );
    assert_eq!(special_kind(false, false, false), None);
}

#[test]
fn current_special_mirrors_special_kind() {
    assert_eq!(
        current_special(&PlacementKind::HiddenApplication(Restore::Tiled)),
        Some(SpecialKind::HiddenApplication)
    );
    assert_eq!(
        current_special(&PlacementKind::Minimized(Restore::Floating)),
        Some(SpecialKind::Minimized)
    );
    assert_eq!(
        current_special(&PlacementKind::NativeFullscreen(Restore::Tiled)),
        Some(SpecialKind::NativeFullscreen)
    );
    assert_eq!(current_special(&PlacementKind::Tiled), None);
    assert_eq!(
        current_special(&PlacementKind::Floating { manual: None }),
        None
    );
    assert_eq!(current_special(&PlacementKind::Popup), None);
}

#[test]
fn restore_for_carries_through_special_states() {
    assert_eq!(restore_for(&PlacementKind::Tiled), Restore::Tiled);
    assert_eq!(
        restore_for(&PlacementKind::Floating { manual: None }),
        Restore::Floating
    );
    assert_eq!(
        restore_for(&PlacementKind::Minimized(Restore::Floating)),
        Restore::Floating
    );
    assert_eq!(restore_for(&PlacementKind::Popup), Restore::Tiled);
}

#[test]
fn classify_new_window_priority_order() {
    assert!(matches!(
        classify_new_window(FloatingRuleMode::Tile, true, true, true),
        PlacementKind::HiddenApplication(Restore::Tiled)
    ));
    assert!(matches!(
        classify_new_window(FloatingRuleMode::Tile, false, true, true),
        PlacementKind::Minimized(Restore::Tiled)
    ));
    assert!(matches!(
        classify_new_window(FloatingRuleMode::Tile, false, false, true),
        PlacementKind::NativeFullscreen(Restore::Tiled)
    ));
}

#[test]
fn classify_new_window_ignore_disposition_is_popup() {
    assert!(matches!(
        classify_new_window(FloatingRuleMode::Ignore, false, false, false),
        PlacementKind::Popup
    ));
}

#[test]
fn is_protected_finder_dialog_matches_only_the_two_named_titles() {
    assert!(is_protected_finder_dialog(Some("com.apple.finder"), "Copy"));
    assert!(is_protected_finder_dialog(
        Some("com.apple.finder"),
        "Connect to Server"
    ));
    assert!(!is_protected_finder_dialog(
        Some("com.apple.finder"),
        "Copy 5 Items"
    ));
    assert!(!is_protected_finder_dialog(
        Some("com.apple.finder"),
        "Downloads"
    ));
    assert!(!is_protected_finder_dialog(
        Some("com.apple.TextEdit"),
        "Copy"
    ));
    assert!(!is_protected_finder_dialog(None, "Copy"));
}

#[test]
fn classify_new_window_float_disposition_is_floating() {
    assert!(matches!(
        classify_new_window(FloatingRuleMode::Float, false, false, false),
        PlacementKind::Floating { manual: None }
    ));
}

#[test]
fn classify_new_window_tile_disposition_is_tiled() {
    assert!(matches!(
        classify_new_window(FloatingRuleMode::Tile, false, false, false),
        PlacementKind::Tiled
    ));
}

#[test]
fn resolve_disposition_falls_back_to_kind_when_no_rule_matches() {
    assert_eq!(
        resolve_disposition(WindowKind::Popup, None),
        FloatingRuleMode::Ignore
    );
    assert_eq!(
        resolve_disposition(WindowKind::Dialog, None),
        FloatingRuleMode::Float
    );
    assert_eq!(
        resolve_disposition(WindowKind::Standard, None),
        FloatingRuleMode::Tile
    );
}

#[test]
fn resolve_disposition_explicit_rule_mode_overrides_popup_kind() {
    assert_eq!(
        resolve_disposition(
            WindowKind::Popup,
            Some(FloatingRuleMode::Float)
        ),
        FloatingRuleMode::Float
    );
}

#[test]
fn resolve_disposition_explicit_rule_mode_overrides_dialog_kind() {
    assert_eq!(
        resolve_disposition(
            WindowKind::Dialog,
            Some(FloatingRuleMode::Tile)
        ),
        FloatingRuleMode::Tile
    );
}

#[test]
fn resolve_disposition_explicit_ignore_overrides_standard_kind() {
    assert_eq!(
        resolve_disposition(
            WindowKind::Standard,
            Some(FloatingRuleMode::Ignore)
        ),
        FloatingRuleMode::Ignore
    );
}

#[test]
fn dialog_subrole_classifies_as_dialog() {
    assert_eq!(
        classify_window_kind(Some("AXDialog"), false, false, true, false, false),
        WindowKind::Dialog
    );
    assert_eq!(
        classify_window_kind(
            Some("AXSystemDialog"),
            true,
            false,
            true,
            false,
            false
        ),
        WindowKind::Dialog
    );
}

#[test]
fn standard_subrole_classifies_as_standard() {
    assert_eq!(
        classify_window_kind(
            Some("AXStandardWindow"),
            false,
            false,
            true,
            false,
            false
        ),
        WindowKind::Standard
    );
}

#[test]
fn standard_subrole_with_zoom_but_no_fullscreen_button_is_dialog() {
    assert_eq!(
        classify_window_kind(
            Some("AXStandardWindow"),
            true,
            true,
            true,
            true,
            false
        ),
        WindowKind::Dialog
    );
}

#[test]
fn standard_subrole_with_zoom_and_fullscreen_button_is_standard() {
    assert_eq!(
        classify_window_kind(
            Some("AXStandardWindow"),
            true,
            true,
            true,
            true,
            true
        ),
        WindowKind::Standard
    );
}

#[test]
fn missing_subrole_with_chrome_button_ties_break_to_standard() {
    assert_eq!(
        classify_window_kind(None, true, false, true, false, false),
        WindowKind::Standard
    );
}

#[test]
fn missing_subrole_without_chrome_button_is_popup() {
    assert_eq!(
        classify_window_kind(None, false, false, true, false, false),
        WindowKind::Popup
    );
}

#[test]
fn unrecognized_subrole_is_popup() {
    assert_eq!(
        classify_window_kind(Some("AXFloatingWindow"), false, false, true, false, false),
        WindowKind::Popup
    );
}

#[test]
fn non_regular_app_without_close_button_is_popup_even_with_standard_subrole() {
    assert_eq!(
        classify_window_kind(
            Some("AXStandardWindow"),
            true,
            false,
            false,
            false,
            false
        ),
        WindowKind::Popup
    );
}

#[test]
fn non_regular_app_with_close_button_still_classifies_normally() {
    assert_eq!(
        classify_window_kind(
            Some("AXStandardWindow"),
            true,
            true,
            false,
            false,
            false
        ),
        WindowKind::Standard
    );
}

#[test]
fn cascade_offset_is_symmetric_around_dead_center_and_wraps() {
    assert_eq!(cascade_steps(0), 0);
    assert_eq!(cascade_steps(1), 1);
    assert_eq!(cascade_steps(2), -1);
    assert_eq!(cascade_steps(3), 2);
    assert_eq!(cascade_steps(4), -2);
    assert_eq!(cascade_steps(7), 4);
    assert_eq!(cascade_steps(8), 0);
    assert_eq!(cascade_steps(8 + 1), cascade_steps(1));
}

#[test]
fn an_unrecognized_subrole_stays_a_popup_with_buttons_too() {
    assert_eq!(
        classify_window_kind(Some("AXFloatingWindow"), true, true, true, false, false),
        WindowKind::Popup
    );
}

fn attributes() -> Attributes {
    Attributes {
        role: Some("AXWindow".to_string()),
        subrole: Some("AXStandardWindow".to_string()),
        has_close_button: true,
        has_fullscreen_button: true,
        has_zoom_button: false,
        has_minimize_button: false,
        is_regular_app: true,
        window_id: Some(42),
        title: Some("notes".to_string()),
        frame: Some(RectInfo {
            x: 1,
            y: 2,
            width: 3,
            height: 4,
        }),
        minimized: Some(true),
        fullscreen: Some(false),
    }
}

#[test]
fn a_window_is_made_of_its_attributes() {
    let mut window = AxWindow::from_element(attributes(), 7, Some("org.example".to_string())).unwrap();
    assert_eq!(window.id(), 42);
    assert_eq!(window.pid(), 7);
    assert_eq!(window.bundle_id(), Some("org.example"));
    assert_eq!(window.title(), "notes");
    assert_eq!(window.kind(), WindowKind::Standard);
    assert!(window.minimized());
    assert!(!window.fullscreen());
    assert_eq!(window.frame().height, 4);
    window.sync_frame(RectInfo {
        x: 5,
        y: 6,
        width: 7,
        height: 8,
    });
    assert_eq!(window.frame().x, 5);
    assert_eq!(window.into_window().title, "notes");
}

#[test]
fn what_cannot_be_read_is_empty() {
    let bare = Attributes {
        role: None,
        subrole: None,
        has_close_button: false,
        has_fullscreen_button: false,
        has_minimize_button: true,
        title: None,
        frame: None,
        minimized: None,
        fullscreen: None,
        ..attributes()
    };
    let window = AxWindow::from_element(bare, 7, None).unwrap();
    assert_eq!(window.kind(), WindowKind::Standard);
    assert_eq!(window.title(), "");
    assert_eq!(window.bundle_id(), None);
    assert_eq!(window.frame().width, 0);
    assert!(!window.minimized());
}

#[test]
fn other_elements_are_no_windows() {
    let button = Attributes {
        role: Some("AXButton".to_string()),
        ..attributes()
    };
    assert!(AxWindow::from_element(button, 7, None).is_none());
    let anonymous = Attributes {
        window_id: None,
        ..attributes()
    };
    assert!(AxWindow::from_element(anonymous, 7, None).is_none());
}

#[test]
fn special_states_remember_what_to_return_to() {
    let kind = placed_special(SpecialKind::Minimized, Restore::Floating);
    assert_eq!(kind, PlacementKind::Minimized(Restore::Floating));
    assert_eq!(current_special(&kind), Some(SpecialKind::Minimized));
    assert_eq!(restore_for(&kind), Restore::Floating);
    assert!(!kind.is_in_tree());
}

#[test]
fn placements_are_reported_by_kind() {
    assert_eq!(
        placement_info(&PlacementKind::Tiled),
        PlacementInfo::Tiled
    );
    assert_eq!(
        placement_info(&PlacementKind::HiddenApplication(Restore::Tiled)),
        PlacementInfo::HiddenApplication
    );
    assert_eq!(placement_info(&PlacementKind::Popup), PlacementInfo::Popup);
}

#[test]
fn ordinary_applications_are_no_system_ui() {
    assert!(!is_system_ui_bundle(Some("com.apple.finder")));
    assert!(is_system_ui_bundle(Some("com.apple.dock")));
    assert!(!is_system_ui_bundle(None));
}
