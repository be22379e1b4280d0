use pressnots::aliases::AliasStore;
use pressnots::hid::HidButtonDefinition;
use pressnots::keyboard::RawKeyboardEvent;
use pressnots::raw_input::ButtonTracker;
use pressnots::ui::{initialize, keyboard_ui_key, register_device, update_device, update_global};
use pressnots::hid::{parse_payload, split_reports};
use pressnots::text::{decode_wide_name, trim_whitespace, wide_null};

#[test]
fn last_rename_wins() {
    let mut store = AliasStore::new();
    store.rename("k", "first");
    store.rename("k", " second ");
    assert_eq!(store.get("k"), Some("second"));
    store.rename("k", "  ");
    assert_eq!(store.get("k"), None);
}

#[test]
fn renaming_to_the_current_alias_changes_nothing() {
    let mut store = AliasStore::new();
    store.rename("k", "Desk");
    store.rename("j", "Other");
    let mut again = AliasStore::new();
    again.rename("k", "Desk");
    again.rename("j", "Other");
    again.rename("k", "Desk");
    assert!(again.same_aliases(&store));
}

#[test]
fn accepted_payload_splits_into_report_count_reports() {
    let payload = [3, 0, 0, 0, 2, 0, 0, 0, 1, 2, 3, 4, 5, 6, 7];
    let parsed = parse_payload(&payload).unwrap();
    let reports = split_reports(parsed.bytes, parsed.report_size as usize);
    assert_eq!(reports.len(), parsed.report_count as usize);
    assert_eq!(reports, vec![&[1u8, 2, 3][..], &[4, 5, 6][..]]);
}

#[test]
fn trimming_twice_is_trimming_once() {
    for s in ["  a  ", "\u{2028}b c\u{2029}", "", "   ", "x"] {
        let once = trim_whitespace(s);
        assert_eq!(trim_whitespace(&once), once);
    }
}

#[test]
fn wide_strings_round_trip() {
    for s in ["", "Mouse", r"\\?\HID#VID_1234&PID_5678", "Tastatur \u{e4} \u{1f3b9}"] {
        assert_eq!(decode_wide_name(&wide_null(s)), s);
    }
}

#[test]
fn identities_differ_exactly_when_code_prefix_or_virtual_key_differ() {
    let base = RawKeyboardEvent { make_code: 0x1d, flags: 0x0002, virtual_key: 0xa3, pressed: true };
    let broken = RawKeyboardEvent { flags: 0x0003, pressed: false, ..base };
    assert_eq!(base.identity(), broken.identity());
    assert_ne!(base.identity(), RawKeyboardEvent { flags: 0, ..base }.identity());
    assert_ne!(base.identity(), RawKeyboardEvent { make_code: 0x1e, ..base }.identity());
    assert_ne!(base.identity(), RawKeyboardEvent { virtual_key: 0xa2, ..base }.identity());
}

#[test]
fn key_press_then_release_restores_held_keys() {
    let mut model = initialize(AliasStore::new());
    register_device(&mut model, 7, "kbd", "Keyboard  kbd".to_string());
    let press = RawKeyboardEvent { make_code: 0x1e, flags: 0, virtual_key: 0x41, pressed: true };
    let release = RawKeyboardEvent { flags: 1, pressed: false, ..press };
    update_global(&mut model, keyboard_ui_key(7, press), "A", true);
    update_device(&mut model, 7, &press.identity(), true);
    assert!(model.state.light_is_on());
    assert_eq!(model.state.last_button, "A");
    update_global(&mut model, keyboard_ui_key(7, release), "A", false);
    update_device(&mut model, 7, &release.identity(), false);
    assert!(!model.state.light_is_on());
    assert!(model.state.devices[0].pressed.is_empty());
}

#[test]
fn tracker_edges_carry_over_successive_reports() {
    let definitions = [
        HidButtonDefinition { name: "a", device_name_contains: "", report_id: None, byte_offset: 0, bit_mask: 1, active_low: false },
        HidButtonDefinition { name: "b", device_name_contains: "", report_id: None, byte_offset: 0, bit_mask: 2, active_low: false },
    ];
    let mut tracker = ButtonTracker::new();
    let mut seen = Vec::new();
    for report in [[0u8], [1], [3], [3], [2], [0]] {
        seen.push(tracker.observe_report(&definitions, 1, "dev", &report));
    }
    assert_eq!(
        seen,
        vec![
            vec![],
            vec![("a", true)],
            vec![("b", true)],
            vec![],
            vec![("a", false)],
            vec![("b", false)],
        ]
    );
}
