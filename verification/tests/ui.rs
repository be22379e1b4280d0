use pressnots::aliases::{parse, AliasStore};
use pressnots::keyboard::RawKeyboardEvent;
use pressnots::mouse::MouseButtonEvent;
use pressnots::ui::{
    apply_event, can_reset, edit_key_action, hid_ui_key, history_after_reset, history_after_undo,
    initialize, keyboard_ui_key, lparam_x, lparam_y, mouse_ui_key, register_device,
    rename_device, reset_device_alias, revert_alias_change, rgb, row_at, row_top, status_text,
    undo_reset, update_device, update_global, window_title, DeviceRows, RowIdentity, UiEvent,
};

#[test]
fn colours_pack_red_green_blue() {
    assert_eq!(rgb(24, 27, 32), 0x0020_1b18);
    assert_eq!(rgb(255, 48, 48), 0x0030_30ff);
}

#[test]
fn rows_are_hit_by_their_y_range() {
    assert_eq!(row_at(39), None);
    assert_eq!(row_at(40), Some(0));
    assert_eq!(row_at(67), Some(0));
    assert_eq!(row_at(68), Some(1));
    assert_eq!(row_at(-5), None);
    assert_eq!(row_top(0), 40);
    assert_eq!(row_top(2), 96);
}

#[test]
fn lparam_coordinates_are_signed_words() {
    assert_eq!(lparam_x(0x0020_0010), 0x10);
    assert_eq!(lparam_y(0x0020_0010), 0x20);
    assert_eq!(lparam_x(0x0000_ffff), -1);
    assert_eq!(lparam_y(0xfff6_0005u32 as i32 as isize), -10);
    assert_eq!(lparam_x(-1), -1);
    assert_eq!(lparam_y(-1), -1);
    assert_eq!(lparam_x(-65535), 1);
}

#[test]
fn editor_keys_save_or_cancel() {
    assert_eq!(edit_key_action(0x0100, 0x0d), Some(true));
    assert_eq!(edit_key_action(0x0100, 0x1b), Some(false));
    assert_eq!(edit_key_action(0x0100, 0x41), None);
    assert_eq!(edit_key_action(0x0101, 0x0d), None);
}

#[test]
fn texts_name_the_last_button() {
    assert_eq!(status_text(true, "x1"), "Pressed: x1");
    assert_eq!(status_text(false, "x1"), "Last button: x1");
    assert_eq!(window_title("left"), "PressNots - left");
}

#[test]
fn state_keys_identify_inputs() {
    assert_eq!(mouse_ui_key("x2"), "mouse:x2");
    assert_eq!(hid_ui_key(0x1a, "paddle"), "hid:1a:paddle");
    let key = RawKeyboardEvent { make_code: 0x1e, flags: 0, virtual_key: 0x41, pressed: true };
    assert_eq!(keyboard_ui_key(0xabc, key), "keyboard:abc:001e:0000:0041");
}

#[test]
fn registered_rows_show_aliases() {
    let mut aliases = AliasStore::new();
    aliases.rename("dev-a", "Desk Mouse");
    let mut model = initialize(aliases);
    register_device(&mut model, 1, "dev-a", "Mouse  dev-a".to_string());
    register_device(&mut model, 2, "dev-b", "Mouse  dev-b".to_string());
    assert_eq!(model.state.devices[0].label, "Desk Mouse");
    assert_eq!(model.state.devices[1].label, "Mouse  dev-b");

    update_device(&mut model, 2, "left", true);
    assert!(model.state.devices[1].pressed.contains("left"));
    update_global(&mut model, "mouse:left".to_string(), "left", true);
    assert!(model.state.light_is_on());
    assert_eq!(model.state.last_button, "left");
    update_global(&mut model, "mouse:left".to_string(), "left", false);
    assert!(!model.state.light_is_on());
}

#[test]
fn alias_changes_relabel_rows_and_can_be_reverted() {
    let mut model = initialize(AliasStore::new());
    register_device(&mut model, 1, "dev-a", "Mouse  dev-a".to_string());
    assert!(!rename_device(&mut model, 9, "Other"));
    assert_eq!(model.state.devices.len(), 1);
    assert!(rename_device(&mut model, 1, " Desk "));
    assert_eq!(model.state.devices[0].label, "Desk");
    assert_eq!(model.aliases.get("dev-a"), Some("Desk"));
    assert!(rename_device(&mut model, 1, "Pad"));
    assert_eq!(model.state.devices[0].label, "Pad");
    revert_alias_change(&mut model, 1, "dev-a", Some("Desk"));
    assert_eq!(model.state.devices[0].label, "Desk");
    revert_alias_change(&mut model, 1, "dev-a", None);
    assert_eq!(model.state.devices[0].label, "Mouse  dev-a");
    assert!(rename_device(&mut model, 1, "   "));
    assert_eq!(model.aliases.get("dev-a"), None);
    assert_eq!(model.state.devices.len(), 1);
}

#[test]
fn reset_and_undo_of_a_device_name() {
    let mut aliases = AliasStore::new();
    aliases.rename("dev-a", "Desk");
    let mut model = initialize(aliases);
    register_device(&mut model, 1, "dev-a", "Mouse  dev-a".to_string());
    register_device(&mut model, 2, "dev-b", "Mouse  dev-b".to_string());
    assert!(can_reset(&model, 1));
    assert!(!can_reset(&model, 2));
    assert!(!can_reset(&model, 3));
    assert!(reset_device_alias(&mut model, 2).is_none());
    assert!(reset_device_alias(&mut model, 3).is_none());
    let reset = reset_device_alias(&mut model, 1).unwrap();
    assert_eq!((reset.handle, reset.key.as_str(), reset.alias.as_str()), (1, "dev-a", "Desk"));
    assert_eq!(model.state.devices[0].label, "Mouse  dev-a");
    assert_eq!(model.aliases.get("dev-a"), None);
    assert!(!can_reset(&model, 1));
    let previous = undo_reset(&mut model, &reset);
    assert_eq!(previous, None);
    assert_eq!(model.state.devices[0].label, "Desk");
    assert_eq!(model.aliases.get("dev-a"), Some("Desk"));

    let history = history_after_reset(None, reset, false);
    assert!(history.is_none());
    let again = reset_device_alias(&mut model, 1).unwrap();
    let history = history_after_reset(None, again, true).unwrap();
    assert_eq!(history.alias, "Desk");
    let kept = history_after_undo(history, false).unwrap();
    assert_eq!(kept.key, "dev-a");
    assert!(history_after_undo(kept, true).is_none());
}

#[test]
fn undo_of_a_reset_stores_the_alias_trimmed() {
    let aliases = parse(r#"{"dev-a": " A "}"#).unwrap();
    let mut model = initialize(aliases);
    register_device(&mut model, 1, "dev-a", "Mouse  dev-a".to_string());
    assert_eq!(model.state.devices[0].label, " A ");
    let reset = reset_device_alias(&mut model, 1).unwrap();
    assert_eq!(reset.alias, " A ");
    undo_reset(&mut model, &reset);
    assert_eq!(model.aliases.get("dev-a"), Some("A"));
    assert_eq!(model.state.devices[0].label, "A");
}

#[test]
fn events_update_the_window_and_their_rows() {
    let mut model = initialize(AliasStore::new());
    register_device(&mut model, 7, "kbd", "Keyboard  kbd".to_string());
    register_device(&mut model, 8, "pad", "HID  pad".to_string());
    apply_event(&mut model, UiEvent::Mouse(MouseButtonEvent { button: "x1", action: "down" }));
    assert!(model.state.light_is_on());
    assert_eq!(model.state.last_button, "x1");
    assert!(model.state.pressed.contains("mouse:x1"));
    apply_event(&mut model, UiEvent::Mouse(MouseButtonEvent { button: "x1", action: "up" }));
    assert!(!model.state.light_is_on());
    assert_eq!(model.state.last_button, "x1");

    apply_event(&mut model, UiEvent::DeviceButton { device: 8, button: "left", pressed: true });
    assert!(!model.state.light_is_on());
    assert!(model.state.devices[1].pressed.contains("left"));

    let key = RawKeyboardEvent { make_code: 0x1e, flags: 0, virtual_key: 0x41, pressed: true };
    apply_event(&mut model, UiEvent::Keyboard { device: 7, key, name: "A".to_string() });
    assert!(model.state.pressed.contains("keyboard:7:001e:0000:0041"));
    assert_eq!(model.state.last_button, "A");
    assert!(model.state.devices[0].pressed.contains("001e:0000:0041"));

    apply_event(&mut model, UiEvent::HidButton { device: 8, button: "paddle", pressed: true });
    assert_eq!(model.state.last_button, "paddle");
    assert!(model.state.pressed.contains("hid:8:paddle"));
    assert!(model.state.devices[1].pressed.contains("left"));
    assert!(model.state.devices[1].pressed.contains("paddle"));
    apply_event(&mut model, UiEvent::HidButton { device: 8, button: "paddle", pressed: false });
    assert_eq!(model.state.last_button, "paddle");
    assert!(!model.state.pressed.contains("hid:8:paddle"));
    assert!(model.state.devices[1].pressed.contains("left"));
    assert!(!model.state.devices[1].pressed.contains("paddle"));
}

#[test]
fn row_registry_keeps_the_latest_identity() {
    let mut rows = DeviceRows::new();
    assert!(rows.identity(1).is_none());
    rows.register(1, RowIdentity { key: "a".to_string(), default_label: "A".to_string() });
    rows.register(2, RowIdentity { key: "b".to_string(), default_label: "B".to_string() });
    rows.register(1, RowIdentity { key: "c".to_string(), default_label: "C".to_string() });
    let first = rows.identity(1).unwrap();
    assert_eq!((first.key.as_str(), first.default_label.as_str()), ("c", "C"));
    assert_eq!(rows.identity(2).unwrap().key, "b");
    assert!(rows.identity(3).is_none());
}
