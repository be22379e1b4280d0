use pressnots::state::{KeySet, UiState};

#[test]
fn light_stays_on_until_every_button_is_released() {
    let mut state = UiState::default();
    state.record("mouse:left".into(), "left", true);
    state.record("mouse:x1".into(), "x1", true);
    state.record("mouse:left".into(), "left", false);

    assert!(state.light_is_on());
    assert_eq!(state.last_button, "x1");

    state.record("mouse:x1".into(), "x1", false);
    assert!(!state.light_is_on());
    assert_eq!(state.last_button, "x1");
}

#[test]
fn device_light_tracks_only_its_own_buttons() {
    let mut state = UiState::default();
    state.register_device(10, "Mouse A".into());
    state.register_device(20, "Mouse B".into());
    state.record_device(10, "left", true);

    assert!(!state.devices[0].pressed.is_empty());
    assert!(state.devices[1].pressed.is_empty());

    state.record_device(10, "left", false);
    assert!(state.devices[0].pressed.is_empty());
}

#[test]
fn default_state_waits_for_a_press() {
    let state = UiState::default();
    assert!(!state.light_is_on());
    assert_eq!(state.last_button, "Waiting for a button press");
    assert!(state.devices.is_empty());
}

#[test]
fn repeated_press_needs_one_release() {
    let mut state = UiState::default();
    state.record("k".into(), "a", true);
    state.record("k".into(), "a", true);
    state.record("k".into(), "a", false);
    assert!(!state.light_is_on());
}

#[test]
fn registering_a_known_handle_relabels_it() {
    let mut state = UiState::default();
    state.register_device(10, "Mouse A".into());
    state.record_device(10, "left", true);
    state.register_device(10, "Renamed".into());
    assert_eq!(state.devices.len(), 1);
    assert_eq!(state.devices[0].label, "Renamed");
    assert!(state.devices[0].pressed.contains("left"));
}

#[test]
fn unknown_device_events_change_nothing() {
    let mut state = UiState::default();
    state.register_device(10, "Mouse A".into());
    state.record_device(99, "left", true);
    assert!(state.devices[0].pressed.is_empty());
    assert_eq!(state.devices.len(), 1);
}

#[test]
fn key_sets_hold_each_key_once() {
    let mut keys = KeySet::new();
    assert!(keys.is_empty());
    keys.insert("a".to_string());
    keys.insert("a".to_string());
    keys.insert("b".to_string());
    let copy = keys.clone();
    keys.remove("a");
    assert!(!keys.contains("a"));
    assert!(keys.contains("b"));
    keys.remove("b");
    assert!(keys.is_empty());
    assert!(copy.contains("a") && copy.contains("b"));
    assert!(!copy.contains("c"));
}
