use pressnots::aliases::{parse, serialize, AliasStore};

#[test]
fn json_round_trip_preserves_device_paths_and_unicode_aliases() {
    let mut aliases = AliasStore::new();
    aliases.rename(r"\\?\HID#VID_1234&PID_5678", "Editing Keyboard");

    let back = parse(&serialize(&aliases)).unwrap();
    assert!(back.same_aliases(&aliases));
    assert_eq!(back.get(r"\\?\HID#VID_1234&PID_5678"), Some("Editing Keyboard"));
}

#[test]
fn malformed_json_is_rejected() {
    assert!(parse("not json").is_err());
}

#[test]
fn reset_and_undo_are_persisted() {
    let mut store = AliasStore::new();

    store.rename("device-key", "Studio Keyboard");
    store.rename("device-key", "");
    assert!(parse(&serialize(&store)).unwrap().get("device-key").is_none());

    store.rename("device-key", "Studio Keyboard");
    assert_eq!(parse(&serialize(&store)).unwrap().get("device-key"), Some("Studio Keyboard"));
}

#[test]
fn rename_trims_and_blank_alias_removes() {
    let mut store = AliasStore::new();
    store.rename("k", "  Desk Mouse\t\n");
    assert_eq!(store.get("k"), Some("Desk Mouse"));
    store.rename("k", " \u{3000} ");
    assert_eq!(store.get("k"), None);
}

#[test]
fn unicode_aliases_survive_the_file() {
    let mut store = AliasStore::new();
    store.rename("a", "Tastatur \u{e4}\u{f6}\u{fc} \u{1f3b9}");
    store.rename("b", "quote \" and backslash \\");
    let text = serialize(&store);
    let back = parse(&text).unwrap();
    assert_eq!(back.get("a"), Some("Tastatur \u{e4}\u{f6}\u{fc} \u{1f3b9}"));
    assert_eq!(back.get("b"), Some("quote \" and backslash \\"));
    assert!(back.same_aliases(&store));
}

#[test]
fn load_falls_back_to_empty_store() {
    let empty = AliasStore::new();
    assert!(AliasStore::load(None).same_aliases(&empty));
    assert!(AliasStore::load(Some("[1, 2]")).same_aliases(&empty));
    assert!(AliasStore::load(Some("{\"k\": 3}")).same_aliases(&empty));
    let loaded = AliasStore::load(Some("{\"k\": \"v\"}"));
    assert_eq!(loaded.get("k"), Some("v"));
    assert!(!loaded.same_aliases(&empty));
}

#[test]
fn stores_with_different_values_differ() {
    let mut a = AliasStore::new();
    let mut b = AliasStore::new();
    a.rename("k", "one");
    b.rename("k", "two");
    assert!(!a.same_aliases(&b));
    b.rename("k", "one");
    assert!(a.same_aliases(&b));
}

#[test]
fn restore_puts_an_alias_back_exactly() {
    let mut store = AliasStore::new();
    store.restore("k", Some("  spaced  "));
    assert_eq!(store.get("k"), Some("  spaced  "));
    store.restore("k", None);
    assert_eq!(store.get("k"), None);
}
