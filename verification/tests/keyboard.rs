use pressnots::keyboard::{decode, fallback_key_name, key_name, RawKeyboardEvent, RI_KEY_E0};

#[test]
fn decodes_extended_press_and_release() {
    let press = [0x1d, 0, 2, 0, 0, 0, 0xa3, 0, 0x00, 0x01, 0, 0];
    let release = [0x1d, 0, 3, 0, 0, 0, 0xa3, 0, 0x01, 0x01, 0, 0];

    assert_eq!(
        decode(&press),
        Some(RawKeyboardEvent {
            make_code: 0x1d,
            flags: RI_KEY_E0,
            virtual_key: 0xa3,
            pressed: true,
        })
    );
    assert!(!decode(&release).unwrap().pressed);
}

#[test]
fn rejects_short_and_non_key_messages() {
    assert_eq!(decode(&[0; 11]), None);
    assert_eq!(decode(&[0; 12]), None);
}

#[test]
fn system_key_messages_are_transitions() {
    let down = [0x38, 0, 0, 0, 0, 0, 0x12, 0, 0x04, 0x01, 0, 0];
    let up = [0x38, 0, 0, 0, 0, 0, 0x12, 0, 0x05, 0x01, 0, 0];
    assert!(decode(&down).unwrap().pressed);
    assert!(!decode(&up).unwrap().pressed);
}

#[test]
fn identity_keeps_only_prefix_flags() {
    let key = RawKeyboardEvent {
        make_code: 0x1d,
        flags: 0x0003,
        virtual_key: 0xa3,
        pressed: true,
    };
    assert_eq!(key.identity(), "001d:0002:00a3");
    let released = RawKeyboardEvent { pressed: false, ..key };
    assert_eq!(released.identity(), key.identity());
    let e1 = RawKeyboardEvent {
        make_code: 0x1d,
        flags: 0x0004,
        virtual_key: 0x13,
        pressed: true,
    };
    assert_eq!(e1.identity(), "001d:0004:0013");
}

#[test]
fn key_name_lparam_places_scan_code_and_extended_bit() {
    let key = RawKeyboardEvent {
        make_code: 0x1d,
        flags: RI_KEY_E0,
        virtual_key: 0xa3,
        pressed: true,
    };
    assert_eq!(key.key_name_lparam(), 0x011d_0000);
    let plain = RawKeyboardEvent { flags: 0, ..key };
    assert_eq!(plain.key_name_lparam(), 0x001d_0000);
    let high = RawKeyboardEvent {
        make_code: 0xe01d,
        flags: 0,
        virtual_key: 0,
        pressed: true,
    };
    assert_eq!(high.key_name_lparam(), 0xe01d_0000u32 as i32);
}

#[test]
fn fallback_name_uses_upper_case_virtual_key() {
    assert_eq!(fallback_key_name(0xa3), "VK 0xA3");
    assert_eq!(fallback_key_name(0x5), "VK 0x05");
    assert_eq!(fallback_key_name(0x1ff), "VK 0x1FF");
    let key = RawKeyboardEvent {
        make_code: 0,
        flags: 0,
        virtual_key: 0x41,
        pressed: true,
    };
    assert_eq!(key_name(key, None), "VK 0x41");
    assert_eq!(key_name(key, Some("A".to_string())), "A");
}
