use pressnots::mouse::{
    decode_message, decode_raw_buttons, mouse_hook_decision, MouseButtonEvent, WM_LBUTTONDOWN,
    WM_MBUTTONDOWN, WM_MBUTTONUP, WM_RBUTTONUP, WM_XBUTTONDOWN, WM_XBUTTONUP,
};

#[test]
fn decodes_middle_button_click() {
    assert_eq!(
        decode_message(WM_MBUTTONDOWN, 0),
        Some(MouseButtonEvent {
            button: "middle",
            action: "down",
        })
    );
    assert_eq!(
        decode_message(WM_MBUTTONUP, 0),
        Some(MouseButtonEvent {
            button: "middle",
            action: "up",
        })
    );
}

#[test]
fn decodes_x1_and_x2_from_high_word_only() {
    assert_eq!(
        decode_message(WM_XBUTTONDOWN, (1 << 16) | 0xffff),
        Some(MouseButtonEvent {
            button: "x1",
            action: "down",
        })
    );
    assert_eq!(
        decode_message(WM_XBUTTONUP, 2 << 16),
        Some(MouseButtonEvent {
            button: "x2",
            action: "up",
        })
    );
}

#[test]
fn preserves_an_unrecognized_x_button_identifier() {
    assert_eq!(
        decode_message(WM_XBUTTONDOWN, 7 << 16),
        Some(MouseButtonEvent {
            button: "x-unknown",
            action: "down",
        })
    );
}

#[test]
fn ignores_non_button_mouse_messages() {
    assert_eq!(decode_message(0x020a, 120 << 16), None);
    assert_eq!(decode_message(0x020e, 120 << 16), None);
    assert_eq!(decode_message(0x0200, 0), None);
}

#[test]
fn decodes_simultaneous_and_rare_raw_mouse_buttons() {
    let payload = [0, 0, 0, 0, 0x41, 0x01];
    assert_eq!(
        decode_raw_buttons(&payload),
        vec![
            MouseButtonEvent {
                button: "left",
                action: "down",
            },
            MouseButtonEvent {
                button: "x1",
                action: "down",
            },
            MouseButtonEvent {
                button: "x2",
                action: "down",
            },
        ]
    );
    assert!(decode_raw_buttons(&[0, 0, 0xff]).is_empty());
}

#[test]
fn every_raw_flag_decodes_in_table_order() {
    let all = decode_raw_buttons(&[0, 0, 0, 0, 0xff, 0x03]);
    let names: Vec<(&str, &str)> = all.iter().map(|e| (e.button, e.action)).collect();
    assert_eq!(
        names,
        vec![
            ("left", "down"),
            ("left", "up"),
            ("right", "down"),
            ("right", "up"),
            ("middle", "down"),
            ("middle", "up"),
            ("x1", "down"),
            ("x1", "up"),
            ("x2", "down"),
            ("x2", "up"),
        ]
    );
    assert!(decode_raw_buttons(&[0, 0, 0, 0, 0, 0xfc]).is_empty());
}

#[test]
fn right_and_left_messages_decode() {
    assert_eq!(
        decode_message(WM_RBUTTONUP, 0),
        Some(MouseButtonEvent { button: "right", action: "up" })
    );
    assert_eq!(
        decode_message(WM_LBUTTONDOWN, 0xdead_beef),
        Some(MouseButtonEvent { button: "left", action: "down" })
    );
}

#[test]
fn hook_suppresses_only_decoded_buttons_when_blocking() {
    let blocked = mouse_hook_decision(0, WM_LBUTTONDOWN, 0, true);
    assert!(blocked.suppress);
    assert_eq!(blocked.event, Some(MouseButtonEvent { button: "left", action: "down" }));
    let passed = mouse_hook_decision(0, WM_LBUTTONDOWN, 0, false);
    assert!(!passed.suppress);
    let wheel = mouse_hook_decision(0, 0x020a, 120 << 16, true);
    assert!(!wheel.suppress);
    assert_eq!(wheel.event, None);
    let negative = mouse_hook_decision(-1, WM_LBUTTONDOWN, 0, true);
    assert!(!negative.suppress);
    assert_eq!(negative.event, None);
}
