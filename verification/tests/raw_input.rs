use pressnots::hid::{HidButtonDefinition, HidPayload};
use pressnots::keyboard::RawKeyboardEvent;
use pressnots::mouse::MouseButtonEvent;
use pressnots::raw_input::{
    decode_raw_input, device_kind_label, device_row_label, hex_bytes, raw_input_usages,
    ButtonTracker, RawInputEvent, RIM_TYPEHID, RIM_TYPEKEYBOARD, RIM_TYPEMOUSE,
};

fn message(kind: u32, body: &[u8]) -> Vec<u8> {
    let mut buffer = vec![0u8; 24];
    buffer[..4].copy_from_slice(&kind.to_le_bytes());
    buffer.extend_from_slice(body);
    buffer
}

#[test]
fn raw_input_is_sorted_by_device_type() {
    let mouse = message(RIM_TYPEMOUSE, &[0, 0, 0, 0, 0x01, 0]);
    assert_eq!(
        decode_raw_input(&mouse, 24),
        RawInputEvent::MouseButtons(vec![MouseButtonEvent { button: "left", action: "down" }])
    );
    let keyboard = message(RIM_TYPEKEYBOARD, &[0x1e, 0, 0, 0, 0, 0, 0x41, 0, 0, 1, 0, 0]);
    assert_eq!(
        decode_raw_input(&keyboard, 24),
        RawInputEvent::Keyboard(RawKeyboardEvent {
            make_code: 0x1e,
            flags: 0,
            virtual_key: 0x41,
            pressed: true,
        })
    );
    let hid_body = [2, 0, 0, 0, 1, 0, 0, 0, 5, 6];
    let hid = message(RIM_TYPEHID, &hid_body);
    assert_eq!(
        decode_raw_input(&hid, 24),
        RawInputEvent::Hid(HidPayload { report_size: 2, report_count: 1, bytes: &[5, 6] })
    );
    assert_eq!(decode_raw_input(&message(RIM_TYPEHID, &[2, 0, 0]), 24), RawInputEvent::Ignored);
    assert_eq!(decode_raw_input(&message(7, &hid_body), 24), RawInputEvent::Ignored);
    assert_eq!(decode_raw_input(&[0, 0], 24), RawInputEvent::Ignored);
    assert_eq!(
        decode_raw_input(&message(RIM_TYPEKEYBOARD, &[0; 12]), 24),
        RawInputEvent::Ignored
    );
}

#[test]
fn usages_include_mice_but_never_keyboards() {
    assert_eq!(raw_input_usages(&[]), vec![(1, 2)]);
    assert_eq!(
        raw_input_usages(&[(0x0c, 0x01), (1, 2), (0, 5), (0xff00, 0), (1, 5), (0x0c, 0x01)]),
        vec![(1, 2), (1, 5), (0x0c, 0x01)]
    );
    assert_eq!(raw_input_usages(&[(1, 6), (1, 7)]), vec![(1, 2), (1, 7)]);
}

#[test]
fn device_labels_name_the_type() {
    assert_eq!(device_kind_label(RIM_TYPEMOUSE), "Mouse");
    assert_eq!(device_kind_label(RIM_TYPEKEYBOARD), "Keyboard");
    assert_eq!(device_kind_label(RIM_TYPEHID), "HID");
    assert_eq!(device_kind_label(9), "Input device");
    assert_eq!(device_row_label(RIM_TYPEHID, Some(r"\\?\HID#X"), 3), r"HID  \\?\HID#X");
    assert_eq!(device_row_label(RIM_TYPEMOUSE, None, 0x1a2b), "Mouse  device 0x1a2b");
}

#[test]
fn report_bytes_print_as_hex() {
    assert_eq!(hex_bytes(&[0x05, 0x00, 0x80, 0x00]), "05 00 80 00");
    assert_eq!(hex_bytes(&[]), "");
    assert_eq!(hex_bytes(&[0xff]), "ff");
}

#[test]
fn tracker_reports_only_transitions() {
    let mut tracker = ButtonTracker::new();
    assert!(!tracker.observe(1, "a", false));
    assert!(tracker.observe(1, "a", true));
    assert!(!tracker.observe(1, "a", true));
    assert!(tracker.observe(1, "a", false));
    assert!(!tracker.observe(1, "a", false));
    assert!(tracker.observe(2, "a", true));
    assert!(tracker.observe(1, "b", true));
}

#[test]
fn tracker_filters_decoded_reports() {
    let definitions = [HidButtonDefinition {
        name: "rear-paddle-4",
        device_name_contains: "VID_1234&PID_5678",
        report_id: Some(5),
        byte_offset: 2,
        bit_mask: 0x80,
        active_low: false,
    }];
    let name = r"\\?\HID#VID_1234&PID_5678";
    let mut tracker = ButtonTracker::new();
    assert!(tracker.observe_report(&definitions, 7, name, &[5, 0, 0]).is_empty());
    assert_eq!(tracker.observe_report(&definitions, 7, name, &[5, 0, 0x80]), vec![("rear-paddle-4", true)]);
    assert!(tracker.observe_report(&definitions, 7, name, &[5, 0, 0x80]).is_empty());
    assert_eq!(tracker.observe_report(&definitions, 7, name, &[5, 0, 0]), vec![("rear-paddle-4", false)]);
    assert!(tracker.observe_report(&definitions, 7, "VID_OTHER", &[5, 0, 0x80]).is_empty());
}
