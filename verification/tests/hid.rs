use pressnots::hid::{decode_buttons, parse_payload, split_reports, HidButtonDefinition, HidPayload};

#[test]
fn parses_multiple_reports() {
    let payload = [2, 0, 0, 0, 3, 0, 0, 0, 1, 0x80, 1, 0, 1, 0x40];
    assert_eq!(
        parse_payload(&payload),
        Some(HidPayload {
            report_size: 2,
            report_count: 3,
            bytes: &payload[8..],
        })
    );
}

#[test]
fn rejects_truncated_zero_and_overflowing_payloads() {
    assert_eq!(parse_payload(&[1, 2, 3]), None);
    assert_eq!(parse_payload(&[0, 0, 0, 0, 1, 0, 0, 0]), None);
    assert_eq!(parse_payload(&[1, 0, 0, 0, 0, 0, 0, 0]), None);
    assert_eq!(parse_payload(&[0xff, 0xff, 0xff, 0xff, 2, 0, 0, 0]), None);
    assert_eq!(parse_payload(&[4, 0, 0, 0, 1, 0, 0, 0, 1, 2]), None);
}

#[test]
fn decodes_high_bit_and_active_low_buttons() {
    let definitions = [
        HidButtonDefinition {
            name: "paddle-4",
            device_name_contains: "VID_1234",
            report_id: Some(5),
            byte_offset: 2,
            bit_mask: 0x80,
            active_low: false,
        },
        HidButtonDefinition {
            name: "safety-release",
            device_name_contains: "VID_1234",
            report_id: Some(5),
            byte_offset: 3,
            bit_mask: 0x04,
            active_low: true,
        },
    ];

    assert_eq!(
        decode_buttons(&definitions, r"\\?\HID#VID_1234&PID_5678", &[5, 0, 0x80, 0]),
        vec![("paddle-4", true), ("safety-release", true)]
    );
}

#[test]
fn filters_device_report_id_and_short_reports() {
    let definitions = [HidButtonDefinition {
        name: "auxiliary",
        device_name_contains: "VID_ABCD&PID_0001",
        report_id: Some(9),
        byte_offset: 4,
        bit_mask: 0x02,
        active_low: false,
    }];

    assert!(decode_buttons(&definitions, "VID_OTHER", &[9, 0, 0, 0, 2]).is_empty());
    assert!(decode_buttons(&definitions, "VID_ABCD&PID_0001", &[8, 0, 0, 0, 2]).is_empty());
    assert!(decode_buttons(&definitions, "VID_ABCD&PID_0001", &[9, 0]).is_empty());
}

#[test]
fn payload_ignores_trailing_bytes_and_reads_little_endian_fields() {
    let payload = [1, 1, 0, 0, 1, 0, 0, 0, 0xaa];
    assert_eq!(parse_payload(&payload), None);
    let mut long = vec![0x02, 0x01, 0, 0, 1, 0, 0, 0];
    long.extend(std::iter::repeat(7u8).take(0x102 + 3));
    let parsed = parse_payload(&long).unwrap();
    assert_eq!(parsed.report_size, 0x0102);
    assert_eq!(parsed.report_count, 1);
    assert_eq!(parsed.bytes.len(), 0x102);
}

#[test]
fn payload_product_that_overflows_u32_is_rejected() {
    // 0x10000 * 0x10000 does not fit in a u32.
    assert_eq!(parse_payload(&[0, 0, 1, 0, 0, 0, 1, 0, 1, 2, 3]), None);
}

#[test]
fn released_and_unmasked_buttons_decode_as_up() {
    let definitions = [
        HidButtonDefinition {
            name: "paddle-4",
            device_name_contains: "VID_1234",
            report_id: Some(5),
            byte_offset: 2,
            bit_mask: 0x80,
            active_low: false,
        },
        HidButtonDefinition {
            name: "safety-release",
            device_name_contains: "VID_1234",
            report_id: Some(5),
            byte_offset: 3,
            bit_mask: 0x04,
            active_low: true,
        },
    ];
    assert_eq!(
        decode_buttons(&definitions, "VID_1234", &[5, 0, 0x7f, 0x04]),
        vec![("paddle-4", false), ("safety-release", false)]
    );
}

#[test]
fn definition_without_report_id_matches_any_first_byte() {
    let definitions = [HidButtonDefinition {
        name: "trigger",
        device_name_contains: "",
        report_id: None,
        byte_offset: 0,
        bit_mask: 0x01,
        active_low: false,
    }];
    assert_eq!(decode_buttons(&definitions, "any device", &[0x03]), vec![("trigger", true)]);
    assert!(decode_buttons(&definitions, "any device", &[]).is_empty());
}

#[test]
fn device_name_match_is_case_sensitive() {
    let definitions = [HidButtonDefinition {
        name: "button",
        device_name_contains: "VID_ABCD",
        report_id: None,
        byte_offset: 0,
        bit_mask: 0xff,
        active_low: false,
    }];
    assert!(decode_buttons(&definitions, "vid_abcd", &[1]).is_empty());
    assert_eq!(decode_buttons(&definitions, "xxVID_ABCDyy", &[1]), vec![("button", true)]);
}

#[test]
fn splits_report_data_into_whole_reports() {
    let bytes = [1, 0x80, 1, 0, 1, 0x40, 9];
    let reports = split_reports(&bytes, 2);
    assert_eq!(reports, vec![&[1u8, 0x80][..], &[1, 0][..], &[1, 0x40][..]]);
    assert!(split_reports(&bytes, 8).is_empty());
}
