//! Raw HID payloads and vendor-defined buttons inside HID reports.

use vstd::prelude::*;

use crate::bytes::{le_u32_at, read_u32_le};
use crate::text::{contains_str, str_contains};

verus! {

/// Where one vendor-defined button lives inside the reports of one device.
#[derive(Clone, Copy, Debug, PartialEq, Eq)]
pub struct HidButtonDefinition {
    /// Stable text reported for the button.
    pub name: &'static str,
    /// Case-sensitive substring of the Raw Input device name.
    pub device_name_contains: &'static str,
    /// Expected first report byte, or `None` when the device has no report ID.
    pub report_id: Option<u8>,
    /// Byte position in the complete report, report ID included.
    pub byte_offset: usize,
    /// The bit or bit group that represents the button.
    pub bit_mask: u8,
    /// `true` when a cleared bit means pressed.
    pub active_low: bool,
}

/// The HID part of a `WM_INPUT` message: `report_count` reports of
/// `report_size` bytes each, stored back to back in `bytes`.
#[derive(Debug, PartialEq, Eq)]
pub struct HidPayload<'a> {
    pub report_size: u32,
    pub report_count: u32,
    pub bytes: &'a [u8],
}

/// The report size field of a HID payload.
pub open spec fn payload_report_size(p: Seq<u8>) -> int {
    le_u32_at(p, 0)
}

/// The report count field of a HID payload.
pub open spec fn payload_report_count(p: Seq<u8>) -> int {
    le_u32_at(p, 4)
}

/// A HID payload is accepted when its 8-byte header is present, neither
/// field is zero, the data length fits in a `u32`, and all
/// `report_size * report_count` data bytes follow the header.
pub open spec fn payload_accepted(p: Seq<u8>) -> bool {
    &&& p.len() >= 8
    &&& payload_report_size(p) != 0
    &&& payload_report_count(p) != 0
    &&& payload_report_size(p) * payload_report_count(p) <= u32::MAX
    &&& 8 + payload_report_size(p) * payload_report_count(p) <= p.len()
}

/// Splits the HID part of a raw input message into its header fields and its
/// report bytes; trailing bytes after the reports are ignored.
pub fn parse_payload(payload: &[u8]) -> (res: Option<HidPayload<'_>>)
    ensures
        res is Some <==> payload_accepted(payload@),
        res matches Some(h) ==> {
            &&& h.report_size == payload_report_size(payload@)
            &&& h.report_count == payload_report_count(payload@)
            &&& h.bytes@ == payload@.subrange(8, 8 + h.report_size * h.report_count)
        },
{
    if payload.len() < 8 {
        return None;
    }
    let report_size = read_u32_le(payload, 0);
    let report_count = read_u32_le(payload, 4);
    if report_size == 0 || report_count == 0 {
        return None;
    }
    let data_len = match report_size.checked_mul(report_count) {
        Some(n) => n as usize,
        None => return None,
    };
    if data_len > payload.len() - 8 {
        return None;
    }
    let bytes = &payload[8..8 + data_len];
    Some(HidPayload { report_size, report_count, bytes })
}

/// The definition concerns this device and this report, and the report is
/// long enough to hold the definition's byte.
pub open spec fn definition_applies(d: HidButtonDefinition, device_name: Seq<char>, report: Seq<u8>) -> bool {
    &&& str_contains(device_name, d.device_name_contains@)
    &&& match d.report_id {
        None => true,
        Some(id) => report.len() > 0 && report[0] == id,
    }
    &&& d.byte_offset < report.len()
}

/// Whether the button of an applicable definition is pressed in `report`.
pub open spec fn definition_pressed(d: HidButtonDefinition, report: Seq<u8>) -> bool {
    ((report[d.byte_offset as int] & d.bit_mask) != 0) != d.active_low
}

/// The `(name, pressed)` pairs of the applicable definitions, in definition order.
pub open spec fn decoded_buttons(
    defs: Seq<HidButtonDefinition>,
    device_name: Seq<char>,
    report: Seq<u8>,
) -> Seq<(&'static str, bool)>
    decreases defs.len(),
{
    if defs.len() == 0 {
        seq![]
    } else {
        let rest = decoded_buttons(defs.drop_last(), device_name, report);
        let d = defs.last();
        if definition_applies(d, device_name, report) {
            rest.push((d.name, definition_pressed(d, report)))
        } else {
            rest
        }
    }
}

/// Decodes the state of every defined button that applies to the given
/// device and report.
pub fn decode_buttons(
    definitions: &[HidButtonDefinition],
    device_name: &str,
    report: &[u8],
) -> (res: Vec<(&'static str, bool)>)
    ensures
        res@ == decoded_buttons(definitions@, device_name@, report@),
{
    let mut res: Vec<(&'static str, bool)> = Vec::new();
    let mut i: usize = 0;
    while i < definitions.len()
        invariant
            i <= definitions.len(),
            res@ == decoded_buttons(definitions@.take(i as int), device_name@, report@),
        decreases definitions.len() - i,
    {
        let d = definitions[i];
        assert(definitions@.take(i + 1).drop_last() =~= definitions@.take(i as int));
        assert(definitions@.take(i + 1).last() == d);
        let id_matches = match d.report_id {
            None => true,
            Some(id) => report.len() > 0 && report[0] == id,
        };
        if contains_str(device_name, d.device_name_contains) && id_matches && d.byte_offset
            < report.len() {
            let value = (report[d.byte_offset] & d.bit_mask) != 0;
            res.push((d.name, value != d.active_low));
        }
        i = i + 1;
    }
    assert(definitions@.take(i as int) =~= definitions@);
    res
}

/// Splits report data into consecutive reports of `report_size` bytes; a
/// shorter remainder is dropped, as `chunks_exact` does.
pub fn split_reports(bytes: &[u8], report_size: usize) -> (res: Vec<&[u8]>)
    requires
        report_size > 0,
    ensures
        res.len() == bytes.len() as int / report_size as int,
        forall|i: int|
            0 <= i < res.len() ==> (#[trigger] res[i])@ == bytes@.subrange(
                i * report_size,
                (i + 1) * report_size,
            ),
{
    let mut res: Vec<&[u8]> = Vec::new();
    let mut offset: usize = 0;
    assert(res.len() * report_size == 0) by (nonlinear_arith)
        requires
            res.len() == 0,
    ;
    while offset <= bytes.len() && report_size <= bytes.len() - offset
        invariant
            report_size > 0,
            offset <= bytes.len(),
            offset == res.len() * report_size,
            forall|i: int|
                0 <= i < res.len() ==> (#[trigger] res[i])@ == bytes@.subrange(
                    i * report_size,
                    (i + 1) * report_size,
                ),
        decreases bytes.len() - offset,
    {
        let chunk = &bytes[offset..offset + report_size];
        proof {
            vstd::arithmetic::mul::lemma_mul_is_distributive_add_other_way(
                report_size as int,
                res.len() as int,
                1,
            );
        }
        res.push(chunk);
        offset = offset + report_size;
    }
    proof {
        vstd::arithmetic::div_mod::lemma_fundamental_div_mod_converse(
            bytes.len() as int,
            report_size as int,
            res.len() as int,
            bytes.len() - offset,
        );
    }
    res
}

} // verus!
