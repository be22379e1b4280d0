//! What the decoders and the event step report, stated over all inputs.

use vstd::prelude::*;

use crate::bytes::le_u16_at;
use crate::hid::{decoded_buttons, definition_applies, definition_pressed, HidButtonDefinition};
use crate::keyboard::{identity_text, RawKeyboardEvent};
use crate::mouse::{
    decoded_message, decoded_raw_buttons, flagged_buttons, raw_button_table, MouseButtonEvent, WM_LBUTTONDOWN, WM_LBUTTONUP,
    WM_MBUTTONDOWN, WM_MBUTTONUP, WM_RBUTTONDOWN, WM_RBUTTONUP, WM_XBUTTONDOWN, WM_XBUTTONUP,
};
use crate::raw_input::wanted_usages;
use crate::text::occurs_at;
use crate::state::device_button_recorded;
use crate::ui::{event_applied, hid_key_text, keyboard_key_text, mouse_key_text, UiEvent, UiModel};

verus! {

/// Every button message of the low-level hook decodes to its own button and
/// direction, whatever `mouse_data` holds: the `*DOWN` messages give `down`,
/// the `*UP` messages give `up`.
pub proof fn law_hook_messages_keep_their_direction(mouse_data: u32)
    ensures
        decoded_message(WM_LBUTTONDOWN, mouse_data) == Some(
            MouseButtonEvent { button: "left", action: "down" },
        ),
        decoded_message(WM_LBUTTONUP, mouse_data) == Some(
            MouseButtonEvent { button: "left", action: "up" },
        ),
        decoded_message(WM_RBUTTONDOWN, mouse_data) == Some(
            MouseButtonEvent { button: "right", action: "down" },
        ),
        decoded_message(WM_RBUTTONUP, mouse_data) == Some(
            MouseButtonEvent { button: "right", action: "up" },
        ),
        decoded_message(WM_MBUTTONDOWN, mouse_data) == Some(
            MouseButtonEvent { button: "middle", action: "down" },
        ),
        decoded_message(WM_MBUTTONUP, mouse_data) == Some(
            MouseButtonEvent { button: "middle", action: "up" },
        ),
        decoded_message(WM_XBUTTONDOWN, mouse_data) matches Some(e) && e.action == "down",
        decoded_message(WM_XBUTTONUP, mouse_data) matches Some(e) && e.action == "up",
        mouse_data >> 16u32 == 1 ==> decoded_message(WM_XBUTTONDOWN, mouse_data) == Some(
            MouseButtonEvent { button: "x1", action: "down" },
        ),
        mouse_data >> 16u32 == 1 ==> decoded_message(WM_XBUTTONUP, mouse_data) == Some(
            MouseButtonEvent { button: "x1", action: "up" },
        ),
        mouse_data >> 16u32 == 2 ==> decoded_message(WM_XBUTTONDOWN, mouse_data) == Some(
            MouseButtonEvent { button: "x2", action: "down" },
        ),
        mouse_data >> 16u32 == 2 ==> decoded_message(WM_XBUTTONUP, mouse_data) == Some(
            MouseButtonEvent { button: "x2", action: "up" },
        ),
{
}

/// The flag word of a `RAWMOUSE` payload.
pub open spec fn raw_flags(p: Seq<u8>) -> int {
    le_u16_at(p, 4)
}

/// One of the ten button bits of `usButtonFlags`.
pub open spec fn is_button_bit(m: u16) -> bool {
    m == 0x0001u16 || m == 0x0002u16 || m == 0x0004u16 || m == 0x0008u16 || m == 0x0010u16
        || m == 0x0020u16 || m == 0x0040u16 || m == 0x0080u16 || m == 0x0100u16 || m == 0x0200u16
}

proof fn lemma_button_bits_apart(f: u16, m: u16)
    by (bit_vector)
    requires
        f == 0 || f == 0x0001u16 || f == 0x0002u16 || f == 0x0004u16 || f == 0x0008u16 || f
            == 0x0010u16 || f == 0x0020u16 || f == 0x0040u16 || f == 0x0080u16 || f == 0x0100u16
            || f == 0x0200u16,
        m == 0x0001u16 || m == 0x0002u16 || m == 0x0004u16 || m == 0x0008u16 || m == 0x0010u16
            || m == 0x0020u16 || m == 0x0040u16 || m == 0x0080u16 || m == 0x0100u16 || m
            == 0x0200u16,
    ensures
        (f & m != 0) <==> f == m,
{
}

proof fn lemma_table_bits()
    ensures
        raw_button_table().len() == 10,
        forall|j: int| 0 <= j < 10 ==> is_button_bit(#[trigger] raw_button_table()[j].0),
        forall|i: int, j: int|
            0 <= i < 10 && 0 <= j < 10 && i != j ==> #[trigger] raw_button_table()[i].0
                != #[trigger] raw_button_table()[j].0,
{
    let t = raw_button_table();
    assert(t[0].0 == 0x0001u16);
    assert(t[1].0 == 0x0002u16);
    assert(t[2].0 == 0x0004u16);
    assert(t[3].0 == 0x0008u16);
    assert(t[4].0 == 0x0010u16);
    assert(t[5].0 == 0x0020u16);
    assert(t[6].0 == 0x0040u16);
    assert(t[7].0 == 0x0080u16);
    assert(t[8].0 == 0x0100u16);
    assert(t[9].0 == 0x0200u16);
}

proof fn lemma_flagged_none(table: Seq<(u16, MouseButtonEvent)>, flags: u16)
    requires
        forall|j: int| 0 <= j < table.len() ==> flags & (#[trigger] table[j]).0 == 0,
    ensures
        flagged_buttons(table, flags) == Seq::<MouseButtonEvent>::empty(),
    decreases table.len(),
{
    if table.len() > 0 {
        assert forall|j: int| 0 <= j < table.drop_last().len() implies flags & (
        #[trigger] table.drop_last()[j]).0 == 0 by {
            assert(table.drop_last()[j] == table[j]);
        }
        lemma_flagged_none(table.drop_last(), flags);
        assert(flags & table[table.len() - 1].0 == 0);
    }
}

proof fn lemma_flagged_one(table: Seq<(u16, MouseButtonEvent)>, flags: u16, k: int)
    requires
        0 <= k < table.len(),
        flags & table[k].0 != 0,
        forall|j: int| 0 <= j < table.len() && j != k ==> flags & (#[trigger] table[j]).0 == 0,
    ensures
        flagged_buttons(table, flags) == seq![table[k].1],
    decreases table.len(),
{
    let t = table.drop_last();
    if k == table.len() - 1 {
        assert forall|j: int| 0 <= j < t.len() implies flags & (#[trigger] t[j]).0 == 0 by {
            assert(t[j] == table[j]);
        }
        lemma_flagged_none(t, flags);
        assert(Seq::<MouseButtonEvent>::empty().push(table[k].1) =~= seq![table[k].1]);
    } else {
        assert forall|j: int| 0 <= j < t.len() && j != k implies flags & (#[trigger] t[j]).0
            == 0 by {
            assert(t[j] == table[j]);
        }
        assert(t[k] == table[k]);
        lemma_flagged_one(t, flags, k);
        assert(flags & table[table.len() - 1].0 == 0);
    }
}

proof fn lemma_single_flag(f: u16, k: int)
    requires
        0 <= k < 10,
        f == raw_button_table()[k].0,
    ensures
        flagged_buttons(raw_button_table(), f) == seq![raw_button_table()[k].1],
{
    lemma_table_bits();
    let t = raw_button_table();
    assert forall|j: int| 0 <= j < t.len() && j != k implies f & (#[trigger] t[j]).0 == 0 by {
        lemma_button_bits_apart(f, t[j].0);
    }
    lemma_button_bits_apart(f, f);
    lemma_flagged_one(t, f, k);
}

proof fn lemma_button_bit_pairs(f: u16, a: u16, b: u16, m: u16)
    by (bit_vector)
    requires
        a == 0x0001u16 || a == 0x0002u16 || a == 0x0004u16 || a == 0x0008u16 || a == 0x0010u16
            || a == 0x0020u16 || a == 0x0040u16 || a == 0x0080u16 || a == 0x0100u16 || a
            == 0x0200u16,
        b == 0x0001u16 || b == 0x0002u16 || b == 0x0004u16 || b == 0x0008u16 || b == 0x0010u16
            || b == 0x0020u16 || b == 0x0040u16 || b == 0x0080u16 || b == 0x0100u16 || b
            == 0x0200u16,
        m == 0x0001u16 || m == 0x0002u16 || m == 0x0004u16 || m == 0x0008u16 || m == 0x0010u16
            || m == 0x0020u16 || m == 0x0040u16 || m == 0x0080u16 || m == 0x0100u16 || m
            == 0x0200u16,
        a != b,
        f == a + b,
    ensures
        (f & m != 0) <==> (m == a || m == b),
{
}

proof fn lemma_flagged_two(table: Seq<(u16, MouseButtonEvent)>, flags: u16, k1: int, k2: int)
    requires
        0 <= k1 < k2 < table.len(),
        flags & table[k1].0 != 0,
        flags & table[k2].0 != 0,
        forall|j: int|
            0 <= j < table.len() && j != k1 && j != k2 ==> flags & (#[trigger] table[j]).0 == 0,
    ensures
        flagged_buttons(table, flags) == seq![table[k1].1, table[k2].1],
    decreases table.len(),
{
    let t = table.drop_last();
    assert(t[k1] == table[k1]);
    if k2 == table.len() - 1 {
        assert forall|j: int| 0 <= j < t.len() && j != k1 implies flags & (#[trigger] t[j]).0
            == 0 by {
            assert(t[j] == table[j]);
        }
        lemma_flagged_one(t, flags, k1);
        assert(seq![table[k1].1].push(table[k2].1) =~= seq![table[k1].1, table[k2].1]);
    } else {
        assert forall|j: int| 0 <= j < t.len() && j != k1 && j != k2 implies flags & (
        #[trigger] t[j]).0 == 0 by {
            assert(t[j] == table[j]);
        }
        assert(t[k2] == table[k2]);
        lemma_flagged_two(t, flags, k1, k2);
        assert(flags & table[table.len() - 1].0 == 0);
    }
}

/// When two button bits change in one `RAWMOUSE` report, both transitions
/// are reported, the one of the lower bit first.
pub proof fn law_two_raw_buttons_in_bit_order(p: Seq<u8>, i: int, j: int)
    requires
        p.len() >= 6,
        0 <= i < j < 10,
        raw_flags(p) == raw_button_table()[i].0 + raw_button_table()[j].0,
    ensures
        raw_button_table()[i].0 < raw_button_table()[j].0,
        decoded_raw_buttons(p) == seq![raw_button_table()[i].1, raw_button_table()[j].1],
{
    let t = raw_button_table();
    lemma_table_bits();
    assert(t[0].0 == 0x0001u16 && t[1].0 == 0x0002u16 && t[2].0 == 0x0004u16 && t[3].0
        == 0x0008u16 && t[4].0 == 0x0010u16 && t[5].0 == 0x0020u16 && t[6].0 == 0x0040u16
        && t[7].0 == 0x0080u16 && t[8].0 == 0x0100u16 && t[9].0 == 0x0200u16);
    let f = le_u16_at(p, 4) as u16;
    assert forall|k: int| 0 <= k < t.len() && k != i && k != j implies f & (#[trigger] t[k]).0
        == 0 by {
        lemma_button_bit_pairs(f, t[i].0, t[j].0, t[k].0);
    }
    lemma_button_bit_pairs(f, t[i].0, t[j].0, t[i].0);
    lemma_button_bit_pairs(f, t[i].0, t[j].0, t[j].0);
    lemma_flagged_two(t, f, i, j);
}

/// A `RAWMOUSE` payload whose flag word holds one button bit decodes to
/// exactly that bit's Windows meaning, and one without button bits decodes
/// to nothing.
pub proof fn law_raw_button_bits_keep_their_meaning(p: Seq<u8>)
    requires
        p.len() >= 6,
    ensures
        raw_flags(p) == 0x0001 ==> decoded_raw_buttons(p) == seq![
            MouseButtonEvent { button: "left", action: "down" },
        ],
        raw_flags(p) == 0x0002 ==> decoded_raw_buttons(p) == seq![
            MouseButtonEvent { button: "left", action: "up" },
        ],
        raw_flags(p) == 0x0004 ==> decoded_raw_buttons(p) == seq![
            MouseButtonEvent { button: "right", action: "down" },
        ],
        raw_flags(p) == 0x0008 ==> decoded_raw_buttons(p) == seq![
            MouseButtonEvent { button: "right", action: "up" },
        ],
        raw_flags(p) == 0x0010 ==> decoded_raw_buttons(p) == seq![
            MouseButtonEvent { button: "middle", action: "down" },
        ],
        raw_flags(p) == 0x0020 ==> decoded_raw_buttons(p) == seq![
            MouseButtonEvent { button: "middle", action: "up" },
        ],
        raw_flags(p) == 0x0040 ==> decoded_raw_buttons(p) == seq![
            MouseButtonEvent { button: "x1", action: "down" },
        ],
        raw_flags(p) == 0x0080 ==> decoded_raw_buttons(p) == seq![
            MouseButtonEvent { button: "x1", action: "up" },
        ],
        raw_flags(p) == 0x0100 ==> decoded_raw_buttons(p) == seq![
            MouseButtonEvent { button: "x2", action: "down" },
        ],
        raw_flags(p) == 0x0200 ==> decoded_raw_buttons(p) == seq![
            MouseButtonEvent { button: "x2", action: "up" },
        ],
        raw_flags(p) == 0 ==> decoded_raw_buttons(p) == Seq::<MouseButtonEvent>::empty(),
{
    let f = le_u16_at(p, 4) as u16;
    let t = raw_button_table();
    lemma_table_bits();
    if raw_flags(p) == 0 {
        assert forall|j: int| 0 <= j < t.len() implies f & (#[trigger] t[j]).0 == 0 by {
            lemma_button_bits_apart(f, t[j].0);
        }
        lemma_flagged_none(t, f);
    }
    assert forall|j: int| 0 <= j < 10 && raw_flags(p) == (#[trigger] t[j]).0 implies decoded_raw_buttons(
        p,
    ) == seq![t[j].1] by {
        lemma_single_flag(f, j);
    }
    assert(t[0] == (0x0001u16, MouseButtonEvent { button: "left", action: "down" }));
    assert(t[1] == (0x0002u16, MouseButtonEvent { button: "left", action: "up" }));
    assert(t[2] == (0x0004u16, MouseButtonEvent { button: "right", action: "down" }));
    assert(t[3] == (0x0008u16, MouseButtonEvent { button: "right", action: "up" }));
    assert(t[4] == (0x0010u16, MouseButtonEvent { button: "middle", action: "down" }));
    assert(t[5] == (0x0020u16, MouseButtonEvent { button: "middle", action: "up" }));
    assert(t[6] == (0x0040u16, MouseButtonEvent { button: "x1", action: "down" }));
    assert(t[7] == (0x0080u16, MouseButtonEvent { button: "x1", action: "up" }));
    assert(t[8] == (0x0100u16, MouseButtonEvent { button: "x2", action: "down" }));
    assert(t[9] == (0x0200u16, MouseButtonEvent { button: "x2", action: "up" }));
}

/// Registration covers the mice and every collection that an attached HID
/// device reports with a non-zero page and usage, whatever its page (vendor
/// pages included), except the keyboard collection; nothing else is
/// registered.
pub proof fn law_every_reported_collection_is_registered(
    hid_usages: Seq<(u16, u16)>,
    p: (u16, u16),
)
    ensures
        wanted_usages(hid_usages).contains((0x0001u16, 0x0002u16)),
        !wanted_usages(hid_usages).contains((0x0001u16, 0x0006u16)),
        hid_usages.contains(p) && p.0 != 0 && p.1 != 0 && p != (0x0001u16, 0x0006u16)
            ==> wanted_usages(hid_usages).contains(p),
        wanted_usages(hid_usages).contains(p) ==> p == (0x0001u16, 0x0002u16) || (
        hid_usages.contains(p) && p.0 != 0 && p.1 != 0),
{
}

/// Each definition is judged on its own: the buttons decoded with the
/// definitions `a` followed by `b` are those decoded with `a`, followed by
/// those decoded with `b`.
pub proof fn law_definitions_are_judged_one_by_one(
    a: Seq<HidButtonDefinition>,
    b: Seq<HidButtonDefinition>,
    device_name: Seq<char>,
    report: Seq<u8>,
)
    ensures
        decoded_buttons(a + b, device_name, report) == decoded_buttons(a, device_name, report)
            + decoded_buttons(b, device_name, report),
    decreases b.len(),
{
    if b.len() == 0 {
        assert(a + b =~= a);
        assert(decoded_buttons(b, device_name, report) =~= Seq::<(&'static str, bool)>::empty());
        assert(decoded_buttons(a, device_name, report) + decoded_buttons(b, device_name, report)
            =~= decoded_buttons(a, device_name, report));
    } else {
        assert((a + b).drop_last() =~= a + b.drop_last());
        assert((a + b).last() == b.last());
        law_definitions_are_judged_one_by_one(a, b.drop_last(), device_name, report);
        let x = decoded_buttons(a, device_name, report);
        let y = decoded_buttons(b.drop_last(), device_name, report);
        let d = b.last();
        if definition_applies(d, device_name, report) {
            assert((x + y).push((d.name, definition_pressed(d, report))) =~= x + y.push(
                (d.name, definition_pressed(d, report)),
            ));
        }
    }
}

/// A definition whose device text occurs in the device name at `at`, whose
/// report ID (if any) is the report's first byte and whose byte lies inside
/// the report yields its name and whether its bits read as pressed; a
/// definition for another device, another report ID or a byte past the end
/// of the report yields nothing.
pub proof fn law_one_definition(
    d: HidButtonDefinition,
    device_name: Seq<char>,
    report: Seq<u8>,
    at: int,
)
    ensures
        ({
            &&& 0 <= at
            &&& at + d.device_name_contains@.len() <= device_name.len()
            &&& device_name.subrange(at, at + d.device_name_contains@.len())
                == d.device_name_contains@
            &&& d.report_id matches Some(id) ==> report.len() > 0 && report[0] == id
            &&& d.byte_offset < report.len()
        }) ==> decoded_buttons(seq![d], device_name, report) == seq![
            (d.name, ((report[d.byte_offset as int] & d.bit_mask) != 0) != d.active_low),
        ],
        (forall|i: int| !#[trigger] occurs_at(device_name, d.device_name_contains@, i))
            ==> decoded_buttons(seq![d], device_name, report)
            == Seq::<(&'static str, bool)>::empty(),
        d.report_id matches Some(id) && (report.len() == 0 || report[0] != id) ==> decoded_buttons(
            seq![d],
            device_name,
            report,
        ) == Seq::<(&'static str, bool)>::empty(),
        d.byte_offset >= report.len() ==> decoded_buttons(seq![d], device_name, report)
            == Seq::<(&'static str, bool)>::empty(),
{
    let s = seq![d];
    assert(s.drop_last() =~= Seq::<HidButtonDefinition>::empty());
    assert(s.last() == d);
    if 0 <= at && at + d.device_name_contains@.len() <= device_name.len()
        && device_name.subrange(at, at + d.device_name_contains@.len()) == d.device_name_contains@ {
        assert(occurs_at(device_name, d.device_name_contains@, at));
    }
    assert(decoded_buttons(s.drop_last(), device_name, report) =~= Seq::<
        (&'static str, bool),
    >::empty());
    assert(Seq::<(&'static str, bool)>::empty().push(
        (d.name, definition_pressed(d, report)),
    ) =~= seq![(d.name, definition_pressed(d, report))]);
    match d.report_id {
        Some(id) => {
            if report.len() == 0 || report[0] != id {
                assert(!definition_applies(d, device_name, report));
            }
        },
        None => {},
    }
}

/// A keyboard event records its own press state: a press holds its key
/// down window-wide and on the keyboard's row and names the key as the last
/// button; a release lets the key go and leaves the last button alone.
pub proof fn law_keyboard_event_records_its_press_state(
    before: UiModel,
    after: UiModel,
    device: usize,
    key: RawKeyboardEvent,
    name: String,
)
    requires
        event_applied(before, after, UiEvent::Keyboard { device, key, name }),
    ensures
        key.pressed ==> after.state.pressed_keys() == before.state.pressed_keys().insert(
            keyboard_key_text(device, key),
        ),
        !key.pressed ==> after.state.pressed_keys() == before.state.pressed_keys().remove(
            keyboard_key_text(device, key),
        ),
        key.pressed ==> after.state.last_button@ == name@,
        !key.pressed ==> after.state.last_button@ == before.state.last_button@,
        device_button_recorded(
            before.state.devices@,
            after.state.devices@,
            device,
            identity_text(key),
            key.pressed,
        ),
{
}

/// Pressing a key and then releasing it (the release may carry other flags,
/// but names the same key) leaves the held-down inputs as they were; the
/// key is held down in between, and the pressed key stays the last button.
pub proof fn law_key_release_undoes_press(
    m0: UiModel,
    m1: UiModel,
    m2: UiModel,
    device: usize,
    press: RawKeyboardEvent,
    release: RawKeyboardEvent,
    press_name: String,
    release_name: String,
)
    requires
        press.pressed,
        !release.pressed,
        identity_text(press) == identity_text(release),
        !m0.state.pressed_keys().contains(keyboard_key_text(device, press)),
        event_applied(m0, m1, UiEvent::Keyboard { device, key: press, name: press_name }),
        event_applied(m1, m2, UiEvent::Keyboard { device, key: release, name: release_name }),
    ensures
        m1.state.pressed_keys().contains(keyboard_key_text(device, press)),
        m2.state.pressed_keys() == m0.state.pressed_keys(),
        m2.state.last_button@ == press_name@,
{
    law_keyboard_event_records_its_press_state(m0, m1, device, press, press_name);
    law_keyboard_event_records_its_press_state(m1, m2, device, release, release_name);
    assert(keyboard_key_text(device, press) == keyboard_key_text(device, release));
    assert(m0.state.pressed_keys().insert(keyboard_key_text(device, press)).remove(
        keyboard_key_text(device, press),
    ) =~= m0.state.pressed_keys());
}

/// A hook button event with action `down` holds its `mouse:` key down and
/// names the button as the last one; one with action `up` lets the key go
/// and leaves the last button alone; no device row changes.
pub proof fn law_mouse_event_follows_its_action(
    before: UiModel,
    after: UiModel,
    event: MouseButtonEvent,
)
    requires
        event_applied(before, after, UiEvent::Mouse(event)),
    ensures
        event.action@ == "down"@ ==> after.state.pressed_keys() == before.state.pressed_keys().insert(
            mouse_key_text(event.button@),
        ),
        event.action@ == "down"@ ==> after.state.last_button@ == event.button@,
        event.action@ == "up"@ ==> after.state.pressed_keys() == before.state.pressed_keys().remove(
            mouse_key_text(event.button@),
        ),
        event.action@ == "up"@ ==> after.state.last_button@ == before.state.last_button@,
        after.state.devices == before.state.devices,
{
    reveal_strlit("down");
    reveal_strlit("up");
    assert("up"@.len() == 2 && "down"@.len() == 4);
}

/// A Raw Input mouse button changes only its device row, and a named HID
/// button changes both its `hid:` key and its device row, each in the
/// direction the event carries.
pub proof fn law_device_events_follow_their_direction(
    before: UiModel,
    after: UiModel,
    device: usize,
    button: &'static str,
    pressed: bool,
    hid: bool,
)
    requires
        event_applied(
            before,
            after,
            if hid {
                UiEvent::HidButton { device, button, pressed }
            } else {
                UiEvent::DeviceButton { device, button, pressed }
            },
        ),
    ensures
        device_button_recorded(
            before.state.devices@,
            after.state.devices@,
            device,
            button@,
            pressed,
        ),
        !hid ==> after.state.pressed_keys() == before.state.pressed_keys(),
        !hid ==> after.state.last_button == before.state.last_button,
        hid && pressed ==> after.state.pressed_keys() == before.state.pressed_keys().insert(
            hid_key_text(device, button@),
        ),
        hid && pressed ==> after.state.last_button@ == button@,
        hid && !pressed ==> after.state.pressed_keys() == before.state.pressed_keys().remove(
            hid_key_text(device, button@),
        ),
        hid && !pressed ==> after.state.last_button@ == before.state.last_button@,
{
}

} // verus!
