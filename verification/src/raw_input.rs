//! Raw Input messages: sorting a message out by device type, the usage
//! classes to register for, device labels, and the edge filter for
//! vendor-defined HID buttons.

use vstd::prelude::*;

use crate::bytes::{le_u32_at, read_u32_le};
use crate::hid::{
    decode_buttons, decoded_buttons, parse_payload, payload_accepted, payload_report_count,
    payload_report_size, HidButtonDefinition, HidPayload,
};
use crate::keyboard::{decode, decoded_keyboard, RawKeyboardEvent};
use crate::keyed::{
    has_key, keys_unique, lemma_pairs_map_push, lemma_pairs_map_remove, lemma_pairs_map_value,
    pairs_map,
};
use crate::mouse::{decode_raw_buttons, decoded_raw_buttons, MouseButtonEvent};
use crate::text::{hex_padded, push_char, push_hex};

verus! {

pub const RIM_TYPEMOUSE: u32 = 0;
pub const RIM_TYPEKEYBOARD: u32 = 1;
pub const RIM_TYPEHID: u32 = 2;

/// What one Raw Input message reports.
#[derive(Debug, PartialEq, Eq)]
pub enum RawInputEvent<'a> {
    /// Button transitions of a mouse (possibly none).
    MouseButtons(Vec<MouseButtonEvent>),
    /// A key transition of a keyboard.
    Keyboard(RawKeyboardEvent),
    /// Reports of another HID device.
    Hid(HidPayload<'a>),
    /// Nothing to report.
    Ignored,
}

/// Sorts out a Raw Input message of `header_size` header bytes followed by
/// the device-type specific part; the device type is the `dwType` field
/// that opens the header.
pub fn decode_raw_input(buffer: &[u8], header_size: usize) -> (res: RawInputEvent<'_>)
    ensures
        (header_size < 4 || buffer.len() < header_size) ==> res == RawInputEvent::Ignored,
        (header_size >= 4 && buffer.len() >= header_size) ==> {
            let kind = le_u32_at(buffer@, 0);
            let body = buffer@.subrange(header_size as int, buffer@.len() as int);
            &&& kind == RIM_TYPEMOUSE ==> (res matches RawInputEvent::MouseButtons(events)
                && events@ == decoded_raw_buttons(body))
            &&& kind == RIM_TYPEKEYBOARD ==> match decoded_keyboard(body) {
                Some(key) => res == RawInputEvent::Keyboard(key),
                None => res == RawInputEvent::Ignored,
            }
            &&& kind == RIM_TYPEHID ==> if payload_accepted(body) {
                (res matches RawInputEvent::Hid(h) && h.report_size == payload_report_size(body)
                    && h.report_count == payload_report_count(body) && h.bytes@ == body.subrange(
                    8,
                    8 + h.report_size * h.report_count,
                ))
            } else {
                res == RawInputEvent::Ignored
            }
            &&& (kind != RIM_TYPEMOUSE && kind != RIM_TYPEKEYBOARD && kind != RIM_TYPEHID)
                ==> res == RawInputEvent::Ignored
        },
{
    if header_size < 4 || buffer.len() < header_size {
        return RawInputEvent::Ignored;
    }
    let kind = read_u32_le(buffer, 0);
    let body = &buffer[header_size..buffer.len()];
    if kind == RIM_TYPEMOUSE {
        RawInputEvent::MouseButtons(decode_raw_buttons(body))
    } else if kind == RIM_TYPEKEYBOARD {
        match decode(body) {
            Some(key) => RawInputEvent::Keyboard(key),
            None => RawInputEvent::Ignored,
        }
    } else if kind == RIM_TYPEHID {
        match parse_payload(body) {
            Some(payload) => RawInputEvent::Hid(payload),
            None => RawInputEvent::Ignored,
        }
    } else {
        RawInputEvent::Ignored
    }
}

/// `a` comes before `b` in (usage page, usage) order.
pub open spec fn usage_lt(a: (u16, u16), b: (u16, u16)) -> bool {
    a.0 < b.0 || (a.0 == b.0 && a.1 < b.1)
}

/// The usages are in strictly increasing order, so none occurs twice.
pub open spec fn strictly_sorted(s: Seq<(u16, u16)>) -> bool {
    forall|i: int, j: int| 0 <= i < j < s.len() ==> usage_lt(#[trigger] s[i], #[trigger] s[j])
}

/// The generic-desktop keyboard collection (0x01:0x06), which is never
/// registered: keystrokes are not captured.
pub open spec fn is_keyboard_usage(p: (u16, u16)) -> bool {
    p == (1u16, 6u16)
}

/// The usage classes to register: generic-desktop mice (0x01:0x02) and every
/// reported HID usage whose page and usage are both non-zero, except the
/// keyboard collection.
pub open spec fn wanted_usages(hid_usages: Seq<(u16, u16)>) -> Set<(u16, u16)> {
    Set::new(
        |p: (u16, u16)|
            p == (1u16, 2u16) || (p.0 != 0 && p.1 != 0 && !is_keyboard_usage(p)
                && hid_usages.contains(p)),
    )
}

fn insert_usage(v: &mut Vec<(u16, u16)>, x: (u16, u16))
    requires
        strictly_sorted(old(v)@),
    ensures
        strictly_sorted(final(v)@),
        final(v)@.to_set() == old(v)@.to_set().insert(x),
{
    let mut i: usize = 0;
    while i < v.len() && (v[i].0 < x.0 || (v[i].0 == x.0 && v[i].1 < x.1))
        invariant
            i <= v.len(),
            forall|j: int| 0 <= j < i ==> usage_lt(#[trigger] v@[j], x),
        decreases v.len() - i,
    {
        i = i + 1;
    }
    if i < v.len() && v[i].0 == x.0 && v[i].1 == x.1 {
        assert(v@[i as int] == x);
        assert(v@.to_set() =~= v@.to_set().insert(x));
        return;
    }
    let ghost before = v@;
    v.insert(i, x);
    assert forall|a: int, b: int| 0 <= a < b < v@.len() implies usage_lt(
        #[trigger] v@[a],
        #[trigger] v@[b],
    ) by {
        if b < i {
        } else if b == i {
        } else if a < i {
            assert(v@[b] == before[b - 1]);
            if b - 1 > i {
                assert(usage_lt(before[i as int], before[b - 1]));
            }
        } else if a == i {
            assert(v@[b] == before[b - 1]);
            if b - 1 > i {
                assert(usage_lt(before[i as int], before[b - 1]));
            }
        } else {
            assert(v@[a] == before[a - 1]);
            assert(v@[b] == before[b - 1]);
        }
    }
    assert forall|p: (u16, u16)| #[trigger] v@.to_set().contains(p) == before.to_set().insert(
        x,
    ).contains(p) by {
        if before.to_set().contains(p) {
            let j = choose|j: int| 0 <= j < before.len() && before[j] == p;
            if j < i {
                assert(v@[j] == p);
            } else {
                assert(v@[j + 1] == p);
            }
        }
        if p == x {
            assert(v@[i as int] == x);
        }
        if v@.to_set().contains(p) {
            let j = choose|j: int| 0 <= j < v@.len() && v@[j] == p;
            if j < i {
                assert(before[j] == p);
            } else if j > i {
                assert(before[j - 1] == p);
            }
        }
    }
    assert(v@.to_set() =~= before.to_set().insert(x));
}

/// The usage classes to register for, in increasing order, given the
/// (usage page, usage) pairs that the attached HID devices report; the
/// keyboard collection is left out.
pub fn raw_input_usages(hid_usages: &[(u16, u16)]) -> (res: Vec<(u16, u16)>)
    ensures
        strictly_sorted(res@),
        res@.to_set() == wanted_usages(hid_usages@),
{
    let mut res: Vec<(u16, u16)> = Vec::new();
    res.push((1u16, 2u16));
    assert(res@.to_set() =~= set![(1u16, 2u16)]) by {
        assert(res@[0] == (1u16, 2u16));
    }
    let mut i: usize = 0;
    while i < hid_usages.len()
        invariant
            i <= hid_usages.len(),
            strictly_sorted(res@),
            res@.to_set() == Set::new(
                |p: (u16, u16)|
                    p == (1u16, 2u16) || (p.0 != 0 && p.1 != 0 && !is_keyboard_usage(p)
                        && hid_usages@.take(i as int).contains(p)),
            ),
        decreases hid_usages.len() - i,
    {
        let u = hid_usages[i];
        let ghost before = res@.to_set();
        if u.0 != 0 && u.1 != 0 && !(u.0 == 1 && u.1 == 6) {
            insert_usage(&mut res, u);
        }
        let ghost t0 = hid_usages@.take(i as int);
        let ghost t1 = hid_usages@.take(i + 1);
        assert forall|p: (u16, u16)| #[trigger] t1.contains(p) == (t0.contains(p) || p == u) by {
            if t1.contains(p) {
                let j = choose|j: int| 0 <= j < t1.len() && t1[j] == p;
                if j < i {
                    assert(t0[j] == p);
                }
            }
            if t0.contains(p) {
                let j = choose|j: int| 0 <= j < t0.len() && t0[j] == p;
                assert(t1[j] == p);
            }
            if p == u {
                assert(t1[i as int] == p);
            }
        }
        i = i + 1;
        assert(res@.to_set() =~= Set::new(
            |p: (u16, u16)|
                p == (1u16, 2u16) || (p.0 != 0 && p.1 != 0 && !is_keyboard_usage(p)
                    && hid_usages@.take(i as int).contains(p)),
        ));
    }
    assert(hid_usages@.take(i as int) =~= hid_usages@);
    assert(res@.to_set() =~= wanted_usages(hid_usages@));
    res
}

/// The word that names a Raw Input device type.
pub open spec fn kind_label_text(kind: u32) -> Seq<char> {
    if kind == RIM_TYPEMOUSE {
        "Mouse"@
    } else if kind == RIM_TYPEKEYBOARD {
        "Keyboard"@
    } else if kind == RIM_TYPEHID {
        "HID"@
    } else {
        "Input device"@
    }
}

/// The word that names a Raw Input device type.
pub fn device_kind_label(kind: u32) -> (res: &'static str)
    ensures
        res@ == kind_label_text(kind),
{
    if kind == RIM_TYPEMOUSE {
        "Mouse"
    } else if kind == RIM_TYPEKEYBOARD {
        "Keyboard"
    } else if kind == RIM_TYPEHID {
        "HID"
    } else {
        "Input device"
    }
}

/// The label of a device row: the type word, two spaces, and the device
/// name, or `device 0x` and the handle in lower-case hex when the name is
/// unknown.
pub open spec fn device_row_label_text(kind: u32, name: Option<Seq<char>>, handle: usize) -> Seq<
    char,
> {
    kind_label_text(kind) + seq![' ', ' '] + match name {
        Some(n) => n,
        None => "device 0x"@ + hex_padded(handle as nat, 1, false),
    }
}

/// The label of a device row.
pub fn device_row_label(kind: u32, name: Option<&str>, handle: usize) -> (res: String)
    ensures
        res@ == device_row_label_text(
            kind,
            match name {
                Some(n) => Some(n@),
                None => None,
            },
            handle,
        ),
{
    let mut s = String::new();
    s.append(device_kind_label(kind));
    push_char(&mut s, ' ');
    push_char(&mut s, ' ');
    match name {
        Some(n) => s.append(n),
        None => {
            s.append("device 0x");
            push_hex(&mut s, handle as u64, 1, false);
        },
    }
    assert(s@ =~= device_row_label_text(
        kind,
        match name {
            Some(n) => Some(n@),
            None => None,
        },
        handle,
    ));
    s
}

/// Report bytes as two lower-case hex digits each, separated by spaces.
pub open spec fn hex_dump(s: Seq<u8>) -> Seq<char>
    decreases s.len(),
{
    if s.len() == 0 {
        seq![]
    } else if s.len() == 1 {
        hex_padded(s[0] as nat, 2, false)
    } else {
        hex_dump(s.drop_last()) + seq![' '] + hex_padded(s.last() as nat, 2, false)
    }
}

/// Report bytes as two lower-case hex digits each, separated by spaces.
pub fn hex_bytes(bytes: &[u8]) -> (res: String)
    ensures
        res@ == hex_dump(bytes@),
{
    let mut s = String::new();
    let mut i: usize = 0;
    while i < bytes.len()
        invariant
            i <= bytes.len(),
            s@ == hex_dump(bytes@.take(i as int)),
        decreases bytes.len() - i,
    {
        if i > 0 {
            push_char(&mut s, ' ');
        }
        push_hex(&mut s, bytes[i] as u64, 2, false);
        assert(bytes@.take(i + 1).drop_last() =~= bytes@.take(i as int));
        i = i + 1;
    }
    assert(bytes@.take(i as int) =~= bytes@);
    s
}

/// Whether a newly observed button state is a transition worth reporting:
/// a change from the previous state, or a first observation that is a press.
pub open spec fn is_transition(previous: Option<bool>, pressed: bool) -> bool {
    match previous {
        Some(p) => p != pressed,
        None => pressed,
    }
}

/// The last state observed for a button, if any.
pub open spec fn previous_state(m: Map<(usize, Seq<char>), bool>, key: (usize, Seq<char>)) -> Option<
    bool,
> {
    if m.dom().contains(key) {
        Some(m[key])
    } else {
        None
    }
}

/// The states and the transitions that a run of observations of one device
/// leaves, starting from the states `m`.
pub open spec fn apply_observations(
    m: Map<(usize, Seq<char>), bool>,
    device: usize,
    obs: Seq<(&'static str, bool)>,
) -> (Map<(usize, Seq<char>), bool>, Seq<(&'static str, bool)>)
    decreases obs.len(),
{
    if obs.len() == 0 {
        (m, seq![])
    } else {
        let (m1, out) = apply_observations(m, device, obs.drop_last());
        let (button, pressed) = obs.last();
        let key = (device, button@);
        (
            m1.insert(key, pressed),
            if is_transition(previous_state(m1, key), pressed) {
                out.push((button, pressed))
            } else {
                out
            },
        )
    }
}

fn find_state(states: &Vec<((usize, String), bool)>, device: usize, name: &String) -> (res:
    Option<usize>)
    ensures
        match res {
            Some(i) => i < states.len() && states@[i as int].0@ == (device, name@),
            None => !has_key(states@, (device, name@)),
        },
{
    let mut i: usize = 0;
    while i < states.len()
        invariant
            i <= states.len(),
            forall|j: int| 0 <= j < i ==> (#[trigger] states@[j]).0@ != (device, name@),
        decreases states.len() - i,
    {
        let same_device = states[i].0.0 == device;
        let same_name = states[i].0.1 == *name;
        assert(states@[i as int].0@ == (states@[i as int].0.0, states@[i as int].0.1@));
        if same_device && same_name {
            return Some(i);
        }
        i = i + 1;
    }
    None
}

/// The last known state of every named HID button, so that only
/// transitions are reported.
#[derive(Debug)]
pub struct ButtonTracker {
    states: Vec<((usize, String), bool)>,
}

impl View for ButtonTracker {
    type V = Map<(usize, Seq<char>), bool>;

    closed spec fn view(&self) -> Map<(usize, Seq<char>), bool> {
        pairs_map(self.states@)
    }
}

impl ButtonTracker {
    #[verifier::type_invariant]
    spec fn keys_are_unique(self) -> bool {
        keys_unique(self.states@)
    }

    /// A tracker that has seen no button.
    pub fn new() -> (res: Self)
        ensures
            res@ == Map::<(usize, Seq<char>), bool>::empty(),
    {
        let res = ButtonTracker { states: Vec::new() };
        assert(pairs_map(res.states@) =~= Map::<(usize, Seq<char>), bool>::empty());
        res
    }

    /// Records the state of `button` on `device`; the result says whether
    /// the state is a transition to report.
    pub fn observe(&mut self, device: usize, button: &str, pressed: bool) -> (report: bool)
        ensures
            final(self)@ == old(self)@.insert((device, button@), pressed),
            report == is_transition(previous_state(old(self)@, (device, button@)), pressed),
    {
        proof {
            use_type_invariant(&*self);
        }
        let name = button.to_owned();
        let mut states: Vec<((usize, String), bool)> = Vec::new();
        std::mem::swap(&mut states, &mut self.states);
        let ghost before = states@;
        let ghost key = (device, button@);
        let found = find_state(&states, device, &name);
        let report = match found {
            Some(j) => {
                proof {
                    assert(states@[j as int].0@ == key);
                    lemma_pairs_map_value(states@, j as int);
                    lemma_pairs_map_remove(states@, j as int);
                }
                let previous = states[j].1;
                states.remove(j);
                previous != pressed
            },
            None => {
                assert(!has_key(states@, key));
                assert(!pairs_map(states@).dom().contains(key));
                assert(pairs_map(states@) =~= pairs_map(before).remove(key));
                pressed
            },
        };
        assert(!has_key(states@, key)) by {
            if has_key(states@, key) {
                assert(pairs_map(states@).dom().contains(key));
            }
        }
        proof {
            lemma_pairs_map_push(states@, ((device, name), pressed));
            assert(pairs_map(before).remove(key).insert(key, pressed) =~= pairs_map(before).insert(
                key,
                pressed,
            ));
        }
        states.push(((device, name), pressed));
        self.states = states;
        report
    }

    /// Decodes the defined buttons of one HID report of `device` and records
    /// them in order; the result holds the transitions to report.
    pub fn observe_report(
        &mut self,
        definitions: &[HidButtonDefinition],
        device: usize,
        device_name: &str,
        report: &[u8],
    ) -> (res: Vec<(&'static str, bool)>)
        ensures
            (final(self)@, res@) == apply_observations(
                old(self)@,
                device,
                decoded_buttons(definitions@, device_name@, report@),
            ),
    {
        let buttons = decode_buttons(definitions, device_name, report);
        let ghost start = self@;
        let mut res: Vec<(&'static str, bool)> = Vec::new();
        let mut i: usize = 0;
        while i < buttons.len()
            invariant
                i <= buttons.len(),
                (self@, res@) == apply_observations(start, device, buttons@.take(i as int)),
            decreases buttons.len() - i,
        {
            let (button, pressed) = buttons[i];
            assert(buttons@.take(i + 1).drop_last() =~= buttons@.take(i as int));
            if self.observe(device, button, pressed) {
                res.push((button, pressed));
            }
            i = i + 1;
        }
        assert(buttons@.take(i as int) =~= buttons@);
        res
    }
}

} // verus!
