//! Properties that hold across calls and over every input.

use vstd::prelude::*;

use crate::aliases::renamed;
use crate::hid::{payload_accepted, payload_report_count, payload_report_size};
use crate::keyboard::{identity_text, RawKeyboardEvent, RI_KEY_E0, RI_KEY_E1};
use crate::mouse::{decoded_message, WM_XBUTTONDOWN, WM_XBUTTONUP};
use crate::raw_input::{apply_observations, is_transition, previous_state};
use crate::state::{
    device_button_recorded, device_registered, pressed_after, DeviceUiState, UiCall,
};
use crate::ui::{alias_applied, keyboard_key_text, resettable, UiModel};
use crate::text::{
    hex_digit_char, hex_digits, hex_padded,
    is_unicode_whitespace, nul_terminated_len, trim_end, trim_start, trimmed, utf16_decode_lossy,
    utf16_encode, utf16_of_char,
};

verus! {

/// `call` records a press or release of `key` in the window-wide state.
pub open spec fn is_record_of(call: UiCall, key: Seq<char>) -> bool {
    call matches UiCall::Record { key: k, .. } && k == key
}

/// `call` records a press.
pub open spec fn is_press(call: UiCall) -> bool {
    call matches UiCall::Record { pressed, .. } && pressed
}

/// Among `calls`, the last record of `key` is a press.
pub open spec fn last_record_is_press(calls: Seq<UiCall>, key: Seq<char>) -> bool {
    exists|i: int|
        0 <= i < calls.len() && is_record_of(#[trigger] calls[i], key) && is_press(calls[i])
            && forall|j: int| i < j < calls.len() ==> !is_record_of(#[trigger] calls[j], key)
}

/// `states[i + 1]` is what `calls[i]` leaves of the held-down keys
/// `states[i]`, starting from none: the held-down keys along any run of
/// `UiState::record`, `register_device` and `record_device` calls on a
/// default state.
pub open spec fn is_call_run(states: Seq<Set<Seq<char>>>, calls: Seq<UiCall>) -> bool {
    &&& states.len() == calls.len() + 1
    &&& states[0] == Set::<Seq<char>>::empty()
    &&& forall|i: int| 0 <= i < calls.len() ==> #[trigger] states[i + 1] == pressed_after(states[i], calls[i])
}

/// The indicator stays on until every pressed input is released: after any
/// run of calls, an input is held down exactly when its last record was a
/// press, and device calls never change that.
pub proof fn law_held_until_released(
    states: Seq<Set<Seq<char>>>,
    calls: Seq<UiCall>,
    key: Seq<char>,
)
    requires
        is_call_run(states, calls),
    ensures
        states.last().contains(key) <==> last_record_is_press(calls, key),
    decreases calls.len(),
{
    if calls.len() > 0 {
        let n = calls.len() - 1;
        let prefix = calls.drop_last();
        let pstates = states.drop_last();
        assert forall|i: int| 0 <= i < prefix.len() implies #[trigger] pstates[i + 1]
            == pressed_after(pstates[i], prefix[i]) by {
            assert(states[i + 1] == pressed_after(states[i], calls[i]));
        }
        law_held_until_released(pstates, prefix, key);
        assert(states[n + 1] == pressed_after(states[n], calls[n]));
        assert(states.last() == states[n + 1]);
        assert(pstates.last() == states[n]);
        if is_record_of(calls[n], key) {
            if is_press(calls[n]) {
                assert(is_record_of(calls[n], key) && is_press(calls[n]));
            } else {
                if last_record_is_press(calls, key) {
                    let i = choose|i: int|
                        0 <= i < calls.len() && is_record_of(#[trigger] calls[i], key) && is_press(
                            calls[i],
                        ) && forall|j: int|
                            i < j < calls.len() ==> !is_record_of(#[trigger] calls[j], key);
                    assert(i != n);
                }
            }
        } else {
            assert(states[n + 1].contains(key) == states[n].contains(key));
            if last_record_is_press(prefix, key) {
                let i = choose|i: int|
                    0 <= i < prefix.len() && is_record_of(#[trigger] prefix[i], key) && is_press(
                        prefix[i],
                    ) && forall|j: int|
                        i < j < prefix.len() ==> !is_record_of(#[trigger] prefix[j], key);
                assert(calls[i] == prefix[i]);
                assert forall|j: int| i < j < calls.len() implies !is_record_of(
                    #[trigger] calls[j],
                    key,
                ) by {
                    if j < n {
                        assert(calls[j] == prefix[j]);
                    }
                }
            }
            if last_record_is_press(calls, key) {
                let i = choose|i: int|
                    0 <= i < calls.len() && is_record_of(#[trigger] calls[i], key) && is_press(
                        calls[i],
                    ) && forall|j: int|
                        i < j < calls.len() ==> !is_record_of(#[trigger] calls[j], key);
                assert(i != n);
                assert(prefix[i] == calls[i]);
                assert forall|j: int| i < j < prefix.len() implies !is_record_of(
                    #[trigger] prefix[j],
                    key,
                ) by {
                    assert(calls[j] == prefix[j]);
                }
            }
        }
    }
}

/// The indicator is on after a run of calls exactly when some input's last
/// record was a press.
pub proof fn law_light_on_after_calls(states: Seq<Set<Seq<char>>>, calls: Seq<UiCall>)
    requires
        is_call_run(states, calls),
    ensures
        (states.last() != Set::<Seq<char>>::empty()) <==> exists|k: Seq<char>|
            last_record_is_press(calls, k),
{
    if states.last() != Set::<Seq<char>>::empty() {
        if forall|k: Seq<char>| !states.last().contains(k) {
            assert(states.last() =~= Set::<Seq<char>>::empty());
        }
        let k = choose|k: Seq<char>| states.last().contains(k);
        law_held_until_released(states, calls, k);
    }
    if exists|k: Seq<char>| last_record_is_press(calls, k) {
        let k = choose|k: Seq<char>| last_record_is_press(calls, k);
        law_held_until_released(states, calls, k);
        assert(states.last().contains(k));
    }
}

/// No two device rows share a handle.
pub open spec fn handles_distinct(devices: Seq<DeviceUiState>) -> bool {
    forall|i: int, j: int|
        0 <= i < devices.len() && 0 <= j < devices.len() && i != j ==> (#[trigger] devices[i]).handle
            != (#[trigger] devices[j]).handle
}

/// Registering devices never creates two rows for one handle.
pub proof fn law_register_keeps_handles_distinct(
    old: Seq<DeviceUiState>,
    new: Seq<DeviceUiState>,
    handle: usize,
    label: Seq<char>,
)
    requires
        handles_distinct(old),
        device_registered(old, new, handle, label),
    ensures
        handles_distinct(new),
{
    if exists|i: int| 0 <= i < old.len() && old[i].handle == handle {
        let i = choose|i: int| 0 <= i < old.len() && old[i].handle == handle;
        assert(crate::state::is_first_device(old, handle, i));
        assert forall|a: int, b: int|
            0 <= a < new.len() && 0 <= b < new.len() && a != b implies (#[trigger] new[a]).handle
            != (#[trigger] new[b]).handle by {
            if a != i {
                assert(new[a] == old[a]);
            }
            if b != i {
                assert(new[b] == old[b]);
            }
        }
    } else {
        assert forall|a: int, b: int|
            0 <= a < new.len() && 0 <= b < new.len() && a != b implies (#[trigger] new[a]).handle
            != (#[trigger] new[b]).handle by {
            if a < old.len() {
                assert(new[a] == old[a]);
            }
            if b < old.len() {
                assert(new[b] == old[b]);
            }
        }
    }
}

/// A device's buttons change only that device's row: every row with
/// another handle is left as it was.
pub proof fn law_device_rows_isolated(
    old: Seq<DeviceUiState>,
    new: Seq<DeviceUiState>,
    handle: usize,
    button: Seq<char>,
    pressed: bool,
    j: int,
)
    requires
        device_button_recorded(old, new, handle, button, pressed),
        0 <= j < old.len(),
        old[j].handle != handle,
    ensures
        j < new.len(),
        new[j] == old[j],
{
    if exists|i: int| 0 <= i < old.len() && old[i].handle == handle {
        let i = choose|i: int|
            0 <= i < old.len() && old[i].handle == handle && forall|k: int|
                0 <= k < i ==> old[k].handle != handle;
        assert(crate::state::is_first_device(old, handle, i)) by {
            lemma_first_device_exists(old, handle);
        }
    }
}

proof fn lemma_first_device_exists(devices: Seq<DeviceUiState>, handle: usize)
    requires
        exists|i: int| 0 <= i < devices.len() && devices[i].handle == handle,
    ensures
        exists|i: int| crate::state::is_first_device(devices, handle, i),
    decreases devices.len(),
{
    if devices[0].handle == handle {
        assert(crate::state::is_first_device(devices, handle, 0));
    } else {
        let rest = devices.drop_first();
        let i = choose|i: int| 0 <= i < devices.len() && devices[i].handle == handle;
        assert(rest[i - 1].handle == handle);
        lemma_first_device_exists(rest, handle);
        let k = choose|k: int| crate::state::is_first_device(rest, handle, k);
        assert(crate::state::is_first_device(devices, handle, k + 1)) by {
            assert forall|j: int| 0 <= j < k + 1 implies devices[j].handle != handle by {
                if j > 0 {
                    assert(devices[j] == rest[j - 1]);
                }
            }
        }
    }
}

/// The last rename of a device wins: renaming twice is renaming once to
/// the second alias.
pub proof fn law_last_rename_wins(
    m: Map<Seq<char>, Seq<char>>,
    key: Seq<char>,
    first: Seq<char>,
    second: Seq<char>,
)
    ensures
        renamed(renamed(m, key, first), key, second) == renamed(m, key, second),
{
    assert(renamed(renamed(m, key, first), key, second) =~= renamed(m, key, second));
}

/// Resetting a device's name (renaming it to the empty alias) and then
/// restoring the alias it had gives back the aliases before the reset.
pub proof fn law_reset_then_undo(m: Map<Seq<char>, Seq<char>>, key: Seq<char>)
    requires
        m.dom().contains(key),
        trimmed(m[key]) == m[key],
        m[key].len() > 0,
    ensures
        renamed(renamed(m, key, Seq::empty()), key, m[key]) == m,
{
    assert(trimmed(Seq::<char>::empty()) =~= Seq::<char>::empty());
    assert(renamed(renamed(m, key, Seq::empty()), key, m[key]) =~= m);
}

/// Undoing a reset of a row's name gives back the aliases, the row
/// identities, the held-down inputs and the last button from before the
/// reset, when the removed alias is not empty and has no surrounding
/// whitespace: `before` is the model that `reset_device_alias` changed into
/// `reset_done`, and `undo_reset` changed that into `undone`.
pub proof fn law_undo_restores_reset_aliases(
    before: UiModel,
    reset_done: UiModel,
    undone: UiModel,
    handle: usize,
    alias: Seq<char>,
)
    requires
        resettable(before, handle),
        alias == before.aliases@[before.rows@[handle].0],
        alias.len() > 0,
        trimmed(alias) == alias,
        alias_applied(before, reset_done, handle, before.aliases@.remove(before.rows@[handle].0)),
        alias_applied(
            reset_done,
            undone,
            handle,
            renamed(reset_done.aliases@, before.rows@[handle].0, alias),
        ),
    ensures
        undone.aliases@ == before.aliases@,
        undone.rows@ == before.rows@,
        undone.state.pressed_keys() == before.state.pressed_keys(),
        undone.state.last_button == before.state.last_button,
{
    let key = before.rows@[handle].0;
    assert(before.aliases@.remove(key).insert(key, alias) =~= before.aliases@);
}

/// Named HID buttons report only transitions: observing a button again in
/// the state it was just observed in reports nothing.
pub proof fn law_repeat_observation_is_silent(
    m: Map<(usize, Seq<char>), bool>,
    key: (usize, Seq<char>),
    pressed: bool,
)
    ensures
        !is_transition(previous_state(m.insert(key, pressed), key), pressed),
{
}

/// The X button of a low-level message is taken from the high word of
/// `mouse_data` alone.
pub proof fn law_xbutton_from_high_word(message: u32, a: u32, b: u32)
    requires
        a >> 16u32 == b >> 16u32,
    ensures
        decoded_message(message, a) == decoded_message(message, b),
{
}

/// An X-button message with an identifier other than 1 and 2 is reported
/// as `x-unknown`, never as `x1` or `x2`.
pub proof fn law_unknown_xbutton(message: u32, mouse_data: u32)
    requires
        message == WM_XBUTTONDOWN || message == WM_XBUTTONUP,
        mouse_data >> 16u32 != 1,
        mouse_data >> 16u32 != 2,
    ensures
        decoded_message(message, mouse_data) matches Some(e) && e.button@ == "x-unknown"@,
{
}

/// A key's identity does not depend on whether it is pressed or released.
pub proof fn law_identity_ignores_press_state(key: RawKeyboardEvent, pressed: bool)
    ensures
        identity_text(RawKeyboardEvent { pressed, ..key }) == identity_text(key),
{
}

/// An accepted HID payload holds exactly `report_count` whole reports.
pub proof fn law_payload_holds_whole_reports(p: Seq<u8>)
    requires
        payload_accepted(p),
    ensures
        (payload_report_size(p) * payload_report_count(p)) / payload_report_size(p)
            == payload_report_count(p),
        (payload_report_size(p) * payload_report_count(p)) % payload_report_size(p) == 0,
{
    let s = payload_report_size(p);
    let c = payload_report_count(p);
    vstd::arithmetic::div_mod::lemma_div_multiples_vanish(c, s);
    vstd::arithmetic::div_mod::lemma_mod_multiples_basic(c, s);
    vstd::arithmetic::mul::lemma_mul_is_commutative(s, c);
}

proof fn lemma_trim_start_no_leading_space(s: Seq<char>)
    ensures
        trim_start(s).len() > 0 ==> !is_unicode_whitespace(trim_start(s)[0]),
        trim_start(trim_start(s)) == trim_start(s),
    decreases s.len(),
{
    if s.len() > 0 && is_unicode_whitespace(s[0]) {
        lemma_trim_start_no_leading_space(s.drop_first());
    }
}

proof fn lemma_trim_end_keeps_start(s: Seq<char>)
    ensures
        trim_end(s).len() > 0 ==> trim_end(s)[0] == s[0],
        trim_end(s).len() > 0 ==> !is_unicode_whitespace(trim_end(s).last()),
        trim_end(trim_end(s)) == trim_end(s),
    decreases s.len(),
{
    if s.len() > 0 && is_unicode_whitespace(s.last()) {
        lemma_trim_end_keeps_start(s.drop_last());
    }
}

/// Trimming is idempotent: a trimmed alias is its own trimmed form.
pub proof fn law_trim_idempotent(s: Seq<char>)
    ensures
        trimmed(trimmed(s)) == trimmed(s),
{
    let a = trim_start(s);
    let t = trim_end(a);
    lemma_trim_start_no_leading_space(s);
    lemma_trim_end_keeps_start(a);
    if t.len() > 0 {
        assert(!is_unicode_whitespace(t[0]));
    }
    assert(trim_start(t) == t);
}

/// Renaming a device to the alias it already has changes nothing.
pub proof fn law_rename_to_current_alias_is_noop(
    m: Map<Seq<char>, Seq<char>>,
    key: Seq<char>,
    alias: Seq<char>,
)
    requires
        trimmed(alias).len() > 0,
        m.dom().contains(key),
        m[key] == trimmed(alias),
    ensures
        renamed(m, key, alias) == m,
{
    assert(renamed(m, key, alias) =~= m);
}

proof fn lemma_encode_front(s: Seq<char>)
    requires
        s.len() > 0,
    ensures
        utf16_encode(s) == utf16_of_char(s[0]) + utf16_encode(s.drop_first()),
    decreases s.len(),
{
    if s.len() == 1 {
        assert(s.drop_last().len() == 0);
        assert(s.drop_first().len() == 0);
        assert(utf16_encode(s.drop_first()) =~= Seq::<u16>::empty());
        assert(utf16_encode(s.drop_last()) =~= Seq::<u16>::empty());
        assert(utf16_encode(s) =~= utf16_of_char(s[0]) + utf16_encode(s.drop_first()));
    } else {
        lemma_encode_front(s.drop_last());
        assert(s.drop_last().drop_first() =~= s.drop_first().drop_last());
        assert(s.drop_first().last() == s.last());
        assert(utf16_encode(s) =~= utf16_of_char(s[0]) + utf16_encode(s.drop_first()));
    }
}

proof fn lemma_decode_char(c: char, rest: Seq<u16>)
    ensures
        utf16_decode_lossy(utf16_of_char(c) + rest) == seq![c] + utf16_decode_lossy(rest),
{
    let v = c as u32 as int;
    let units = utf16_of_char(c) + rest;
    if v < 0x10000 {
        assert(!(0xd800 <= v <= 0xdfff));
        assert(units[0] == v as u16);
        assert(units.skip(1) =~= rest);
        assert((units[0] as u32) as char == c);
    } else {
        let w = v - 0x10000;
        assert(w < 0x100000);
        vstd::arithmetic::div_mod::lemma_fundamental_div_mod(w, 0x400);
        assert(0 <= w % 0x400 < 0x400);
        assert(w / 0x400 < 0x400) by {
            vstd::arithmetic::div_mod::lemma_div_by_multiple_is_strongly_ordered(w, 0x100000, 0x400, 0x400);
        }
        let hi = (0xd800 + w / 0x400) as u16;
        let lo = (0xdc00 + w % 0x400) as u16;
        assert(units[0] == hi);
        assert(units[1] == lo);
        assert(units.skip(2) =~= rest);
        assert(0x10000 + (hi - 0xd800) * 0x400 + (lo - 0xdc00) == v);
    }
}

proof fn lemma_decode_encode(s: Seq<char>)
    ensures
        utf16_decode_lossy(utf16_encode(s)) == s,
    decreases s.len(),
{
    if s.len() == 0 {
        assert(utf16_decode_lossy(utf16_encode(s)) =~= s);
    } else {
        lemma_encode_front(s);
        lemma_decode_char(s[0], utf16_encode(s.drop_first()));
        lemma_decode_encode(s.drop_first());
        assert(seq![s[0]] + s.drop_first() =~= s);
    }
}

proof fn lemma_char_units_nonzero(c: char)
    requires
        c as u32 != 0,
    ensures
        forall|i: int| 0 <= i < utf16_of_char(c).len() ==> utf16_of_char(c)[i] != 0,
{
    let u = utf16_of_char(c);
    let v = c as u32 as int;
    if v < 0x10000 {
        assert(u[0] == v as u16);
    } else {
        let w = v - 0x10000;
        assert(w < 0x100000);
        assert(w / 0x400 < 0x400) by {
            vstd::arithmetic::div_mod::lemma_div_by_multiple_is_strongly_ordered(
                w,
                0x100000,
                0x400,
                0x400,
            );
        }
        assert(0 <= w % 0x400 < 0x400) by {
            vstd::arithmetic::div_mod::lemma_fundamental_div_mod(w, 0x400);
        }
        assert(u[0] != 0);
        assert(u[1] != 0);
    }
}

proof fn lemma_encode_has_no_nul(s: Seq<char>)
    requires
        forall|i: int| 0 <= i < s.len() ==> (#[trigger] s[i]) as u32 != 0,
    ensures
        forall|i: int| 0 <= i < utf16_encode(s).len() ==> utf16_encode(s)[i] != 0,
    decreases s.len(),
{
    if s.len() > 0 {
        assert forall|i: int| 0 <= i < s.drop_last().len() implies (#[trigger] s.drop_last()[i])
            as u32 != 0 by {
            assert(s.drop_last()[i] == s[i]);
        }
        lemma_encode_has_no_nul(s.drop_last());
        assert(s[s.len() - 1] as u32 != 0);
        let e = utf16_encode(s.drop_last());
        let u = utf16_of_char(s.last());
        lemma_char_units_nonzero(s.last());
        assert forall|i: int| 0 <= i < utf16_encode(s).len() implies utf16_encode(s)[i] != 0 by {
            if i >= e.len() {
                assert(utf16_encode(s)[i] == u[i - e.len()]);
            } else {
                assert(utf16_encode(s)[i] == e[i]);
            }
        }
    }
}

proof fn lemma_nul_len(e: Seq<u16>)
    requires
        forall|i: int| 0 <= i < e.len() ==> e[i] != 0,
    ensures
        nul_terminated_len(e.push(0u16)) == e.len(),
    decreases e.len(),
{
    if e.len() > 0 {
        assert(e.push(0u16).skip(1) =~= e.skip(1).push(0u16));
        lemma_nul_len(e.skip(1));
    } else {
        assert(e.push(0u16)[0] == 0);
    }
}

/// A string without NUL characters survives the trip through Win32's wide
/// strings: encoding it with its terminating NUL and decoding the text
/// before the first NUL gives it back.
pub proof fn law_wide_string_round_trip(s: Seq<char>)
    requires
        forall|i: int| 0 <= i < s.len() ==> (#[trigger] s[i]) as u32 != 0,
    ensures
        ({
            let units = utf16_encode(s).push(0u16);
            utf16_decode_lossy(units.take(nul_terminated_len(units))) == s
        }),
{
    let e = utf16_encode(s);
    lemma_encode_has_no_nul(s);
    lemma_nul_len(e);
    assert(e.push(0u16).take(e.len() as int) =~= e);
    lemma_decode_encode(s);
}

/// The four lower-case hex digits of a 16-bit value.
pub open spec fn four_hex_digits(v: nat) -> Seq<char> {
    seq![
        hex_digit_char(((v / 0x1000) % 16) as int, false),
        hex_digit_char(((v / 0x100) % 16) as int, false),
        hex_digit_char(((v / 0x10) % 16) as int, false),
        hex_digit_char((v % 16) as int, false),
    ]
}

proof fn lemma_hex4(v: nat)
    requires
        v < 0x1_0000,
    ensures
        hex_padded(v, 4, false) == four_hex_digits(v),
{
    reveal_with_fuel(hex_digits, 5);
    if v < 0x10 {
        assert(hex_padded(v, 4, false) =~= four_hex_digits(v));
    } else if v < 0x100 {
        assert(v / 0x10 < 0x10);
        assert(hex_padded(v, 4, false) =~= four_hex_digits(v));
    } else if v < 0x1000 {
        assert(v / 0x10 / 0x10 == v / 0x100);
        assert(v / 0x100 < 0x10);
        assert(hex_padded(v, 4, false) =~= four_hex_digits(v));
    } else {
        assert(v / 0x10 / 0x10 == v / 0x100);
        assert(v / 0x10 / 0x10 / 0x10 == v / 0x1000);
        assert(v / 0x1000 < 0x10);
        assert(hex_padded(v, 4, false) =~= four_hex_digits(v));
    }
}

proof fn lemma_hex_digit_injective(a: int, b: int)
    requires
        0 <= a < 16,
        0 <= b < 16,
        hex_digit_char(a, false) == hex_digit_char(b, false),
    ensures
        a == b,
{
    let ca = hex_digit_char(a, false);
    let cb = hex_digit_char(b, false);
    assert(ca as u32 == cb as u32);
}

proof fn lemma_four_hex_digits_injective(a: nat, b: nat)
    requires
        a < 0x1_0000,
        b < 0x1_0000,
        four_hex_digits(a) == four_hex_digits(b),
    ensures
        a == b,
{
    let fa = four_hex_digits(a);
    let fb = four_hex_digits(b);
    assert(fa[0] == fb[0] && fa[1] == fb[1] && fa[2] == fb[2] && fa[3] == fb[3]);
    lemma_hex_digit_injective(((a / 0x1000) % 16) as int, ((b / 0x1000) % 16) as int);
    lemma_hex_digit_injective(((a / 0x100) % 16) as int, ((b / 0x100) % 16) as int);
    lemma_hex_digit_injective(((a / 0x10) % 16) as int, ((b / 0x10) % 16) as int);
    lemma_hex_digit_injective((a % 16) as int, (b % 16) as int);
    lemma_hex4_decompose(a);
    lemma_hex4_decompose(b);
}

proof fn lemma_hex4_decompose(v: nat)
    requires
        v < 0x1_0000,
    ensures
        v == (v / 0x1000) % 16 * 0x1000 + (v / 0x100) % 16 * 0x100 + (v / 0x10) % 16 * 0x10 + v
            % 16,
{
    assert(v == (v / 0x1000) % 16 * 0x1000 + (v / 0x100) % 16 * 0x100 + (v / 0x10) % 16 * 0x10
        + v % 16) by (nonlinear_arith)
        requires
            v < 0x1_0000,
    ;
}

/// Two keys share an identity exactly when their make codes, their prefix
/// flags (`E0`, `E1`) and their virtual keys agree; the other flags and the
/// press state play no part.
#[verifier::spinoff_prover]
#[verifier::rlimit(40)]
pub proof fn law_identity_tells_keys_apart(a: RawKeyboardEvent, b: RawKeyboardEvent)
    ensures
        identity_text(a) == identity_text(b) <==> (a.make_code == b.make_code && a.virtual_key
            == b.virtual_key && (a.flags & (RI_KEY_E0 | RI_KEY_E1)) == (b.flags & (RI_KEY_E0
            | RI_KEY_E1))),
{
    let fa = a.flags & (RI_KEY_E0 | RI_KEY_E1);
    let fb = b.flags & (RI_KEY_E0 | RI_KEY_E1);
    lemma_hex4(a.make_code as nat);
    lemma_hex4(b.make_code as nat);
    lemma_hex4(fa as nat);
    lemma_hex4(fb as nat);
    lemma_hex4(a.virtual_key as nat);
    lemma_hex4(b.virtual_key as nat);
    let ta = identity_text(a);
    let tb = identity_text(b);
    assert(ta.len() == 14);
    if ta == tb {
        assert(ta.subrange(0, 4) =~= four_hex_digits(a.make_code as nat));
        assert(tb.subrange(0, 4) =~= four_hex_digits(b.make_code as nat));
        assert(ta.subrange(5, 9) =~= four_hex_digits(fa as nat));
        assert(tb.subrange(5, 9) =~= four_hex_digits(fb as nat));
        assert(ta.subrange(10, 14) =~= four_hex_digits(a.virtual_key as nat));
        assert(tb.subrange(10, 14) =~= four_hex_digits(b.virtual_key as nat));
        lemma_four_hex_digits_injective(a.make_code as nat, b.make_code as nat);
        lemma_four_hex_digits_injective(fa as nat, fb as nat);
        lemma_four_hex_digits_injective(a.virtual_key as nat, b.virtual_key as nat);
    }
}

/// The state last observed for the button `name` among `obs`, if any.
pub open spec fn last_value(obs: Seq<(&'static str, bool)>, name: Seq<char>) -> Option<bool>
    decreases obs.len(),
{
    if obs.len() == 0 {
        None
    } else if obs.last().0@ == name {
        Some(obs.last().1)
    } else {
        last_value(obs.drop_last(), name)
    }
}

/// The state of button `name` of `device` after the observations `prefix`,
/// starting from the states `m`.
pub open spec fn value_before(
    m: Map<(usize, Seq<char>), bool>,
    device: usize,
    prefix: Seq<(&'static str, bool)>,
    name: Seq<char>,
) -> Option<bool> {
    match last_value(prefix, name) {
        Some(v) => Some(v),
        None => previous_state(m, (device, name)),
    }
}

/// The observations that are reported: each one whose state differs from the
/// previous observation of the same button, or, for a button's first
/// observation, from its state in `m` (a first press when `m` has none).
pub open spec fn edge_transitions(
    m: Map<(usize, Seq<char>), bool>,
    device: usize,
    obs: Seq<(&'static str, bool)>,
) -> Seq<(&'static str, bool)>
    decreases obs.len(),
{
    if obs.len() == 0 {
        seq![]
    } else {
        let prefix = obs.drop_last();
        edge_transitions(m, device, prefix) + if is_transition(
            value_before(m, device, prefix, obs.last().0@),
            obs.last().1,
        ) {
            seq![obs.last()]
        } else {
            seq![]
        }
    }
}

/// After a run of observations of one device, each of its buttons is in the
/// state last observed for it, and the buttons of other devices are as they
/// were: every (device, button) pair is tracked on its own.
pub proof fn law_tracker_keeps_last_state(
    m: Map<(usize, Seq<char>), bool>,
    device: usize,
    obs: Seq<(&'static str, bool)>,
    other: usize,
    name: Seq<char>,
)
    ensures
        previous_state(apply_observations(m, device, obs).0, (device, name)) == value_before(
            m,
            device,
            obs,
            name,
        ),
        other != device ==> previous_state(apply_observations(m, device, obs).0, (other, name))
            == previous_state(m, (other, name)),
    decreases obs.len(),
{
    if obs.len() > 0 {
        law_tracker_keeps_last_state(m, device, obs.drop_last(), other, name);
    }
}

/// A run of observations reports exactly the edge transitions: a change of
/// a button's state, or a first observation that is a press.
pub proof fn law_tracker_reports_edges(
    m: Map<(usize, Seq<char>), bool>,
    device: usize,
    obs: Seq<(&'static str, bool)>,
)
    ensures
        apply_observations(m, device, obs).1 == edge_transitions(m, device, obs),
    decreases obs.len(),
{
    if obs.len() > 0 {
        let prefix = obs.drop_last();
        law_tracker_reports_edges(m, device, prefix);
        law_tracker_keeps_last_state(m, device, prefix, device, obs.last().0@);
        let out = apply_observations(m, device, prefix).1;
        if is_transition(value_before(m, device, prefix, obs.last().0@), obs.last().1) {
            assert(out.push(obs.last()) =~= out + seq![obs.last()]);
        } else {
            assert(out =~= out + Seq::<(&'static str, bool)>::empty());
        }
    }
}

/// Observing successive reports one after another is observing their
/// buttons in one run: the states carry over from report to report and the
/// reported transitions are those of each report in turn.
pub proof fn law_tracker_successive_reports(
    m: Map<(usize, Seq<char>), bool>,
    device: usize,
    first: Seq<(&'static str, bool)>,
    second: Seq<(&'static str, bool)>,
)
    ensures
        ({
            let (m1, out1) = apply_observations(m, device, first);
            let (m2, out2) = apply_observations(m1, device, second);
            apply_observations(m, device, first + second) == (m2, out1 + out2)
        }),
    decreases second.len(),
{
    if second.len() == 0 {
        assert(first + second =~= first);
        let out1 = apply_observations(m, device, first).1;
        assert(out1 + Seq::<(&'static str, bool)>::empty() =~= out1);
    } else {
        law_tracker_successive_reports(m, device, first, second.drop_last());
        assert((first + second).drop_last() =~= first + second.drop_last());
        assert((first + second).last() == second.last());
        let (m1, out1) = apply_observations(m, device, first);
        let out2p = apply_observations(m1, device, second.drop_last()).1;
        assert((out1 + out2p).push(second.last()) =~= out1 + out2p.push(second.last()));
    }
}

/// A key press followed by the release of the same key (same device, same
/// identity) leaves the window-wide held keys and the device's held buttons
/// as they were before the press.
pub proof fn law_key_press_then_release(
    keys: Set<Seq<char>>,
    device_buttons: Set<Seq<char>>,
    device: usize,
    press: RawKeyboardEvent,
    release: RawKeyboardEvent,
    press_name: Seq<char>,
    release_name: Seq<char>,
)
    requires
        identity_text(press) == identity_text(release),
        !keys.contains(keyboard_key_text(device, press)),
        !device_buttons.contains(identity_text(press)),
    ensures
        pressed_after(
            pressed_after(
                keys,
                UiCall::Record {
                    key: keyboard_key_text(device, press),
                    button: press_name,
                    pressed: true,
                },
            ),
            UiCall::Record {
                key: keyboard_key_text(device, release),
                button: release_name,
                pressed: false,
            },
        ) == keys,
        device_buttons.insert(identity_text(press)).remove(identity_text(release))
            == device_buttons,
{
    assert(keys.insert(keyboard_key_text(device, press)).remove(keyboard_key_text(device, press))
        =~= keys);
    assert(device_buttons.insert(identity_text(press)).remove(identity_text(press))
        =~= device_buttons);
}

} // verus!
