//! Raw Input keyboard reports.

use vstd::prelude::*;

use crate::bytes::{le_u16_at, le_u32_at, read_u16_le, read_u32_le};
use crate::text::{hex_padded, push_char, push_hex};

verus! {

pub const WM_KEYDOWN: u32 = 0x0100;
pub const WM_KEYUP: u32 = 0x0101;
pub const WM_SYSKEYDOWN: u32 = 0x0104;
pub const WM_SYSKEYUP: u32 = 0x0105;
/// The scan code has the `E0` prefix.
pub const RI_KEY_E0: u16 = 0x0002;
/// The scan code has the `E1` prefix.
pub const RI_KEY_E1: u16 = 0x0004;

/// One key transition read from a `RAWKEYBOARD` structure.
#[derive(Clone, Copy, Debug, PartialEq, Eq)]
pub struct RawKeyboardEvent {
    pub make_code: u16,
    pub flags: u16,
    pub virtual_key: u16,
    pub pressed: bool,
}

/// The key transition that a `RAWKEYBOARD` payload holds: the make code at
/// offset 0, the flags at 2, the virtual key at 6 and the window message at 8.
/// Only the four key-down and key-up messages are transitions.
pub open spec fn decoded_keyboard(p: Seq<u8>) -> Option<RawKeyboardEvent> {
    if p.len() < 12 {
        None
    } else {
        let message = le_u32_at(p, 8);
        if message == WM_KEYDOWN || message == WM_SYSKEYDOWN || message == WM_KEYUP || message
            == WM_SYSKEYUP {
            Some(
                RawKeyboardEvent {
                    make_code: le_u16_at(p, 0) as u16,
                    flags: le_u16_at(p, 2) as u16,
                    virtual_key: le_u16_at(p, 6) as u16,
                    pressed: message == WM_KEYDOWN || message == WM_SYSKEYDOWN,
                },
            )
        } else {
            None
        }
    }
}

/// Decodes a `RAWKEYBOARD` payload into a key transition.
pub fn decode(payload: &[u8]) -> (res: Option<RawKeyboardEvent>)
    ensures
        res == decoded_keyboard(payload@),
{
    if payload.len() < 12 {
        return None;
    }
    let make_code = read_u16_le(payload, 0);
    let flags = read_u16_le(payload, 2);
    let virtual_key = read_u16_le(payload, 6);
    let message = read_u32_le(payload, 8);
    let pressed = if message == WM_KEYDOWN || message == WM_SYSKEYDOWN {
        true
    } else if message == WM_KEYUP || message == WM_SYSKEYUP {
        false
    } else {
        return None;
    };
    Some(RawKeyboardEvent { make_code, flags, virtual_key, pressed })
}

/// The text of a key identity: the make code, the prefix flags (`E0`, `E1`)
/// and the virtual key, each as four lower-case hex digits, separated by `:`.
pub open spec fn identity_text(key: RawKeyboardEvent) -> Seq<char> {
    hex_padded(key.make_code as nat, 4, false) + seq![':'] + hex_padded(
        (key.flags & (RI_KEY_E0 | RI_KEY_E1)) as nat,
        4,
        false,
    ) + seq![':'] + hex_padded(key.virtual_key as nat, 4, false)
}

/// The `lParam` that `GetKeyNameTextW` takes for a key: the scan code in bits
/// 16..32 and, for `E0`-prefixed keys, the extended-key bit 24.
pub open spec fn key_name_lparam_bits(key: RawKeyboardEvent) -> u32 {
    ((key.make_code as u32) << 16u32) | (if key.flags & RI_KEY_E0 != 0 {
        0x100_0000u32
    } else {
        0u32
    })
}

/// The name shown for a key whose name Windows does not know: `VK 0x`
/// followed by the virtual key as at least two upper-case hex digits.
pub open spec fn fallback_key_name_text(virtual_key: u16) -> Seq<char> {
    seq!['V', 'K', ' ', '0', 'x'] + hex_padded(virtual_key as nat, 2, true)
}

impl RawKeyboardEvent {
    /// A stable text that tells keys apart, independent of the press state.
    pub fn identity(self) -> (res: String)
        ensures
            res@ == identity_text(self),
    {
        let mut s = String::new();
        push_hex(&mut s, self.make_code as u64, 4, false);
        push_char(&mut s, ':');
        push_hex(&mut s, (self.flags & (RI_KEY_E0 | RI_KEY_E1)) as u64, 4, false);
        push_char(&mut s, ':');
        push_hex(&mut s, self.virtual_key as u64, 4, false);
        s
    }

    /// The `lParam` argument under which Windows looks up the key's name.
    pub fn key_name_lparam(self) -> (res: i32)
        ensures
            res as u32 == key_name_lparam_bits(self),
    {
        let extended: u32 = if self.flags & RI_KEY_E0 != 0 {
            0x100_0000u32
        } else {
            0u32
        };
        let bits: u32 = ((self.make_code as u32) << 16u32) | extended;
        let res = #[verifier::truncate] (bits as i32);
        assert(res as u32 == bits) by (bit_vector)
            requires
                res == bits as i32,
        ;
        res
    }
}

/// `VK 0x..`: the name of a key for which Windows gives no text.
pub fn fallback_key_name(virtual_key: u16) -> (res: String)
    ensures
        res@ == fallback_key_name_text(virtual_key),
{
    let mut s = String::new();
    push_char(&mut s, 'V');
    push_char(&mut s, 'K');
    push_char(&mut s, ' ');
    push_char(&mut s, '0');
    push_char(&mut s, 'x');
    push_hex(&mut s, virtual_key as u64, 2, true);
    assert(s@ =~= fallback_key_name_text(virtual_key));
    s
}

/// The display name of a key: the text Windows gave for it (`looked_up`),
/// or the virtual-key fallback when Windows gave none.
pub fn key_name(key: RawKeyboardEvent, looked_up: Option<String>) -> (res: String)
    ensures
        res@ == match looked_up {
            Some(text) => text@,
            None => fallback_key_name_text(key.virtual_key),
        },
{
    match looked_up {
        Some(text) => text,
        None => fallback_key_name(key.virtual_key),
    }
}

} // verus!
