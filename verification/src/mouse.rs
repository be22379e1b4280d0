//! Mouse button messages from the low-level hook and from Raw Input.

use vstd::prelude::*;

use crate::bytes::{le_u16_at, read_u16_le};

verus! {

pub const WM_MOUSEMOVE: u32 = 0x0200;
pub const WM_LBUTTONDOWN: u32 = 0x0201;
pub const WM_LBUTTONUP: u32 = 0x0202;
pub const WM_RBUTTONDOWN: u32 = 0x0204;
pub const WM_RBUTTONUP: u32 = 0x0205;
pub const WM_MBUTTONDOWN: u32 = 0x0207;
pub const WM_MBUTTONUP: u32 = 0x0208;
pub const WM_MOUSEWHEEL: u32 = 0x020a;
pub const WM_XBUTTONDOWN: u32 = 0x020b;
pub const WM_XBUTTONUP: u32 = 0x020c;
pub const WM_MOUSEHWHEEL: u32 = 0x020e;

/// A button transition: `button` is `left`, `right`, `middle`, `x1`, `x2` or
/// `x-unknown`; `action` is `down` or `up`.
#[derive(Clone, Copy, Debug, PartialEq, Eq)]
pub struct MouseButtonEvent {
    pub button: &'static str,
    pub action: &'static str,
}

/// The button transition that a low-level mouse message stands for. For the
/// X-button messages the button is the high word of `mouse_data`.
pub open spec fn decoded_message(message: u32, mouse_data: u32) -> Option<MouseButtonEvent> {
    if message == WM_LBUTTONDOWN {
        Some(MouseButtonEvent { button: "left", action: "down" })
    } else if message == WM_LBUTTONUP {
        Some(MouseButtonEvent { button: "left", action: "up" })
    } else if message == WM_RBUTTONDOWN {
        Some(MouseButtonEvent { button: "right", action: "down" })
    } else if message == WM_RBUTTONUP {
        Some(MouseButtonEvent { button: "right", action: "up" })
    } else if message == WM_MBUTTONDOWN {
        Some(MouseButtonEvent { button: "middle", action: "down" })
    } else if message == WM_MBUTTONUP {
        Some(MouseButtonEvent { button: "middle", action: "up" })
    } else if message == WM_XBUTTONDOWN || message == WM_XBUTTONUP {
        let id = mouse_data >> 16u32;
        Some(
            MouseButtonEvent {
                button: if id == 1 {
                    "x1"
                } else if id == 2 {
                    "x2"
                } else {
                    "x-unknown"
                },
                action: if message == WM_XBUTTONDOWN {
                    "down"
                } else {
                    "up"
                },
            },
        )
    } else {
        None
    }
}

/// Decodes a low-level mouse message; wheel, movement and every other
/// message are not button transitions.
pub fn decode_message(message: u32, mouse_data: u32) -> (res: Option<MouseButtonEvent>)
    ensures
        res == decoded_message(message, mouse_data),
{
    if message == WM_LBUTTONDOWN {
        Some(MouseButtonEvent { button: "left", action: "down" })
    } else if message == WM_LBUTTONUP {
        Some(MouseButtonEvent { button: "left", action: "up" })
    } else if message == WM_RBUTTONDOWN {
        Some(MouseButtonEvent { button: "right", action: "down" })
    } else if message == WM_RBUTTONUP {
        Some(MouseButtonEvent { button: "right", action: "up" })
    } else if message == WM_MBUTTONDOWN {
        Some(MouseButtonEvent { button: "middle", action: "down" })
    } else if message == WM_MBUTTONUP {
        Some(MouseButtonEvent { button: "middle", action: "up" })
    } else if message == WM_XBUTTONDOWN || message == WM_XBUTTONUP {
        let id = mouse_data >> 16u32;
        let button = if id == 1 {
            "x1"
        } else if id == 2 {
            "x2"
        } else {
            "x-unknown"
        };
        let action = if message == WM_XBUTTONDOWN {
            "down"
        } else {
            "up"
        };
        Some(MouseButtonEvent { button, action })
    } else {
        None
    }
}

/// The `usButtonFlags` bits of a `RAWMOUSE` structure and the transitions
/// they stand for, in the order in which they are reported.
pub open spec fn raw_button_table() -> Seq<(u16, MouseButtonEvent)> {
    seq![
        (0x0001u16, MouseButtonEvent { button: "left", action: "down" }),
        (0x0002u16, MouseButtonEvent { button: "left", action: "up" }),
        (0x0004u16, MouseButtonEvent { button: "right", action: "down" }),
        (0x0008u16, MouseButtonEvent { button: "right", action: "up" }),
        (0x0010u16, MouseButtonEvent { button: "middle", action: "down" }),
        (0x0020u16, MouseButtonEvent { button: "middle", action: "up" }),
        (0x0040u16, MouseButtonEvent { button: "x1", action: "down" }),
        (0x0080u16, MouseButtonEvent { button: "x1", action: "up" }),
        (0x0100u16, MouseButtonEvent { button: "x2", action: "down" }),
        (0x0200u16, MouseButtonEvent { button: "x2", action: "up" }),
    ]
}

/// The transitions of `table` whose bit is set in `flags`, in table order.
pub open spec fn flagged_buttons(table: Seq<(u16, MouseButtonEvent)>, flags: u16) -> Seq<
    MouseButtonEvent,
>
    decreases table.len(),
{
    if table.len() == 0 {
        seq![]
    } else {
        let rest = flagged_buttons(table.drop_last(), flags);
        if flags & table.last().0 != 0 {
            rest.push(table.last().1)
        } else {
            rest
        }
    }
}

/// The transitions that a `RAWMOUSE` payload reports: those whose bit is set
/// in the little-endian `u16` at offset 4; none when the payload is shorter
/// than 6 bytes.
pub open spec fn decoded_raw_buttons(p: Seq<u8>) -> Seq<MouseButtonEvent> {
    if p.len() < 6 {
        seq![]
    } else {
        flagged_buttons(raw_button_table(), le_u16_at(p, 4) as u16)
    }
}

fn raw_button_table_exec() -> (v: Vec<(u16, MouseButtonEvent)>)
    ensures
        v@ == raw_button_table(),
{
    let mut v: Vec<(u16, MouseButtonEvent)> = Vec::new();
    v.push((0x0001u16, MouseButtonEvent { button: "left", action: "down" }));
    v.push((0x0002u16, MouseButtonEvent { button: "left", action: "up" }));
    v.push((0x0004u16, MouseButtonEvent { button: "right", action: "down" }));
    v.push((0x0008u16, MouseButtonEvent { button: "right", action: "up" }));
    v.push((0x0010u16, MouseButtonEvent { button: "middle", action: "down" }));
    v.push((0x0020u16, MouseButtonEvent { button: "middle", action: "up" }));
    v.push((0x0040u16, MouseButtonEvent { button: "x1", action: "down" }));
    v.push((0x0080u16, MouseButtonEvent { button: "x1", action: "up" }));
    v.push((0x0100u16, MouseButtonEvent { button: "x2", action: "down" }));
    v.push((0x0200u16, MouseButtonEvent { button: "x2", action: "up" }));
    assert(v@ =~= raw_button_table());
    v
}

/// Decodes the button transitions of a `RAWMOUSE` payload; several buttons
/// can change in one report.
pub fn decode_raw_buttons(payload: &[u8]) -> (res: Vec<MouseButtonEvent>)
    ensures
        res@ == decoded_raw_buttons(payload@),
{
    if payload.len() < 6 {
        return Vec::new();
    }
    let flags = read_u16_le(payload, 4);
    let table = raw_button_table_exec();
    let mut res: Vec<MouseButtonEvent> = Vec::new();
    let mut i: usize = 0;
    while i < table.len()
        invariant
            table@ == raw_button_table(),
            i <= table.len(),
            res@ == flagged_buttons(table@.take(i as int), flags),
        decreases table.len() - i,
    {
        let (mask, event) = table[i];
        assert(table@.take(i + 1).drop_last() =~= table@.take(i as int));
        if flags & mask != 0 {
            res.push(event);
        }
        i = i + 1;
    }
    assert(table@.take(i as int) =~= table@);
    res
}

/// What the low-level mouse hook does with one callback.
#[derive(Clone, Copy, Debug, PartialEq, Eq)]
pub struct MouseHookDecision {
    /// The button transition to report, if the message is one.
    pub event: Option<MouseButtonEvent>,
    /// Swallow the message instead of passing it to the next hook.
    pub suppress: bool,
}

/// Decides a low-level mouse hook callback: a negative hook code is passed on
/// untouched; otherwise a button transition is reported, and it is
/// swallowed when suppression of mouse buttons is on.
pub fn mouse_hook_decision(code: i32, message: u32, mouse_data: u32, block: bool) -> (res:
    MouseHookDecision)
    ensures
        code < 0 ==> res.event is None && !res.suppress,
        code >= 0 ==> res.event == decoded_message(message, mouse_data),
        code >= 0 ==> res.suppress == (block && decoded_message(message, mouse_data) is Some),
{
    if code < 0 {
        return MouseHookDecision { event: None, suppress: false };
    }
    let event = decode_message(message, mouse_data);
    let suppress = block && event.is_some();
    MouseHookDecision { event, suppress }
}

} // verus!
