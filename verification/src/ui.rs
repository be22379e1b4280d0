//! The status window: colours, row hit-testing, texts, and the state that
//! button events update.

use vstd::prelude::*;

use crate::aliases::{renamed, AliasStore};
use crate::keyboard::{identity_text, RawKeyboardEvent};
use crate::keyed::{
    has_key, keys_unique, lemma_pairs_map_push, lemma_pairs_map_remove, lemma_pairs_map_value,
    pairs_map,
};
use crate::mouse::MouseButtonEvent;
use crate::state::{device_button_recorded, device_registered, pressed_after, UiCall, UiState};
use crate::text::{hex_padded, push_char, push_hex, same_text, trimmed};

verus! {

/// Height of one device row, in pixels.
pub const ROW_HEIGHT: i32 = 28;
/// Top of the first device row, in client coordinates.
pub const ROWS_TOP: i32 = 40;
/// Context-menu command that resets a device to its default name.
pub const MENU_RESET: u32 = 1;
/// Context-menu command that undoes the last reset.
pub const MENU_UNDO_RESET: u32 = 2;

pub const WM_KEYDOWN: u32 = 0x0100;
pub const VK_RETURN: usize = 0x0d;
pub const VK_ESCAPE: usize = 0x1b;

/// A GDI `COLORREF`: red in the low byte, then green, then blue.
pub fn rgb(red: u8, green: u8, blue: u8) -> (res: u32)
    ensures
        res == red + green * 0x100 + blue * 0x1_0000,
{
    let res = red as u32 | ((green as u32) << 8u32) | ((blue as u32) << 16u32);
    assert(res == red + green * 0x100 + blue * 0x1_0000) by (bit_vector)
        requires
            res == red as u32 | ((green as u32) << 8u32) | ((blue as u32) << 16u32),
    ;
    res
}

/// The device row under client coordinate `y`, if `y` is below the heading;
/// the index may lie past the last row.
pub fn row_at(y: i32) -> (res: Option<usize>)
    ensures
        y < ROWS_TOP ==> res is None,
        y >= ROWS_TOP ==> res == Some(((y - ROWS_TOP) / (ROW_HEIGHT as int)) as usize),
{
    if y < ROWS_TOP {
        None
    } else {
        Some(((y - ROWS_TOP) / ROW_HEIGHT) as usize)
    }
}

/// Top of the device row with the given index.
pub open spec fn row_top_value(index: int) -> int {
    ROWS_TOP + index * ROW_HEIGHT
}

/// Top of the device row with the given index, in client coordinates.
pub fn row_top(index: usize) -> (res: i32)
    requires
        ROWS_TOP + index * ROW_HEIGHT <= i32::MAX,
    ensures
        res == row_top_value(index as int),
{
    ROWS_TOP + index as i32 * ROW_HEIGHT
}

/// A 16-bit word read as a two's-complement signed number.
pub open spec fn signed_word(w: int) -> int {
    if w >= 0x8000 {
        w - 0x1_0000
    } else {
        w
    }
}

/// The signed x coordinate packed into the low word of a message `lParam`.
pub fn lparam_x(l_param: isize) -> (res: i32)
    ensures
        res == signed_word(l_param as int % 0x1_0000),
{
    let l = l_param as i64;
    let w = (l as u16) as i16 as i32;
    assert(w == if l % 0x1_0000 >= 0x8000 {
        l % 0x1_0000 - 0x1_0000
    } else {
        l % 0x1_0000 - 0
    }) by (bit_vector)
        requires
            w == (l as u16) as i16 as i32,
    ;
    w
}

/// The signed y coordinate packed into the high word of the low 32 bits of a
/// message `lParam`.
pub fn lparam_y(l_param: isize) -> (res: i32)
    ensures
        res == signed_word((l_param as int / 0x1_0000) % 0x1_0000),
{
    let l = l_param as i64;
    let w = ((l >> 16u32) as u16) as i16 as i32;
    assert(w == if (l / 0x1_0000) % 0x1_0000 >= 0x8000 {
        (l / 0x1_0000) % 0x1_0000 - 0x1_0000
    } else {
        (l / 0x1_0000) % 0x1_0000 - 0
    }) by (bit_vector)
        requires
            w == ((l >> 16u32) as u16) as i16 as i32,
    ;
    w
}

/// What a key press in the rename editor does: `Some(true)` saves the new
/// name (Enter), `Some(false)` cancels (Escape), `None` leaves the editor
/// to handle the message.
pub fn edit_key_action(message: u32, w_param: usize) -> (res: Option<bool>)
    ensures
        res == if message == WM_KEYDOWN && w_param == VK_RETURN {
            Some(true)
        } else if message == WM_KEYDOWN && w_param == VK_ESCAPE {
            Some(false)
        } else {
            None
        },
{
    if message == WM_KEYDOWN && w_param == VK_RETURN {
        Some(true)
    } else if message == WM_KEYDOWN && w_param == VK_ESCAPE {
        Some(false)
    } else {
        None
    }
}

/// The status line: `Pressed: ` while an input is held down, `Last button: `
/// otherwise, followed by the last button.
pub fn status_text(any_pressed: bool, last_button: &str) -> (res: String)
    ensures
        res@ == (if any_pressed {
            "Pressed: "@
        } else {
            "Last button: "@
        }) + last_button@,
{
    let mut s = String::new();
    if any_pressed {
        s.append("Pressed: ");
    } else {
        s.append("Last button: ");
    }
    s.append(last_button);
    s
}

/// The window title, which names the last button.
pub fn window_title(last_button: &str) -> (res: String)
    ensures
        res@ == "PressNots - "@ + last_button@,
{
    let mut s = String::new();
    s.append("PressNots - ");
    s.append(last_button);
    s
}

/// The state key of a button of the low-level mouse hook: `mouse:` and the
/// button.
pub open spec fn mouse_key_text(button: Seq<char>) -> Seq<char> {
    "mouse:"@ + button
}

/// The state key of a button of the low-level mouse hook.
pub fn mouse_ui_key(button: &str) -> (res: String)
    ensures
        res@ == mouse_key_text(button@),
{
    let mut s = String::new();
    s.append("mouse:");
    s.append(button);
    s
}

/// The state key of a key of a keyboard: `keyboard:`, the device handle in
/// lower-case hex, `:` and the key identity.
pub open spec fn keyboard_key_text(device: usize, key: RawKeyboardEvent) -> Seq<char> {
    "keyboard:"@ + hex_padded(device as nat, 1, false) + seq![':'] + identity_text(key)
}

/// The state key of a key of a keyboard.
pub fn keyboard_ui_key(device: usize, key: RawKeyboardEvent) -> (res: String)
    ensures
        res@ == keyboard_key_text(device, key),
{
    let mut s = String::new();
    s.append("keyboard:");
    push_hex(&mut s, device as u64, 1, false);
    push_char(&mut s, ':');
    let identity = key.identity();
    s.append(identity.as_str());
    s
}

/// The state key of a named HID button: `hid:`, the device handle in
/// lower-case hex, `:` and the button name.
pub open spec fn hid_key_text(device: usize, button: Seq<char>) -> Seq<char> {
    "hid:"@ + hex_padded(device as nat, 1, false) + seq![':'] + button
}

/// The state key of a named HID button.
pub fn hid_ui_key(device: usize, button: &str) -> (res: String)
    ensures
        res@ == hid_key_text(device, button@),
{
    let mut s = String::new();
    s.append("hid:");
    push_hex(&mut s, device as u64, 1, false);
    push_char(&mut s, ':');
    s.append(button);
    s
}

/// Where the name of a device row comes from: the key its alias is stored
/// under, and the label it shows while it has no alias.
#[derive(Debug)]
pub struct RowIdentity {
    pub key: String,
    pub default_label: String,
}

impl View for RowIdentity {
    type V = (Seq<char>, Seq<char>);

    open spec fn view(&self) -> (Seq<char>, Seq<char>) {
        (self.key@, self.default_label@)
    }
}

/// The identity of each registered device row, by device handle.
#[derive(Debug)]
pub struct DeviceRows {
    rows: Vec<(usize, RowIdentity)>,
}

impl View for DeviceRows {
    type V = Map<usize, (Seq<char>, Seq<char>)>;

    closed spec fn view(&self) -> Map<usize, (Seq<char>, Seq<char>)> {
        pairs_map(self.rows@)
    }
}

fn find_row(rows: &Vec<(usize, RowIdentity)>, handle: usize) -> (res: Option<usize>)
    ensures
        match res {
            Some(i) => i < rows.len() && rows@[i as int].0 == handle,
            None => !has_key(rows@, handle),
        },
{
    let mut i: usize = 0;
    while i < rows.len()
        invariant
            i <= rows.len(),
            forall|j: int| 0 <= j < i ==> (#[trigger] rows@[j]).0 != handle,
        decreases rows.len() - i,
    {
        if rows[i].0 == handle {
            return Some(i);
        }
        i = i + 1;
    }
    None
}

impl DeviceRows {
    #[verifier::type_invariant]
    spec fn handles_are_unique(self) -> bool {
        keys_unique(self.rows@)
    }

    /// A registry without rows.
    pub fn new() -> (res: Self)
        ensures
            res@ == Map::<usize, (Seq<char>, Seq<char>)>::empty(),
    {
        let res = DeviceRows { rows: Vec::new() };
        assert(pairs_map(res.rows@) =~= Map::<usize, (Seq<char>, Seq<char>)>::empty());
        res
    }

    /// Records the identity of the row of `handle`, replacing the one it had.
    pub fn register(&mut self, handle: usize, identity: RowIdentity)
        ensures
            final(self)@ == old(self)@.insert(handle, identity@),
    {
        proof {
            use_type_invariant(&*self);
        }
        let mut rows: Vec<(usize, RowIdentity)> = Vec::new();
        std::mem::swap(&mut rows, &mut self.rows);
        let ghost before = rows@;
        match find_row(&rows, handle) {
            Some(i) => {
                proof {
                    lemma_pairs_map_remove(rows@, i as int);
                }
                rows.remove(i);
            },
            None => {
                assert(pairs_map(rows@) =~= pairs_map(before).remove(handle));
            },
        }
        assert(!has_key(rows@, handle)) by {
            if has_key(rows@, handle) {
                assert(pairs_map(rows@).dom().contains(handle));
            }
        }
        proof {
            lemma_pairs_map_push(rows@, (handle, identity));
            assert(pairs_map(before).remove(handle).insert(handle, identity@) =~= pairs_map(
                before,
            ).insert(handle, identity@));
        }
        rows.push((handle, identity));
        self.rows = rows;
    }

    /// The identity of the row of `handle`, if it was registered.
    pub fn identity(&self, handle: usize) -> (res: Option<&RowIdentity>)
        ensures
            res is Some <==> self@.dom().contains(handle),
            res matches Some(r) ==> r@ == self@[handle],
    {
        proof {
            use_type_invariant(self);
        }
        match find_row(&self.rows, handle) {
            Some(i) => {
                proof {
                    lemma_pairs_map_value(self.rows@, i as int);
                }
                Some(&self.rows[i].1)
            },
            None => None,
        }
    }
}

/// The display state, the device aliases and where each row's name comes
/// from.
#[derive(Debug)]
pub struct UiModel {
    pub state: UiState,
    pub aliases: AliasStore,
    pub rows: DeviceRows,
}

/// A fresh display state that uses the given aliases.
pub fn initialize(aliases: AliasStore) -> (res: UiModel)
    ensures
        res.aliases@ == aliases@,
        res.rows@ == Map::<usize, (Seq<char>, Seq<char>)>::empty(),
        res.state.pressed_keys() == Set::<Seq<char>>::empty(),
        res.state.last_button@ == "Waiting for a button press"@,
        res.state.devices@.len() == 0,
{
    UiModel { state: UiState::default(), aliases, rows: DeviceRows::new() }
}

/// The label a device row shows: the alias stored under the device key,
/// or the default label when there is none.
pub open spec fn shown_label(
    aliases: Map<Seq<char>, Seq<char>>,
    key: Seq<char>,
    default_label: Seq<char>,
) -> Seq<char> {
    if aliases.dom().contains(key) {
        aliases[key]
    } else {
        default_label
    }
}

/// `new` is `old` with the aliases `aliases` and, when the row of `handle`
/// is registered, that row registered again under the label its key now
/// shows; the row identities, the held-down inputs and the last button are
/// unchanged.
pub open spec fn alias_applied(
    old: UiModel,
    new: UiModel,
    handle: usize,
    aliases: Map<Seq<char>, Seq<char>>,
) -> bool {
    &&& new.aliases@ == aliases
    &&& new.rows@ == old.rows@
    &&& new.state.pressed_keys() == old.state.pressed_keys()
    &&& new.state.last_button == old.state.last_button
    &&& old.rows@.dom().contains(handle) ==> device_registered(
        old.state.devices@,
        new.state.devices@,
        handle,
        shown_label(aliases, old.rows@[handle].0, old.rows@[handle].1),
    )
    &&& !old.rows@.dom().contains(handle) ==> new.state.devices == old.state.devices
}

/// Relabels the row of `handle` with the label its key shows now.
fn relabel_row(model: &mut UiModel, handle: usize)
    ensures
        alias_applied(*old(model), *final(model), handle, old(model).aliases@),
{
    match model.rows.identity(handle) {
        Some(row) => {
            let label = match model.aliases.get(row.key.as_str()) {
                Some(alias) => alias.to_owned(),
                None => row.default_label.clone(),
            };
            model.state.register_device(handle, label);
        },
        None => {},
    }
}

/// Registers a device row under the key its alias is stored under; the row
/// shows its alias, or `default_label` when the key has no alias.
pub fn register_device(model: &mut UiModel, handle: usize, key: &str, default_label: String)
    ensures
        final(model).aliases@ == old(model).aliases@,
        final(model).rows@ == old(model).rows@.insert(handle, (key@, default_label@)),
        final(model).state.pressed_keys() == old(model).state.pressed_keys(),
        final(model).state.last_button == old(model).state.last_button,
        device_registered(
            old(model).state.devices@,
            final(model).state.devices@,
            handle,
            shown_label(old(model).aliases@, key@, default_label@),
        ),
{
    model.rows.register(handle, RowIdentity { key: key.to_owned(), default_label });
    relabel_row(model, handle);
}

/// The row of `handle` is registered and its key has an alias, so that
/// resetting it to its default name changes something.
pub open spec fn resettable(model: UiModel, handle: usize) -> bool {
    &&& model.rows@.dom().contains(handle)
    &&& model.aliases@.dom().contains(model.rows@[handle].0)
}

/// Whether the context menu offers to reset the row of `handle`.
pub fn can_reset(model: &UiModel, handle: usize) -> (res: bool)
    ensures
        res == resettable(*model, handle),
{
    match model.rows.identity(handle) {
        Some(row) => model.aliases.get(row.key.as_str()).is_some(),
        None => false,
    }
}

/// Records a press or release of the input identified by `key` in the
/// window-wide state.
pub fn update_global(model: &mut UiModel, key: String, button: &str, pressed: bool)
    ensures
        final(model).aliases@ == old(model).aliases@,
        final(model).rows@ == old(model).rows@,
        pressed ==> final(model).state.pressed_keys() == old(model).state.pressed_keys().insert(
            key@,
        ),
        pressed ==> final(model).state.last_button@ == button@,
        !pressed ==> final(model).state.pressed_keys() == old(
            model,
        ).state.pressed_keys().remove(key@),
        !pressed ==> final(model).state.last_button == old(model).state.last_button,
        final(model).state.devices == old(model).state.devices,
        final(model).state.pressed_keys() == pressed_after(
            old(model).state.pressed_keys(),
            UiCall::Record { key: key@, button: button@, pressed },
        ),
{
    model.state.record(key, button, pressed);
}

/// Records a press or release of `button` on the row of `device`.
pub fn update_device(model: &mut UiModel, device: usize, button: &str, pressed: bool)
    ensures
        final(model).aliases@ == old(model).aliases@,
        final(model).rows@ == old(model).rows@,
        final(model).state.pressed_keys() == old(model).state.pressed_keys(),
        final(model).state.last_button == old(model).state.last_button,
        device_button_recorded(
            old(model).state.devices@,
            final(model).state.devices@,
            device,
            button@,
            pressed,
        ),
        final(model).state.pressed_keys() == pressed_after(
            old(model).state.pressed_keys(),
            UiCall::RecordDevice { handle: device, button: button@, pressed },
        ),
{
    model.state.record_device(device, button, pressed);
}

/// An input event as the status window sees it.
pub enum UiEvent {
    /// A button of the low-level mouse hook.
    Mouse(MouseButtonEvent),
    /// A button of a Raw Input mouse.
    DeviceButton { device: usize, button: &'static str, pressed: bool },
    /// A key of a Raw Input keyboard, with the name the key is shown under.
    Keyboard { device: usize, key: RawKeyboardEvent, name: String },
    /// A transition of a named HID button.
    HidButton { device: usize, button: &'static str, pressed: bool },
}

/// What an event records window-wide: the state key, the button shown as
/// the last one, and whether it is a press.
pub open spec fn event_global(event: UiEvent) -> Option<(Seq<char>, Seq<char>, bool)> {
    match event {
        UiEvent::Mouse(e) => Some((mouse_key_text(e.button@), e.button@, e.action@ == "down"@)),
        UiEvent::DeviceButton { .. } => None,
        UiEvent::Keyboard { device, key, name } => Some(
            (keyboard_key_text(device, key), name@, key.pressed),
        ),
        UiEvent::HidButton { device, button, pressed } => Some(
            (hid_key_text(device, button@), button@, pressed),
        ),
    }
}

/// What an event records on a device row: the device, the button and
/// whether it is a press.
pub open spec fn event_device(event: UiEvent) -> Option<(usize, Seq<char>, bool)> {
    match event {
        UiEvent::Mouse(_) => None,
        UiEvent::DeviceButton { device, button, pressed } => Some((device, button@, pressed)),
        UiEvent::Keyboard { device, key, .. } => Some((device, identity_text(key), key.pressed)),
        UiEvent::HidButton { device, button, pressed } => Some((device, button@, pressed)),
    }
}

/// `new` is `old` after `event`: the window-wide inputs and the device row
/// change as `event_global` and `event_device` say, and nothing else does.
pub open spec fn event_applied(old: UiModel, new: UiModel, event: UiEvent) -> bool {
    &&& new.aliases@ == old.aliases@
    &&& new.rows@ == old.rows@
    &&& match event_global(event) {
        Some((key, button, pressed)) => {
            &&& new.state.pressed_keys() == pressed_after(
                old.state.pressed_keys(),
                UiCall::Record { key, button, pressed },
            )
            &&& new.state.last_button@ == if pressed {
                button
            } else {
                old.state.last_button@
            }
        },
        None => {
            &&& new.state.pressed_keys() == old.state.pressed_keys()
            &&& new.state.last_button == old.state.last_button
        },
    }
    &&& match event_device(event) {
        Some((device, button, pressed)) => device_button_recorded(
            old.state.devices@,
            new.state.devices@,
            device,
            button,
            pressed,
        ),
        None => new.state.devices == old.state.devices,
    }
}

/// Updates the display state for one input event.
pub fn apply_event(model: &mut UiModel, event: UiEvent)
    ensures
        event_applied(*old(model), *final(model), event),
{
    proof {
        reveal_strlit("down");
    }
    match event {
        UiEvent::Mouse(e) => {
            let pressed = same_text(e.action, "down");
            update_global(model, mouse_ui_key(e.button), e.button, pressed);
        },
        UiEvent::DeviceButton { device, button, pressed } => {
            update_device(model, device, button, pressed);
        },
        UiEvent::Keyboard { device, key, name } => {
            update_global(model, keyboard_ui_key(device, key), name.as_str(), key.pressed);
            let identity = key.identity();
            update_device(model, device, identity.as_str(), key.pressed);
        },
        UiEvent::HidButton { device, button, pressed } => {
            update_global(model, hid_ui_key(device, button), button, pressed);
            update_device(model, device, button, pressed);
        },
    }
}

/// Renames the device of the row of `handle` (see `AliasStore::rename`)
/// and relabels the row; `false`, with nothing changed, when no row with
/// that handle was registered.
pub fn rename_device(model: &mut UiModel, handle: usize, alias: &str) -> (res: bool)
    ensures
        res == old(model).rows@.dom().contains(handle),
        !res ==> *final(model) == *old(model),
        res ==> alias_applied(
            *old(model),
            *final(model),
            handle,
            renamed(old(model).aliases@, old(model).rows@[handle].0, alias@),
        ),
{
    let key = match model.rows.identity(handle) {
        Some(row) => row.key.clone(),
        None => return false,
    };
    model.aliases.rename(key.as_str(), alias);
    relabel_row(model, handle);
    true
}

/// Sets the alias of `key` back to `previous` exactly (`None`: no alias)
/// and relabels the row of `handle`, undoing a change whose saving failed.
pub fn revert_alias_change(model: &mut UiModel, handle: usize, key: &str, previous: Option<&str>)
    ensures
        alias_applied(
            *old(model),
            *final(model),
            handle,
            match previous {
                Some(p) => old(model).aliases@.insert(key@, p@),
                None => old(model).aliases@.remove(key@),
            },
        ),
{
    model.aliases.restore(key, previous);
    relabel_row(model, handle);
}

/// An alias removed by a reset, kept so that the reset can be undone.
#[derive(Debug)]
pub struct ResetAlias {
    pub handle: usize,
    pub key: String,
    pub alias: String,
}

/// Resets the device of the row of `handle` to its default name. A row that
/// is not registered, or whose key has no alias, is left alone and gives
/// `None`; otherwise the alias is removed, the row relabelled, and the
/// removed alias handed back.
pub fn reset_device_alias(model: &mut UiModel, handle: usize) -> (res: Option<ResetAlias>)
    ensures
        !resettable(*old(model), handle) ==> res is None && *final(model) == *old(model),
        resettable(*old(model), handle) ==> {
            let key = old(model).rows@[handle].0;
            &&& res matches Some(r) && r.handle == handle && r.key@ == key && r.alias@ == old(
                model,
            ).aliases@[key]
            &&& alias_applied(*old(model), *final(model), handle, old(model).aliases@.remove(key))
        },
{
    let key = match model.rows.identity(handle) {
        Some(row) => row.key.clone(),
        None => return None,
    };
    let current = match model.aliases.get(key.as_str()) {
        Some(a) => a.to_owned(),
        None => return None,
    };
    let ghost empty: Seq<char> = Seq::empty();
    assert(trimmed(empty) =~= empty);
    assert(""@ =~= empty) by {
        reveal_strlit("");
    }
    model.aliases.rename(key.as_str(), "");
    assert(renamed(old(model).aliases@, key@, ""@) == old(model).aliases@.remove(key@));
    relabel_row(model, handle);
    Some(ResetAlias { handle, key, alias: current })
}

/// Undoes a reset by renaming the device back to the removed alias (see
/// `AliasStore::rename`) and relabelling its row; the result is the alias
/// the key had before, so that the undo can be reverted when saving fails.
pub fn undo_reset(model: &mut UiModel, reset: &ResetAlias) -> (previous: Option<String>)
    ensures
        previous is Some <==> old(model).aliases@.dom().contains(reset.key@),
        previous matches Some(p) ==> p@ == old(model).aliases@[reset.key@],
        alias_applied(
            *old(model),
            *final(model),
            reset.handle,
            renamed(old(model).aliases@, reset.key@, reset.alias@),
        ),
{
    let previous = match model.aliases.get(reset.key.as_str()) {
        Some(p) => Some(p.to_owned()),
        None => None,
    };
    model.aliases.rename(reset.key.as_str(), reset.alias.as_str());
    relabel_row(model, reset.handle);
    previous
}

/// The reset history after a reset: the reset when its saving succeeded,
/// the history as it was otherwise.
pub fn history_after_reset(current: Option<ResetAlias>, reset: ResetAlias, saved: bool) -> (res:
    Option<ResetAlias>)
    ensures
        saved ==> res == Some(reset),
        !saved ==> res == current,
{
    if saved {
        Some(reset)
    } else {
        current
    }
}

/// The reset history after an undo of `reset`: empty when saving succeeded,
/// the reset again otherwise, so that the undo can be retried.
pub fn history_after_undo(reset: ResetAlias, saved: bool) -> (res: Option<ResetAlias>)
    ensures
        saved ==> res is None,
        !saved ==> res == Some(reset),
{
    if saved {
        None
    } else {
        Some(reset)
    }
}

} // verus!
