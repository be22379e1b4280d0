//! What the status window shows: which inputs are held down, globally and
//! per device, and which button was pressed last.

use vstd::prelude::*;

use crate::text::same_text;

verus! {

/// The set of distinct keys held in a vector of strings.
pub open spec fn key_set(v: Seq<String>) -> Set<Seq<char>> {
    Set::new(|k: Seq<char>| exists|i: int| 0 <= i < v.len() && #[trigger] v[i]@ == k)
}

/// No key occurs twice in `v`.
pub open spec fn distinct_keys(v: Seq<String>) -> bool {
    forall|i: int, j: int|
        0 <= i < v.len() && 0 <= j < v.len() && i != j ==> (#[trigger] v[i])@ != (
        #[trigger] v[j])@
}

/// Adds `key` to the key set held in `v`.
fn insert_key(v: &mut Vec<String>, key: String)
    ensures
        key_set(final(v)@) == key_set(old(v)@).insert(key@),
        distinct_keys(old(v)@) ==> distinct_keys(final(v)@),
{
    let mut i: usize = 0;
    while i < v.len()
        invariant
            i <= v.len(),
            forall|j: int| 0 <= j < i ==> v@[j]@ != key@,
        decreases v.len() - i,
    {
        if v[i] == key {
            assert(key_set(v@) =~= key_set(v@).insert(key@));
            return;
        }
        i = i + 1;
    }
    let ghost before = v@;
    v.push(key);
    assert forall|a: int, b: int|
        0 <= a < v@.len() && 0 <= b < v@.len() && a != b && distinct_keys(before) implies (
    #[trigger] v@[a])@ != (#[trigger] v@[b])@ by {
        if a < before.len() && b < before.len() {
            assert(v@[a] == before[a] && v@[b] == before[b]);
        }
    }
    assert forall|k: Seq<char>| #[trigger] key_set(v@).contains(k) == key_set(before).insert(
        key@,
    ).contains(k) by {
        if key_set(before).contains(k) {
            let j = choose|j: int| 0 <= j < before.len() && before[j]@ == k;
            assert(v@[j]@ == k);
        }
        if k == key@ {
            assert(v@[before.len() as int]@ == k);
        }
        if key_set(v@).contains(k) && k != key@ {
            let j = choose|j: int| 0 <= j < v@.len() && v@[j]@ == k;
            assert(j < before.len());
            assert(before[j]@ == k);
        }
    }
    assert(key_set(v@) =~= key_set(before).insert(key@));
}

/// Removes `key` from the key set held in `v`.
fn remove_key(v: &mut Vec<String>, key: &String)
    ensures
        key_set(final(v)@) == key_set(old(v)@).remove(key@),
        distinct_keys(old(v)@) ==> distinct_keys(final(v)@),
{
    let mut kept: Vec<String> = Vec::new();
    let mut i: usize = 0;
    while i < v.len()
        invariant
            i <= v.len(),
            forall|j: int| 0 <= j < kept.len() ==> (#[trigger] kept@[j])@ != key@,
            distinct_keys(v@) ==> distinct_keys(kept@),
            forall|k: Seq<char>|
                #![trigger key_set(kept@).contains(k)]
                key_set(kept@).contains(k) <==> (k != key@ && exists|j: int|
                    0 <= j < i && #[trigger] v@[j]@ == k),
        decreases v.len() - i,
    {
        let ghost before = kept@;
        if v[i] != *key {
            let s = v[i].clone();
            proof {
                if distinct_keys(v@) && key_set(before).contains(v@[i as int]@) {
                    let j = choose|j: int| 0 <= j < i && #[trigger] v@[j]@ == v@[i as int]@;
                    assert(false);
                }
            }
            kept.push(s);
            assert forall|a: int, b: int|
                0 <= a < kept@.len() && 0 <= b < kept@.len() && a != b && distinct_keys(
                    v@,
                ) implies (#[trigger] kept@[a])@ != (#[trigger] kept@[b])@ by {
                if a < before.len() && b < before.len() {
                    assert(kept@[a] == before[a] && kept@[b] == before[b]);
                } else if a < before.len() {
                    assert(kept@[a] == before[a]);
                    assert(key_set(before).contains(before[a]@));
                } else if b < before.len() {
                    assert(kept@[b] == before[b]);
                    assert(key_set(before).contains(before[b]@));
                }
            }
            assert forall|k: Seq<char>| #[trigger] key_set(kept@).contains(k) <==> (k != key@
                && exists|j: int| 0 <= j < i + 1 && #[trigger] v@[j]@ == k) by {
                if key_set(kept@).contains(k) {
                    let j = choose|j: int| 0 <= j < kept@.len() && kept@[j]@ == k;
                    if j < before.len() {
                        assert(before[j]@ == k);
                        assert(key_set(before).contains(k));
                    } else {
                        assert(v@[i as int]@ == k);
                    }
                }
                if k != key@ && exists|j: int| 0 <= j < i + 1 && #[trigger] v@[j]@ == k {
                    let j = choose|j: int| 0 <= j < i + 1 && v@[j]@ == k;
                    if j < i {
                        assert(key_set(before).contains(k));
                        let m = choose|m: int| 0 <= m < before.len() && before[m]@ == k;
                        assert(kept@[m]@ == k);
                    } else {
                        assert(kept@[before.len() as int]@ == k);
                    }
                }
            }
        } else {
            assert forall|k: Seq<char>| #[trigger] key_set(kept@).contains(k) <==> (k != key@
                && exists|j: int| 0 <= j < i + 1 && #[trigger] v@[j]@ == k) by {
                if k != key@ && exists|j: int| 0 <= j < i + 1 && #[trigger] v@[j]@ == k {
                    let j = choose|j: int| 0 <= j < i + 1 && v@[j]@ == k;
                    assert(j < i);
                }
            }
        }
        i = i + 1;
    }
    let ghost old_v = v@;
    assert forall|k: Seq<char>| #[trigger] key_set(kept@).contains(k) == key_set(old_v).remove(
        key@,
    ).contains(k) by {
        if k != key@ && key_set(old_v).contains(k) {
            let j = choose|j: int| 0 <= j < old_v.len() && old_v[j]@ == k;
            assert(v@[j]@ == k);
        }
    }
    assert(key_set(kept@) =~= key_set(old_v).remove(key@));
    *v = kept;
}

/// A set of input keys, each held once.
#[derive(Debug)]
pub struct KeySet {
    keys: Vec<String>,
}

impl View for KeySet {
    type V = Set<Seq<char>>;

    closed spec fn view(&self) -> Set<Seq<char>> {
        key_set(self.keys@)
    }
}

impl KeySet {
    #[verifier::type_invariant]
    spec fn each_key_once(self) -> bool {
        distinct_keys(self.keys@)
    }

    /// The empty set.
    pub fn new() -> (res: Self)
        ensures
            res@ == Set::<Seq<char>>::empty(),
    {
        let res = KeySet { keys: Vec::new() };
        assert(key_set(res.keys@) =~= Set::<Seq<char>>::empty());
        res
    }

    /// Adds `key`.
    pub fn insert(&mut self, key: String)
        ensures
            final(self)@ == old(self)@.insert(key@),
    {
        proof {
            use_type_invariant(&*self);
        }
        let mut keys: Vec<String> = Vec::new();
        std::mem::swap(&mut keys, &mut self.keys);
        insert_key(&mut keys, key);
        self.keys = keys;
    }

    /// Removes `key`.
    pub fn remove(&mut self, key: &str)
        ensures
            final(self)@ == old(self)@.remove(key@),
    {
        proof {
            use_type_invariant(&*self);
        }
        let mut keys: Vec<String> = Vec::new();
        std::mem::swap(&mut keys, &mut self.keys);
        let key = key.to_owned();
        remove_key(&mut keys, &key);
        self.keys = keys;
    }

    /// Whether `key` is in the set.
    pub fn contains(&self, key: &str) -> (res: bool)
        ensures
            res == self@.contains(key@),
    {
        let mut i: usize = 0;
        while i < self.keys.len()
            invariant
                i <= self.keys.len(),
                forall|j: int| 0 <= j < i ==> (#[trigger] self.keys@[j])@ != key@,
            decreases self.keys.len() - i,
        {
            if same_text(self.keys[i].as_str(), key) {
                assert(key_set(self.keys@).contains(self.keys@[i as int]@));
                return true;
            }
            i = i + 1;
        }
        false
    }

    /// Whether the set is empty.
    pub fn is_empty(&self) -> (res: bool)
        ensures
            res == (self@ == Set::<Seq<char>>::empty()),
    {
        let res = self.keys.len() == 0;
        if res {
            assert(key_set(self.keys@) =~= Set::<Seq<char>>::empty());
        } else {
            assert(key_set(self.keys@).contains(self.keys@[0]@));
        }
        res
    }
}

impl Clone for KeySet {
    fn clone(&self) -> (res: Self)
        ensures
            res@ == self@,
    {
        proof {
            use_type_invariant(self);
        }
        let mut keys: Vec<String> = Vec::new();
        let mut i: usize = 0;
        while i < self.keys.len()
            invariant
                i <= self.keys.len(),
                keys@ == self.keys@.take(i as int),
            decreases self.keys.len() - i,
        {
            keys.push(self.keys[i].clone());
            i = i + 1;
            assert(keys@ =~= self.keys@.take(i as int));
        }
        assert(keys@ =~= self.keys@);
        KeySet { keys }
    }
}

/// A call that changes the state behind the status window, as the models of
/// its arguments.
pub enum UiCall {
    /// `UiState::record`.
    Record { key: Seq<char>, button: Seq<char>, pressed: bool },
    /// `UiState::register_device`.
    RegisterDevice { handle: usize, label: Seq<char> },
    /// `UiState::record_device`.
    RecordDevice { handle: usize, button: Seq<char>, pressed: bool },
}

/// The held-down keys after `call`: a recorded press adds its key, a
/// recorded release removes it, and device calls leave them alone.
pub open spec fn pressed_after(keys: Set<Seq<char>>, call: UiCall) -> Set<Seq<char>> {
    match call {
        UiCall::Record { key, pressed, .. } => if pressed {
            keys.insert(key)
        } else {
            keys.remove(key)
        },
        _ => keys,
    }
}

/// One input device row of the status window.
#[derive(Clone, Debug)]
pub struct DeviceUiState {
    /// The Raw Input device handle.
    pub handle: usize,
    /// The text shown for the device.
    pub label: String,
    /// The buttons of this device that are held down.
    pub pressed: KeySet,
}

/// `i` is the first device in `devices` with the given handle.
pub open spec fn is_first_device(devices: Seq<DeviceUiState>, handle: usize, i: int) -> bool {
    &&& 0 <= i < devices.len()
    &&& devices[i].handle == handle
    &&& forall|j: int| 0 <= j < i ==> devices[j].handle != handle
}

/// Some device in `devices` has the given handle.
pub open spec fn has_device(devices: Seq<DeviceUiState>, handle: usize) -> bool {
    exists|i: int| 0 <= i < devices.len() && devices[i].handle == handle
}

/// `new` is `old` after registering a device row with this handle and label:
/// the first row with the handle is relabelled, or, when there is none, a
/// row with no pressed buttons is appended.
pub open spec fn device_registered(
    old: Seq<DeviceUiState>,
    new: Seq<DeviceUiState>,
    handle: usize,
    label: Seq<char>,
) -> bool {
    &&& forall|i: int|
        is_first_device(old, handle, i) ==> {
            &&& new.len() == old.len()
            &&& forall|j: int| 0 <= j < old.len() && j != i ==> new[j] == old[j]
            &&& new[i].handle == handle
            &&& new[i].label@ == label
            &&& new[i].pressed == old[i].pressed
        }
    &&& !has_device(old, handle) ==> {
        &&& new.len() == old.len() + 1
        &&& forall|j: int| 0 <= j < old.len() ==> new[j] == old[j]
        &&& new.last().handle == handle
        &&& new.last().label@ == label
        &&& new.last().pressed@ == Set::<Seq<char>>::empty()
    }
}

/// `new` is `old` after a press (or release) of `button` on the first row
/// with this handle; nothing changes when no row has the handle.
pub open spec fn device_button_recorded(
    old: Seq<DeviceUiState>,
    new: Seq<DeviceUiState>,
    handle: usize,
    button: Seq<char>,
    pressed: bool,
) -> bool {
    &&& forall|i: int|
        is_first_device(old, handle, i) ==> {
            &&& new.len() == old.len()
            &&& forall|j: int| 0 <= j < old.len() && j != i ==> new[j] == old[j]
            &&& new[i].handle == handle
            &&& new[i].label == old[i].label
            &&& new[i].pressed@ == if pressed {
                old[i].pressed@.insert(button)
            } else {
                old[i].pressed@.remove(button)
            }
        }
    &&& !has_device(old, handle) ==> new == old
}

fn find_device(devices: &Vec<DeviceUiState>, handle: usize) -> (res: Option<usize>)
    ensures
        match res {
            Some(i) => is_first_device(devices@, handle, i as int),
            None => !has_device(devices@, handle),
        },
{
    let mut i: usize = 0;
    while i < devices.len()
        invariant
            i <= devices.len(),
            forall|j: int| 0 <= j < i ==> devices@[j].handle != handle,
        decreases devices.len() - i,
    {
        if devices[i].handle == handle {
            return Some(i);
        }
        i = i + 1;
    }
    None
}

/// The state behind the status window.
#[derive(Debug)]
pub struct UiState {
    /// The keys of the inputs that are held down.
    pub pressed: KeySet,
    /// The button of the most recent press.
    pub last_button: String,
    /// The known input devices, in registration order.
    pub devices: Vec<DeviceUiState>,
}

impl UiState {
    /// The keys of the inputs that are held down.
    pub open spec fn pressed_keys(&self) -> Set<Seq<char>> {
        self.pressed@
    }
}

impl Default for UiState {
    fn default() -> (s: Self)
        ensures
            s.pressed_keys() == Set::<Seq<char>>::empty(),
            s.last_button@ == "Waiting for a button press"@,
            s.devices@.len() == 0,
    {
        UiState {
            pressed: KeySet::new(),
            last_button: "Waiting for a button press".to_owned(),
            devices: Vec::new(),
        }
    }
}

impl UiState {
    /// Records a press or release of the input identified by `key`; a press
    /// also makes `button` the last button.
    pub fn record(&mut self, key: String, button: &str, pressed: bool)
        ensures
            pressed ==> final(self).pressed_keys() == old(self).pressed_keys().insert(key@),
            pressed ==> final(self).last_button@ == button@,
            !pressed ==> final(self).pressed_keys() == old(self).pressed_keys().remove(key@),
            !pressed ==> final(self).last_button == old(self).last_button,
            final(self).devices == old(self).devices,
            final(self).pressed_keys() == pressed_after(
                old(self).pressed_keys(),
                UiCall::Record { key: key@, button: button@, pressed },
            ),
    {
        if pressed {
            self.pressed.insert(key);
            self.last_button = button.to_owned();
        } else {
            self.pressed.remove(key.as_str());
        }
    }

    /// The indicator light is on while any input is held down.
    pub fn light_is_on(&self) -> (res: bool)
        ensures
            res == (self.pressed_keys() != Set::<Seq<char>>::empty()),
    {
        !self.pressed.is_empty()
    }

    /// Adds a device row, or relabels the first row with this handle.
    pub fn register_device(&mut self, handle: usize, label: String)
        ensures
            final(self).pressed_keys() == old(self).pressed_keys(),
            final(self).last_button == old(self).last_button,
            device_registered(old(self).devices@, final(self).devices@, handle, label@),
            final(self).pressed_keys() == pressed_after(
                old(self).pressed_keys(),
                UiCall::RegisterDevice { handle, label: label@ },
            ),
    {
        match find_device(&self.devices, handle) {
            Some(i) => {
                self.devices[i].label = label;
            },
            None => {
                self.devices.push(DeviceUiState { handle, label, pressed: KeySet::new() });
            },
        }
    }

    /// Records a press or release of `button` on the first device row with
    /// this handle; an unknown handle changes nothing.
    pub fn record_device(&mut self, handle: usize, button: &str, pressed: bool)
        ensures
            final(self).pressed_keys() == old(self).pressed_keys(),
            final(self).last_button == old(self).last_button,
            device_button_recorded(
                old(self).devices@,
                final(self).devices@,
                handle,
                button@,
                pressed,
            ),
            final(self).pressed_keys() == pressed_after(
                old(self).pressed_keys(),
                UiCall::RecordDevice { handle, button: button@, pressed },
            ),
    {
        match find_device(&self.devices, handle) {
            Some(i) => {
                if pressed {
                    self.devices[i].pressed.insert(button.to_owned());
                } else {
                    self.devices[i].pressed.remove(button);
                }
            },
            None => {},
        }
    }
}

} // verus!
