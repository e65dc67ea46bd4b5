//! The shared record both processes map: one permission flag, the active
//! layout's display name, and eleven monitored key slots, each holding an
//! immutable physical identifier, a pressed flag and a short label. The
//! model carries each text field's raw bytes, so the record's byte image is
//! a function of the model; every write path truncates text instead of
//! overflowing and silently ignores identifiers outside the closed
//! monitored set.

use vstd::prelude::*;
use vstd::string::StringSliceAdditionalSpecFns;

use crate::keymap::{
    slot_for, slot_id, spec_position_slot, spec_slot_for, spec_slot_id, SLOT_COUNT,
};
use crate::text_buf::{spec_stored_bytes, text_of, TextBuf};

verus! {

/// Capacity of the layout-name field, terminator included.
pub const LAYOUT_NAME_BYTES: usize = 64;

/// Capacity of one key-label field, terminator included.
pub const LABEL_BYTES: usize = 8;

/// Mathematical model of the key slots: the pressed flag and the raw label
/// field bytes of each of the eleven monitored keys, in slot order. The
/// label text a reader sees is `text_of` the field.
#[verifier::ext_equal]
pub struct KeyStatesView {
    pub pressed: Seq<bool>,
    pub labels: Seq<Seq<u8>>,
}

impl KeyStatesView {
    pub open spec fn wf(self) -> bool {
        &&& self.pressed.len() == SLOT_COUNT as int
        &&& self.labels.len() == SLOT_COUNT as int
        &&& forall|i: int|
            0 <= i < SLOT_COUNT as int ==> (#[trigger] self.labels[i]).len() == LABEL_BYTES as int
        &&& forall|i: int|
            0 <= i < SLOT_COUNT as int ==> (#[trigger] self.labels[i])[LABEL_BYTES as int - 1]
                == 0
    }

    /// The model after slot `i`'s pressed flag is set to `p`.
    pub open spec fn with_pressed(self, i: int, p: bool) -> Self {
        KeyStatesView { pressed: self.pressed.update(i, p), labels: self.labels }
    }

    /// The model after slot `i`'s label is set to `t`.
    pub open spec fn with_label(self, i: int, t: Seq<u8>) -> Self {
        KeyStatesView { pressed: self.pressed, labels: self.labels.update(i, t) }
    }

    /// The pressed state read back for an identifier: its slot's flag, or
    /// false outside the monitored set.
    pub open spec fn pressed_of(self, id: u32) -> bool {
        match spec_slot_for(id) {
            Some(i) => self.pressed[i as int],
            None => false,
        }
    }
}

/// All flags clear, all label fields zero.
pub open spec fn spec_init_keys() -> KeyStatesView {
    KeyStatesView {
        pressed: Seq::new(SLOT_COUNT as nat, |i: int| false),
        labels: Seq::new(SLOT_COUNT as nat, |i: int| Seq::new(LABEL_BYTES as nat, |j: int| 0u8)),
    }
}

/// Idempotence law: setting one key's pressed state twice to the same value
/// leaves the slots exactly as a single call leaves them.
pub proof fn lemma_set_pressed_idempotent(v: KeyStatesView, i: int, p: bool)
    requires
        0 <= i < v.pressed.len(),
    ensures
        v.with_pressed(i, p).with_pressed(i, p) == v.with_pressed(i, p),
{
    assert(v.pressed.update(i, p).update(i, p) =~= v.pressed.update(i, p));
    assert(v.with_pressed(i, p).with_pressed(i, p) =~= v.with_pressed(i, p));
}

/// One monitored key slot.
struct KeySlot {
    physical_id: u32,
    pressed: bool,
    label: TextBuf<LABEL_BYTES>,
}

/// The fixed table of eleven monitored key slots.
pub struct KeyStates {
    slots: Vec<KeySlot>,
}

impl View for KeyStates {
    type V = KeyStatesView;

    closed spec fn view(&self) -> KeyStatesView {
        KeyStatesView {
            pressed: Seq::new(SLOT_COUNT as nat, |i: int| self.slots@[i].pressed),
            labels: Seq::new(SLOT_COUNT as nat, |i: int| self.slots@[i].label.raw()),
        }
    }
}

impl KeyStates {
    pub closed spec fn wf(self) -> bool {
        &&& self.slots@.len() == SLOT_COUNT as int
        &&& forall|i: int|
            0 <= i < SLOT_COUNT as int ==> (#[trigger] self.slots@[i]).physical_id == spec_slot_id(
                i,
            )
        &&& forall|i: int| 0 <= i < SLOT_COUNT as int ==> (#[trigger] self.slots@[i]).label.wf()
    }

    /// A well-formed slot table has a well-formed model.
    pub proof fn lemma_view_wf(self)
        requires
            self.wf(),
        ensures
            self@.wf(),
    {
    }

    /// A fresh slot table: the fixed identifiers in slot order, nothing
    /// pressed, no labels.
    pub fn new() -> (r: Self)
        ensures
            r.wf(),
            r@ == spec_init_keys(),
    {
        let mut slots: Vec<KeySlot> = Vec::new();
        let mut i: usize = 0;
        while i < SLOT_COUNT
            invariant
                slots@.len() == i as int,
                i <= SLOT_COUNT,
                forall|j: int|
                    0 <= j < i as int ==> {
                        &&& (#[trigger] slots@[j]).physical_id == spec_slot_id(j)
                        &&& slots@[j].label.wf()
                        &&& slots@[j].pressed == false
                        &&& slots@[j].label.raw() == Seq::new(
                            LABEL_BYTES as nat,
                            |q: int| 0u8,
                        )
                    },
            decreases SLOT_COUNT as int - i as int,
        {
            slots.push(KeySlot { physical_id: slot_id(i), pressed: false, label: TextBuf::empty() });
            i += 1;
        }
        let r = KeyStates { slots };
        proof {
            assert(r@.pressed =~= spec_init_keys().pressed);
            assert(r@.labels =~= spec_init_keys().labels);
            assert(r@ =~= spec_init_keys());
        }
        r
    }

    /// Record a press or release for a physical identifier; identifiers
    /// outside the monitored set are ignored, never an error.
    pub fn set_key_state(&mut self, keycode: u32, pressed: bool)
        requires
            old(self).wf(),
        ensures
            final(self).wf(),
            spec_slot_for(keycode) matches Some(i) ==> final(self)@ == old(self)@.with_pressed(
                i as int,
                pressed,
            ),
            spec_slot_for(keycode) is None ==> final(self)@ == old(self)@,
    {
        match slot_for(keycode) {
            Some(i) => {
                let slot = &mut self.slots[i];
                slot.pressed = pressed;
                proof {
                    assert(self@.pressed =~= old(self)@.pressed.update(i as int, pressed));
                    assert(self@.labels =~= old(self)@.labels);
                    assert(self@ =~= old(self)@.with_pressed(i as int, pressed));
                }
            },
            None => {},
        }
    }

    /// Read back the pressed state of a physical identifier; false outside
    /// the monitored set.
    pub fn get_key_state(&self, keycode: u32) -> (r: bool)
        requires
            self.wf(),
        ensures
            r == self@.pressed_of(keycode),
    {
        match slot_for(keycode) {
            Some(i) => self.slots[i].pressed,
            None => false,
        }
    }

    /// Set the pressed flag of slot `i` directly.
    pub fn set_pressed_at(&mut self, i: usize, pressed: bool)
        requires
            old(self).wf(),
            i < SLOT_COUNT,
        ensures
            final(self).wf(),
            final(self)@ == old(self)@.with_pressed(i as int, pressed),
    {
        let slot = &mut self.slots[i];
        slot.pressed = pressed;
        proof {
            assert(self@.pressed =~= old(self)@.pressed.update(i as int, pressed));
            assert(self@.labels =~= old(self)@.labels);
            assert(self@ =~= old(self)@.with_pressed(i as int, pressed));
        }
    }

    /// The pressed flag of slot `i`.
    pub fn pressed_at(&self, i: usize) -> (r: bool)
        requires
            self.wf(),
            i < SLOT_COUNT,
        ensures
            r == self@.pressed[i as int],
    {
        self.slots[i].pressed
    }

    /// The label text of slot `i`: its field bytes up to the first zero.
    pub fn label_at(&self, i: usize) -> (r: Vec<u8>)
        requires
            self.wf(),
            i < SLOT_COUNT,
        ensures
            r@ == text_of(self@.labels[i as int]),
    {
        self.slots[i].label.get_text()
    }

    /// One raw byte of slot `i`'s label field, zero fill and bytes past an
    /// interior NUL included.
    pub fn label_raw_byte(&self, i: usize, j: usize) -> (r: u8)
        requires
            self.wf(),
            i < SLOT_COUNT,
            j < LABEL_BYTES,
        ensures
            r == self@.labels[i as int][j as int],
    {
        self.slots[i].label.raw_byte(j)
    }

    /// Overwrite slot `i`'s label field: the label's bytes copied wholesale
    /// up to the capacity left for the terminator, then zero fill.
    pub fn set_label_at(&mut self, i: usize, label: &[u8])
        requires
            old(self).wf(),
            i < SLOT_COUNT,
        ensures
            final(self).wf(),
            final(self)@ == old(self)@.with_label(
                i as int,
                spec_stored_bytes(label@, LABEL_BYTES as int),
            ),
    {
        let slot = &mut self.slots[i];
        slot.label.set_text(label);
        proof {
            assert(self@.pressed =~= old(self)@.pressed);
            assert(self@.labels =~= old(self)@.labels.update(
                i as int,
                spec_stored_bytes(label@, LABEL_BYTES as int),
            ));
            assert(self@ =~= old(self)@.with_label(
                i as int,
                spec_stored_bytes(label@, LABEL_BYTES as int),
            ));
        }
    }
}

/// Mathematical model of the whole shared record. `layout` holds the raw
/// bytes of the layout-name field; the name a reader sees is `text_of` it.
#[verifier::ext_equal]
pub struct StateView {
    pub permission: bool,
    pub layout: Seq<u8>,
    pub keys: KeyStatesView,
}

impl StateView {
    pub open spec fn wf(self) -> bool {
        &&& self.layout.len() == LAYOUT_NAME_BYTES as int
        &&& self.layout[LAYOUT_NAME_BYTES as int - 1] == 0
        &&& self.keys.wf()
    }
}

/// The zero-initialized record a fresh region holds.
pub open spec fn spec_init_state() -> StateView {
    StateView {
        permission: false,
        layout: Seq::new(LAYOUT_NAME_BYTES as nat, |j: int| 0u8),
        keys: spec_init_keys(),
    }
}

/// The shared record, as one process-local value. Both processes map its
/// byte image; the capture side owns `permission_granted` and the pressed
/// flags, the external configuration channel owns the text fields, and the
/// render side only reads.
pub struct SharedState {
    permission_granted: bool,
    layout_name: TextBuf<LAYOUT_NAME_BYTES>,
    key_states: KeyStates,
}

impl View for SharedState {
    type V = StateView;

    closed spec fn view(&self) -> StateView {
        StateView {
            permission: self.permission_granted,
            layout: self.layout_name.raw(),
            keys: self.key_states@,
        }
    }
}

impl SharedState {
    pub closed spec fn wf(self) -> bool {
        &&& self.layout_name.wf()
        &&& self.key_states.wf()
    }

    /// A well-formed record has a well-formed model.
    pub proof fn lemma_view_wf(self)
        requires
            self.wf(),
        ensures
            self@.wf(),
    {
        self.key_states.lemma_view_wf();
    }

    /// Assemble a record from its parts: the layout name is written into
    /// its bounded field like any other text write.
    pub fn from_parts(permission: bool, layout: &[u8], keys: KeyStates) -> (r: Self)
        requires
            keys.wf(),
        ensures
            r.wf(),
            r@ == (StateView {
                permission,
                layout: spec_stored_bytes(layout@, LAYOUT_NAME_BYTES as int),
                keys: keys@,
            }),
    {
        let mut name: TextBuf<LAYOUT_NAME_BYTES> = TextBuf::empty();
        name.set_text(layout);
        let r = SharedState { permission_granted: permission, layout_name: name, key_states: keys };
        proof {
            assert(r@ =~= (StateView {
                permission,
                layout: spec_stored_bytes(layout@, LAYOUT_NAME_BYTES as int),
                keys: keys@,
            }));
        }
        r
    }

    /// A fresh, zero-initialized record: permission denied, empty layout
    /// name, nothing pressed, empty labels.
    pub fn new() -> (r: Self)
        ensures
            r.wf(),
            r@ == spec_init_state(),
    {
        let r = SharedState {
            permission_granted: false,
            layout_name: TextBuf::empty(),
            key_states: KeyStates::new(),
        };
        proof {
            assert(r@ =~= spec_init_state());
        }
        r
    }

    /// Overwrite the active layout's display name from raw bytes: the
    /// name's bytes copied wholesale up to the capacity left for the
    /// terminator, then zero fill.
    pub fn set_layout_bytes(&mut self, name: &[u8])
        requires
            old(self).wf(),
        ensures
            final(self).wf(),
            final(self)@ == (StateView {
                layout: spec_stored_bytes(name@, LAYOUT_NAME_BYTES as int),
                ..old(self)@
            }),
    {
        self.layout_name.set_text(name);
        proof {
            assert(self@ =~= (StateView {
                layout: spec_stored_bytes(name@, LAYOUT_NAME_BYTES as int),
                ..old(self)@
            }));
        }
    }

    /// Overwrite the active layout's display name: the name's bytes copied
    /// wholesale up to the capacity left for the terminator, then zero
    /// fill. Never fails; oversized input is truncated.
    pub fn set_layout_name(&mut self, name: &str)
        requires
            old(self).wf(),
        ensures
            final(self).wf(),
            final(self)@ == (StateView {
                layout: spec_stored_bytes(name.spec_bytes(), LAYOUT_NAME_BYTES as int),
                ..old(self)@
            }),
    {
        self.set_layout_bytes(name.as_bytes());
    }

    /// One raw byte of the layout-name field, zero fill and bytes past an
    /// interior NUL included.
    pub fn layout_raw_byte(&self, j: usize) -> (r: u8)
        requires
            self.wf(),
            j < LAYOUT_NAME_BYTES,
        ensures
            r == self@.layout[j as int],
    {
        self.layout_name.raw_byte(j)
    }

    /// Read the active layout's display name, up to the field's first zero
    /// byte; empty when never set.
    pub fn get_layout_name(&self) -> (r: Vec<u8>)
        requires
            self.wf(),
        ensures
            r@ == text_of(self@.layout),
    {
        self.layout_name.get_text()
    }

    /// Record a press or release for a physical identifier: an O(1) update
    /// of the identifier's fixed slot; identifiers outside the monitored
    /// set are ignored, never an error.
    pub fn set_key_pressed(&mut self, physical_id: u32, pressed: bool)
        requires
            old(self).wf(),
        ensures
            final(self).wf(),
            spec_slot_for(physical_id) matches Some(i) ==> final(self)@ == (StateView {
                keys: old(self)@.keys.with_pressed(i as int, pressed),
                ..old(self)@
            }),
            spec_slot_for(physical_id) is None ==> final(self)@ == old(self)@,
    {
        self.key_states.set_key_state(physical_id, pressed);
        proof {
            if spec_slot_for(physical_id) is Some {
                assert(self@ =~= (StateView {
                    keys: old(self)@.keys.with_pressed(
                        spec_slot_for(physical_id)->Some_0 as int,
                        pressed,
                    ),
                    ..old(self)@
                }));
            } else {
                assert(self@ =~= old(self)@);
            }
        }
    }

    /// Read back the pressed state of a physical identifier; false outside
    /// the monitored set.
    pub fn get_key_pressed(&self, physical_id: u32) -> (r: bool)
        requires
            self.wf(),
        ensures
            r == self@.keys.pressed_of(physical_id),
    {
        self.key_states.get_key_state(physical_id)
    }

    /// Configure the label shown for one of the eight non-special keys,
    /// addressed by its position name; unrecognized names are ignored.
    pub fn set_key_label(&mut self, key_position: &str, label: &str)
        requires
            old(self).wf(),
        ensures
            final(self).wf(),
            spec_position_slot(key_position.spec_bytes()) matches Some(i) ==> final(self)@
                == (StateView {
                keys: old(self)@.keys.with_label(
                    i as int,
                    spec_stored_bytes(label.spec_bytes(), LABEL_BYTES as int),
                ),
                ..old(self)@
            }),
            spec_position_slot(key_position.spec_bytes()) is None ==> final(self)@ == old(self)@,
    {
        let code = crate::keymap::position_code(key_position);
        match code {
            Some(id) => {
                match slot_for(id) {
                    Some(i) => {
                        self.key_states.set_label_at(i, label.as_bytes());
                    },
                    None => {},
                }
            },
            None => {},
        }
    }

    /// Read back the configured label of a position; the placeholder
    /// question mark for unrecognized position names.
    pub fn get_key_label(&self, key_position: &str) -> (r: Vec<u8>)
        requires
            self.wf(),
        ensures
            spec_position_slot(key_position.spec_bytes()) matches Some(i) ==> r@
                == text_of(self@.keys.labels[i as int]),
            spec_position_slot(key_position.spec_bytes()) is None ==> r@ == seq![63u8],
    {
        let code = crate::keymap::position_code(key_position);
        match code {
            Some(id) => {
                match slot_for(id) {
                    Some(i) => {
                        return self.key_states.label_at(i);
                    },
                    None => {},
                }
            },
            None => {},
        }
        // the "?" placeholder
        let mut r: Vec<u8> = Vec::new();
        r.push(63);
        proof {
            assert(r@ =~= seq![63u8]);
        }
        r
    }

    /// The pressed flag of slot `i`.
    pub fn pressed_at(&self, i: usize) -> (r: bool)
        requires
            self.wf(),
            i < SLOT_COUNT,
        ensures
            r == self@.keys.pressed[i as int],
    {
        self.key_states.pressed_at(i)
    }

    /// The label text of slot `i`: its field bytes up to the first zero.
    pub fn label_at(&self, i: usize) -> (r: Vec<u8>)
        requires
            self.wf(),
            i < SLOT_COUNT,
        ensures
            r@ == text_of(self@.keys.labels[i as int]),
    {
        self.key_states.label_at(i)
    }

    /// One raw byte of slot `i`'s label field, zero fill and bytes past an
    /// interior NUL included.
    pub fn label_raw_byte(&self, i: usize, j: usize) -> (r: u8)
        requires
            self.wf(),
            i < SLOT_COUNT,
            j < LABEL_BYTES,
        ensures
            r == self@.keys.labels[i as int][j as int],
    {
        self.key_states.label_raw_byte(i, j)
    }

    /// The permission flag as last written.
    pub fn permission(&self) -> (r: bool)
        ensures
            r == self@.permission,
    {
        self.permission_granted
    }

    /// Write the permission flag.
    pub fn set_permission(&mut self, has_permission: bool)
        requires
            old(self).wf(),
        ensures
            final(self).wf(),
            final(self)@ == (StateView { permission: has_permission, ..old(self)@ }),
    {
        self.permission_granted = has_permission;
        proof {
            assert(self@ =~= (StateView { permission: has_permission, ..old(self)@ }));
        }
    }
}

/// External permission setter: the authoritative write path into the
/// permission flag when a host permission monitor is supplied in place of
/// the fallback polling loop. Whichever path writes last wins.
pub fn set_accessibility_permission(state: &mut SharedState, has_permission: bool)
    requires
        old(state).wf(),
    ensures
        final(state).wf(),
        final(state)@ == (StateView { permission: has_permission, ..old(state)@ }),
{
    state.set_permission(has_permission)
}

/// External permission getter, for inspection.
pub fn get_accessibility_permission(state: &SharedState) -> (r: bool)
    ensures
        r == state@.permission,
{
    state.permission()
}

} // verus!
