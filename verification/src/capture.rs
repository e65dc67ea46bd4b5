//! Capture-side decision logic: the closed mapping from keys as the global
//! event subscription reports them to physical identifiers, and the
//! application of one press or release event to the shared record. The
//! capture process owns the only mutation path into the pressed flags; the
//! permission flag is written by its polling loop through the external
//! setter, at a fixed cadence, independently of event delivery.

use vstd::prelude::*;

use crate::keymap::{
    is_monitored, spec_slot_for, KEYCODE_A, KEYCODE_BACKSPACE, KEYCODE_D, KEYCODE_ESC, KEYCODE_F,
    KEYCODE_J, KEYCODE_K, KEYCODE_L, KEYCODE_S, KEYCODE_SEMICOLON, KEYCODE_SPACE,
};
use crate::shared_state::{SharedState, StateView};

verus! {

/// A key as the global event subscription reports it: one of the eleven
/// monitored physical keys, or `Other` for any key outside the closed set.
#[derive(Clone, Copy, PartialEq, Eq, Debug)]
pub enum CapturedKey {
    Escape,
    KeyA,
    KeyS,
    KeyD,
    KeyF,
    Backspace,
    KeyJ,
    KeyK,
    KeyL,
    SemiColon,
    Space,
    Other,
}

/// One delivered event: a press or release of a captured key, or anything
/// else the subscription reports (mouse movement, scrolling), which the
/// capture process ignores.
#[derive(Clone, Copy, PartialEq, Eq, Debug)]
pub enum KeyEvent {
    Press(CapturedKey),
    Release(CapturedKey),
    Other,
}

/// The physical identifier a captured key is monitored under.
pub open spec fn spec_keycode_for(key: CapturedKey) -> Option<u32> {
    match key {
        CapturedKey::Escape => Some(KEYCODE_ESC),
        CapturedKey::KeyA => Some(KEYCODE_A),
        CapturedKey::KeyS => Some(KEYCODE_S),
        CapturedKey::KeyD => Some(KEYCODE_D),
        CapturedKey::KeyF => Some(KEYCODE_F),
        CapturedKey::Backspace => Some(KEYCODE_BACKSPACE),
        CapturedKey::KeyJ => Some(KEYCODE_J),
        CapturedKey::KeyK => Some(KEYCODE_K),
        CapturedKey::KeyL => Some(KEYCODE_L),
        CapturedKey::SemiColon => Some(KEYCODE_SEMICOLON),
        CapturedKey::Space => Some(KEYCODE_SPACE),
        CapturedKey::Other => None,
    }
}

/// Map a captured key to the physical identifier it is monitored under;
/// keys outside the closed mapping yield `None` and are dropped.
pub fn keycode_for(key: &CapturedKey) -> (r: Option<u32>)
    ensures
        r == spec_keycode_for(*key),
        r matches Some(id) ==> is_monitored(id),
{
    match key {
        CapturedKey::Escape => Some(KEYCODE_ESC),
        CapturedKey::KeyA => Some(KEYCODE_A),
        CapturedKey::KeyS => Some(KEYCODE_S),
        CapturedKey::KeyD => Some(KEYCODE_D),
        CapturedKey::KeyF => Some(KEYCODE_F),
        CapturedKey::Backspace => Some(KEYCODE_BACKSPACE),
        CapturedKey::KeyJ => Some(KEYCODE_J),
        CapturedKey::KeyK => Some(KEYCODE_K),
        CapturedKey::KeyL => Some(KEYCODE_L),
        CapturedKey::SemiColon => Some(KEYCODE_SEMICOLON),
        CapturedKey::Space => Some(KEYCODE_SPACE),
        CapturedKey::Other => None,
    }
}

/// The shared record after one event is applied: the key's slot gets its
/// pressed flag set on press and cleared on release; an event whose key is
/// outside the closed mapping, or that is no key event at all, leaves the
/// record untouched.
pub open spec fn spec_after_event(v: StateView, event: KeyEvent) -> StateView {
    match event {
        KeyEvent::Press(k) => match spec_keycode_for(k) {
            Some(id) => match spec_slot_for(id) {
                Some(i) => StateView { keys: v.keys.with_pressed(i as int, true), ..v },
                None => v,
            },
            None => v,
        },
        KeyEvent::Release(k) => match spec_keycode_for(k) {
            Some(id) => match spec_slot_for(id) {
                Some(i) => StateView { keys: v.keys.with_pressed(i as int, false), ..v },
                None => v,
            },
            None => v,
        },
        KeyEvent::Other => v,
    }
}

/// Apply one delivered event to the shared record. Unrecognized platform
/// codes change nothing and raise no error.
pub fn handle_key_event(state: &mut SharedState, event: &KeyEvent)
    requires
        old(state).wf(),
    ensures
        final(state).wf(),
        final(state)@ == spec_after_event(old(state)@, *event),
{
    match event {
        KeyEvent::Press(k) => {
            match keycode_for(k) {
                Some(id) => state.set_key_pressed(id, true),
                None => {},
            }
        },
        KeyEvent::Release(k) => {
            match keycode_for(k) {
                Some(id) => state.set_key_pressed(id, false),
                None => {},
            }
        },
        KeyEvent::Other => {},
    }
}

} // verus!
