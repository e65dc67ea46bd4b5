use keyvis::capture::{handle_key_event, CapturedKey, KeyEvent};
use keyvis::render::{configured_label, plan_frame, snapshot_pressed, take_snapshot};
use keyvis::shared_state::{get_accessibility_permission, set_accessibility_permission};
use keyvis::SharedState;

#[test]
fn layout_name_round_trip() {
    let mut state = SharedState::new();
    state.set_layout_name("Colemak");
    assert_eq!(state.get_layout_name(), b"Colemak".to_vec());
    state.set_layout_name("");
    assert_eq!(state.get_layout_name(), Vec::<u8>::new());
}

#[test]
fn layout_name_truncates_to_capacity() {
    let mut state = SharedState::new();
    let long = "x".repeat(100);
    state.set_layout_name(&long);
    assert_eq!(state.get_layout_name(), long.as_bytes()[..63].to_vec());
}

#[test]
fn key_label_round_trip() {
    let mut state = SharedState::new();
    state.set_key_label("s", "R");
    assert_eq!(state.get_key_label("s"), b"R".to_vec());
    state.set_key_label(";", "O");
    assert_eq!(state.get_key_label(";"), b"O".to_vec());
    // untouched positions stay empty
    assert_eq!(state.get_key_label("a"), Vec::<u8>::new());
}

#[test]
fn key_label_truncates_to_capacity() {
    let mut state = SharedState::new();
    state.set_key_label("f", "overlong");
    assert_eq!(state.get_key_label("f"), b"overlon".to_vec());
}

#[test]
fn unknown_position_is_ignored_and_reads_placeholder() {
    let mut state = SharedState::new();
    state.set_key_label("z", "X");
    assert_eq!(state.get_key_label("z"), b"?".to_vec());
    for pos in ["a", "s", "d", "f", "j", "k", "l", ";"] {
        assert_eq!(state.get_key_label(pos), Vec::<u8>::new());
    }
}

#[test]
fn fresh_region_escape_press_and_reset() {
    // a fresh record is zero-initialized
    let mut state = SharedState::new();
    assert!(!state.get_key_pressed(53));
    state.set_key_pressed(53, true);
    assert!(state.get_key_pressed(53));
    // a recreated region starts from zero again
    let fresh = SharedState::new();
    assert!(!fresh.get_key_pressed(53));
}

#[test]
fn set_key_pressed_is_idempotent() {
    let mut once = SharedState::new();
    once.set_key_pressed(38, true);
    let mut twice = SharedState::new();
    twice.set_key_pressed(38, true);
    twice.set_key_pressed(38, true);
    assert_eq!(once.to_bytes(), twice.to_bytes());
    twice.set_key_pressed(38, false);
    twice.set_key_pressed(38, false);
    assert_eq!(twice.to_bytes(), SharedState::new().to_bytes());
}

#[test]
fn unknown_identifier_is_ignored() {
    let mut state = SharedState::new();
    let before = state.to_bytes();
    state.set_key_pressed(99, true);
    assert_eq!(state.to_bytes(), before);
    assert!(!state.get_key_pressed(99));
}

#[test]
fn unrecognized_event_changes_nothing() {
    let mut state = SharedState::new();
    state.set_key_pressed(49, true);
    let before = state.to_bytes();
    handle_key_event(&mut state, &KeyEvent::Press(CapturedKey::Other));
    handle_key_event(&mut state, &KeyEvent::Release(CapturedKey::Other));
    handle_key_event(&mut state, &KeyEvent::Other);
    assert_eq!(state.to_bytes(), before);
}

#[test]
fn events_drive_pressed_flags() {
    let mut state = SharedState::new();
    handle_key_event(&mut state, &KeyEvent::Press(CapturedKey::KeyF));
    assert!(state.get_key_pressed(3));
    handle_key_event(&mut state, &KeyEvent::Release(CapturedKey::KeyF));
    assert!(!state.get_key_pressed(3));
    handle_key_event(&mut state, &KeyEvent::Press(CapturedKey::Backspace));
    assert!(state.get_key_pressed(51));
}

#[test]
fn permission_setter_is_observed_by_snapshots() {
    let mut state = SharedState::new();
    assert!(!get_accessibility_permission(&state));
    set_accessibility_permission(&mut state, true);
    let snap = take_snapshot(&state);
    assert!(snap.permission_granted);
    set_accessibility_permission(&mut state, false);
    let snap2 = take_snapshot(&state);
    assert!(!snap2.permission_granted);
}

#[test]
fn render_side_never_mutates_the_record() {
    let mut state = SharedState::new();
    state.set_layout_name("Colemak");
    state.set_key_label("s", "r");
    state.set_key_pressed(53, true);
    set_accessibility_permission(&mut state, true);
    let before = state.to_bytes();
    // every render-side path takes the record immutably
    let snap = take_snapshot(&state);
    assert!(snapshot_pressed(&snap, 53));
    assert!(!snapshot_pressed(&snap, 99));
    let _ = configured_label(&state, 1);
    let _ = state.get_layout_name();
    let _ = state.get_key_label("s");
    let _ = state.get_key_pressed(53);
    let _ = plan_frame(snap.permission_granted, false);
    assert_eq!(state.to_bytes(), before);
}

#[test]
fn snapshot_copies_every_field() {
    let mut state = SharedState::new();
    state.set_layout_name("QWERTY");
    state.set_key_label("j", "n");
    state.set_key_pressed(0, true);
    let snap = take_snapshot(&state);
    assert_eq!(snap.layout_name, b"QWERTY".to_vec());
    assert_eq!(snap.pressed.len(), 11);
    assert!(snap.pressed[1]);
    assert_eq!(snap.labels.len(), 11);
    assert_eq!(snap.labels[6], b"n".to_vec());
}

#[test]
fn frame_plan_reacts_to_permission_transitions() {
    let p = plan_frame(true, false);
    assert!(p.resize);
    assert!(!p.show_banner);
    let q = plan_frame(false, false);
    assert!(!q.resize);
    assert!(q.show_banner);
    let r = plan_frame(false, true);
    assert!(r.resize);
    assert!(r.show_banner);
}

#[test]
fn configured_label_prefers_layout_over_default() {
    let mut state = SharedState::new();
    // nothing configured: fall back to the default
    assert_eq!(configured_label(&state, 1), None);
    state.set_key_label("s", "r");
    assert_eq!(configured_label(&state, 1), Some("R".to_string()));
    // the placeholder directs back to the default
    state.set_key_label("s", "?");
    assert_eq!(configured_label(&state, 1), None);
    // identifiers outside the set have no configured label
    assert_eq!(configured_label(&state, 99), None);
}

#[test]
fn configured_label_uppercases_unicode() {
    let mut state = SharedState::new();
    state.set_key_label("s", "\u{e9}");
    assert_eq!(state.get_key_label("s"), "\u{e9}".as_bytes().to_vec());
    assert_eq!(configured_label(&state, 1), Some("\u{c9}".to_string()));
    state.set_key_label("k", "\u{3c9}");
    assert_eq!(configured_label(&state, 40), Some("\u{3a9}".to_string()));
}

#[test]
fn interior_nul_bytes_are_stored_wholesale() {
    let mut state = SharedState::new();
    // a reader stops at the first NUL, but the field keeps the bytes
    state.set_layout_name("a\0b");
    assert_eq!(state.get_layout_name(), b"a".to_vec());
    assert_eq!(state.layout_raw_byte(0), b'a');
    assert_eq!(state.layout_raw_byte(1), 0);
    assert_eq!(state.layout_raw_byte(2), b'b');
    assert_eq!(state.layout_raw_byte(63), 0);
    state.set_key_label("f", "x\0y");
    assert_eq!(state.get_key_label("f"), b"x".to_vec());
    // slot 4 takes configured labels under the position name "f"
    assert_eq!(state.label_raw_byte(4, 0), b'x');
    assert_eq!(state.label_raw_byte(4, 1), 0);
    assert_eq!(state.label_raw_byte(4, 2), b'y');
    assert_eq!(state.label_raw_byte(4, 7), 0);
    // the bytes past the NUL survive a trip through the region image
    let parsed = SharedState::from_bytes(&state.to_bytes());
    assert_eq!(parsed.layout_raw_byte(2), b'b');
    assert_eq!(parsed.label_raw_byte(4, 2), b'y');
}
