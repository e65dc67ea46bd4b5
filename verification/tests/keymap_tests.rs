use keyvis::capture::{keycode_for, CapturedKey};
use keyvis::keymap::{default_label, position_code, qwerty_hint, slot_for, slot_id, SLOT_COUNT};

const MONITORED: [u32; 11] = [53, 0, 1, 2, 3, 51, 38, 40, 37, 41, 49];

#[test]
fn every_monitored_identifier_has_a_distinct_slot() {
    let mut seen = [false; 11];
    for id in MONITORED {
        let slot = slot_for(id).expect("monitored identifier must map");
        assert!(slot < SLOT_COUNT);
        assert!(!seen[slot], "two identifiers share slot {}", slot);
        seen[slot] = true;
        // the slot table inverts the mapping: the assignment is stable
        assert_eq!(slot_id(slot), id);
    }
    assert!(seen.iter().all(|&s| s));
}

#[test]
fn unknown_identifiers_map_to_none() {
    for id in [4, 5, 36, 39, 42, 50, 52, 54, 100, u32::MAX] {
        assert_eq!(slot_for(id), None);
    }
}

#[test]
fn position_codes_cover_the_eight_labelled_keys() {
    assert_eq!(position_code("a"), Some(0));
    assert_eq!(position_code("s"), Some(1));
    assert_eq!(position_code("d"), Some(2));
    assert_eq!(position_code("f"), Some(3));
    assert_eq!(position_code("j"), Some(38));
    assert_eq!(position_code("k"), Some(40));
    assert_eq!(position_code("l"), Some(37));
    assert_eq!(position_code(";"), Some(41));
    assert_eq!(position_code("q"), None);
    assert_eq!(position_code(""), None);
    assert_eq!(position_code("as"), None);
}

#[test]
fn default_labels_name_the_physical_positions() {
    assert_eq!(default_label(53), "ESC");
    assert_eq!(default_label(0), "A");
    assert_eq!(default_label(1), "S");
    assert_eq!(default_label(2), "D");
    assert_eq!(default_label(3), "F");
    assert_eq!(default_label(51), "BACKSPACE");
    assert_eq!(default_label(38), "J");
    assert_eq!(default_label(40), "K");
    assert_eq!(default_label(37), "L");
    assert_eq!(default_label(41), ";");
    assert_eq!(default_label(49), "SPACE");
    assert_eq!(default_label(7), "?");
}

#[test]
fn qwerty_hints_exist_only_for_relabellable_keys() {
    assert_eq!(qwerty_hint(1), "S");
    assert_eq!(qwerty_hint(41), ";");
    assert_eq!(qwerty_hint(53), "");
    assert_eq!(qwerty_hint(51), "");
    assert_eq!(qwerty_hint(49), "");
    assert_eq!(qwerty_hint(77), "");
}

#[test]
fn captured_keys_map_to_their_identifiers() {
    assert_eq!(keycode_for(&CapturedKey::Escape), Some(53));
    assert_eq!(keycode_for(&CapturedKey::KeyA), Some(0));
    assert_eq!(keycode_for(&CapturedKey::KeyS), Some(1));
    assert_eq!(keycode_for(&CapturedKey::KeyD), Some(2));
    assert_eq!(keycode_for(&CapturedKey::KeyF), Some(3));
    assert_eq!(keycode_for(&CapturedKey::Backspace), Some(51));
    assert_eq!(keycode_for(&CapturedKey::KeyJ), Some(38));
    assert_eq!(keycode_for(&CapturedKey::KeyK), Some(40));
    assert_eq!(keycode_for(&CapturedKey::KeyL), Some(37));
    assert_eq!(keycode_for(&CapturedKey::SemiColon), Some(41));
    assert_eq!(keycode_for(&CapturedKey::Space), Some(49));
    assert_eq!(keycode_for(&CapturedKey::Other), None);
}
