use keyvis::region::{
    bool_byte, label_offset, pressed_offset, OFF_LAYOUT, OFF_PERMISSION, REGION_BYTES,
};
use keyvis::shared_state::LABEL_BYTES;
use keyvis::SharedState;

#[test]
fn region_image_has_the_fixed_size() {
    assert_eq!(REGION_BYTES, 164);
    let state = SharedState::new();
    assert_eq!(state.to_bytes().len(), REGION_BYTES);
}

#[test]
fn fresh_image_is_zero_initialized() {
    let image = SharedState::new().to_bytes();
    assert!(image.iter().all(|&b| b == 0));
}

#[test]
fn image_round_trips_through_parse() {
    let mut state = SharedState::new();
    state.set_layout_name("Colemak");
    state.set_key_label("s", "r");
    state.set_key_label(";", "o");
    state.set_key_pressed(53, true);
    state.set_key_pressed(49, true);
    keyvis::shared_state::set_accessibility_permission(&mut state, true);
    let image = state.to_bytes();
    let parsed = SharedState::from_bytes(&image);
    assert_eq!(parsed.to_bytes(), image);
    assert_eq!(parsed.get_layout_name(), b"Colemak".to_vec());
    assert_eq!(parsed.get_key_label("s"), b"r".to_vec());
    assert_eq!(parsed.get_key_label(";"), b"o".to_vec());
    assert!(parsed.get_key_pressed(53));
    assert!(parsed.get_key_pressed(49));
    assert!(!parsed.get_key_pressed(0));
    assert!(keyvis::shared_state::get_accessibility_permission(&parsed));
}

#[test]
fn permission_byte_write_in_place() {
    // the capture side's single-byte write is exactly a field update
    let mut image = SharedState::new().to_bytes();
    image[OFF_PERMISSION] = bool_byte(true);
    let parsed = SharedState::from_bytes(&image);
    assert!(keyvis::shared_state::get_accessibility_permission(&parsed));
    let mut expect = SharedState::new();
    keyvis::shared_state::set_accessibility_permission(&mut expect, true);
    assert_eq!(image, expect.to_bytes());
}

#[test]
fn pressed_byte_write_in_place() {
    let mut state = SharedState::new();
    state.set_layout_name("Colemak");
    let mut image = state.to_bytes();
    // slot 0 is the escape key
    image[pressed_offset(0)] = bool_byte(true);
    let parsed = SharedState::from_bytes(&image);
    assert!(parsed.get_key_pressed(53));
    assert_eq!(parsed.get_layout_name(), b"Colemak".to_vec());
    let mut expect = SharedState::new();
    expect.set_layout_name("Colemak");
    expect.set_key_pressed(53, true);
    assert_eq!(image, expect.to_bytes());
}

#[test]
fn label_field_write_in_place() {
    let mut state = SharedState::new();
    state.set_key_pressed(38, true);
    let mut image = state.to_bytes();
    // slot 2 takes configured labels under the position name "s"
    let off = label_offset(2);
    let label = b"r";
    for j in 0..LABEL_BYTES {
        image[off + j] = if j < label.len() { label[j] } else { 0 };
    }
    let parsed = SharedState::from_bytes(&image);
    assert_eq!(parsed.get_key_label("s"), b"r".to_vec());
    assert!(parsed.get_key_pressed(38));
    let mut expect = SharedState::new();
    expect.set_key_pressed(38, true);
    expect.set_key_label("s", "r");
    assert_eq!(image, expect.to_bytes());
}

#[test]
fn field_offsets_are_disjoint_per_slot() {
    assert_eq!(OFF_PERMISSION, 0);
    assert_eq!(OFF_LAYOUT, 1);
    for i in 0..11 {
        assert_eq!(pressed_offset(i), 65 + 9 * i);
        assert_eq!(label_offset(i), 65 + 9 * i + 1);
    }
    assert!(label_offset(10) + LABEL_BYTES <= REGION_BYTES);
}

#[test]
fn torn_image_still_parses() {
    // a frame may observe a partially updated image; parsing is total
    let mut image = vec![0u8; REGION_BYTES];
    for (k, b) in image.iter_mut().enumerate() {
        *b = (k % 251) as u8;
    }
    let parsed = SharedState::from_bytes(&image);
    let reparsed = SharedState::from_bytes(&parsed.to_bytes());
    assert_eq!(parsed.to_bytes(), reparsed.to_bytes());
}
