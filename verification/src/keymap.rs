//! The key-identity map: the closed set of eleven monitored physical key
//! identifiers, their fixed slot order in the shared record, the single-byte
//! position names under which the eight non-special keys take configured
//! labels, and the layout-independent fallback labels.

use vstd::prelude::*;
use vstd::string::StringSliceAdditionalSpecFns;

verus! {

/// Physical key identifiers of the monitored keys, as the capture
/// mechanism reports them.
pub const KEYCODE_ESC: u32 = 53;

pub const KEYCODE_A: u32 = 0;

pub const KEYCODE_S: u32 = 1;

pub const KEYCODE_D: u32 = 2;

pub const KEYCODE_F: u32 = 3;

pub const KEYCODE_BACKSPACE: u32 = 51;

pub const KEYCODE_J: u32 = 38;

pub const KEYCODE_K: u32 = 40;

pub const KEYCODE_L: u32 = 37;

pub const KEYCODE_SEMICOLON: u32 = 41;

pub const KEYCODE_SPACE: u32 = 49;

/// Number of monitored key slots in the shared record.
pub const SLOT_COUNT: usize = 11;

/// The fixed physical identifier of slot `i`: escape first, then the four
/// left-hand keys, backspace, the four right-hand keys, and space.
pub open spec fn spec_slot_id(i: int) -> u32 {
    if i == 0 {
        KEYCODE_ESC
    } else if i == 1 {
        KEYCODE_A
    } else if i == 2 {
        KEYCODE_S
    } else if i == 3 {
        KEYCODE_D
    } else if i == 4 {
        KEYCODE_F
    } else if i == 5 {
        KEYCODE_BACKSPACE
    } else if i == 6 {
        KEYCODE_J
    } else if i == 7 {
        KEYCODE_K
    } else if i == 8 {
        KEYCODE_L
    } else if i == 9 {
        KEYCODE_SEMICOLON
    } else {
        KEYCODE_SPACE
    }
}

/// The slot a physical identifier is monitored in, or `None` for an
/// identifier outside the closed set.
pub open spec fn spec_slot_for(id: u32) -> Option<usize> {
    if id == KEYCODE_ESC {
        Some(0usize)
    } else if id == KEYCODE_A {
        Some(1usize)
    } else if id == KEYCODE_S {
        Some(2usize)
    } else if id == KEYCODE_D {
        Some(3usize)
    } else if id == KEYCODE_F {
        Some(4usize)
    } else if id == KEYCODE_BACKSPACE {
        Some(5usize)
    } else if id == KEYCODE_J {
        Some(6usize)
    } else if id == KEYCODE_K {
        Some(7usize)
    } else if id == KEYCODE_L {
        Some(8usize)
    } else if id == KEYCODE_SEMICOLON {
        Some(9usize)
    } else if id == KEYCODE_SPACE {
        Some(10usize)
    } else {
        None
    }
}

pub open spec fn is_monitored(id: u32) -> bool {
    spec_slot_for(id) is Some
}

/// Map a physical identifier to its monitored slot; identifiers outside the
/// closed set map to `None` and are dropped by callers without error.
pub fn slot_for(physical_id: u32) -> (r: Option<usize>)
    ensures
        r == spec_slot_for(physical_id),
{
    match physical_id {
        53 => Some(0),
        0 => Some(1),
        1 => Some(2),
        2 => Some(3),
        3 => Some(4),
        51 => Some(5),
        38 => Some(6),
        40 => Some(7),
        37 => Some(8),
        41 => Some(9),
        49 => Some(10),
        _ => None,
    }
}

/// The physical identifier monitored in slot `i`.
pub fn slot_id(i: usize) -> (r: u32)
    requires
        i < SLOT_COUNT,
    ensures
        r == spec_slot_id(i as int),
{
    match i {
        0 => 53,
        1 => 0,
        2 => 1,
        3 => 2,
        4 => 3,
        5 => 51,
        6 => 38,
        7 => 40,
        8 => 37,
        9 => 41,
        _ => 49,
    }
}

/// Total-mapping law: an identifier has a slot exactly when it is monitored,
/// every assigned slot lies below `SLOT_COUNT`, and the slot table inverts
/// the mapping, so the assignment is stable.
pub proof fn lemma_slot_mapping_total(id: u32)
    ensures
        is_monitored(id) <==> spec_slot_for(id) is Some,
        spec_slot_for(id) matches Some(i) ==> i < SLOT_COUNT && spec_slot_id(i as int) == id,
{
}

/// Total-mapping law, distinctness: two different monitored identifiers
/// never share a slot.
pub proof fn lemma_slot_mapping_injective(a: u32, b: u32)
    requires
        a != b,
        spec_slot_for(a) is Some,
        spec_slot_for(b) is Some,
    ensures
        spec_slot_for(a) != spec_slot_for(b),
{
}

/// The keycode a single-byte position name configures labels for: the bytes
/// are the ASCII letters a, s, d, f, j, k, l and the semicolon, naming the
/// eight non-special monitored keys by their QWERTY position.
pub open spec fn spec_position_code(p: Seq<u8>) -> Option<u32> {
    if p.len() != 1 {
        None
    } else if p[0] == 97 {
        Some(KEYCODE_A)
    } else if p[0] == 115 {
        Some(KEYCODE_S)
    } else if p[0] == 100 {
        Some(KEYCODE_D)
    } else if p[0] == 102 {
        Some(KEYCODE_F)
    } else if p[0] == 106 {
        Some(KEYCODE_J)
    } else if p[0] == 107 {
        Some(KEYCODE_K)
    } else if p[0] == 108 {
        Some(KEYCODE_L)
    } else if p[0] == 59 {
        Some(KEYCODE_SEMICOLON)
    } else {
        None
    }
}

/// The slot whose label a position name configures, composed from
/// `spec_position_code` and `spec_slot_for`.
pub open spec fn spec_position_slot(p: Seq<u8>) -> Option<usize> {
    match spec_position_code(p) {
        Some(id) => spec_slot_for(id),
        None => None,
    }
}

/// Map a position name to the keycode whose label it configures; names
/// outside the fixed eight-element set map to `None`.
pub fn position_code(key_position: &str) -> (r: Option<u32>)
    ensures
        r == spec_position_code(key_position.spec_bytes()),
{
    let bytes = key_position.as_bytes();
    if bytes.len() != 1 {
        return None;
    }
    match bytes[0] {
        97 => Some(KEYCODE_A),
        115 => Some(KEYCODE_S),
        100 => Some(KEYCODE_D),
        102 => Some(KEYCODE_F),
        106 => Some(KEYCODE_J),
        107 => Some(KEYCODE_K),
        108 => Some(KEYCODE_L),
        59 => Some(KEYCODE_SEMICOLON),
        _ => None,
    }
}

/// The layout-independent fallback label of a monitored key: its QWERTY
/// position name, or the placeholder for identifiers outside the set.
pub open spec fn spec_default_label(id: u32) -> Seq<char> {
    if id == KEYCODE_ESC {
        "ESC"@
    } else if id == KEYCODE_A {
        "A"@
    } else if id == KEYCODE_S {
        "S"@
    } else if id == KEYCODE_D {
        "D"@
    } else if id == KEYCODE_F {
        "F"@
    } else if id == KEYCODE_BACKSPACE {
        "BACKSPACE"@
    } else if id == KEYCODE_J {
        "J"@
    } else if id == KEYCODE_K {
        "K"@
    } else if id == KEYCODE_L {
        "L"@
    } else if id == KEYCODE_SEMICOLON {
        ";"@
    } else if id == KEYCODE_SPACE {
        "SPACE"@
    } else {
        "?"@
    }
}

/// Fallback label used whenever no configured label is present.
pub fn default_label(physical_id: u32) -> (r: &'static str)
    ensures
        r@ == spec_default_label(physical_id),
{
    match physical_id {
        53 => "ESC",
        0 => "A",
        1 => "S",
        2 => "D",
        3 => "F",
        51 => "BACKSPACE",
        38 => "J",
        40 => "K",
        37 => "L",
        41 => ";",
        49 => "SPACE",
        _ => "?",
    }
}

/// The QWERTY hint shown beside a relabelled key: the QWERTY character of
/// the position for the eight non-special keys, empty otherwise.
pub open spec fn spec_qwerty_hint(id: u32) -> Seq<char> {
    if id == KEYCODE_A {
        "A"@
    } else if id == KEYCODE_S {
        "S"@
    } else if id == KEYCODE_D {
        "D"@
    } else if id == KEYCODE_F {
        "F"@
    } else if id == KEYCODE_J {
        "J"@
    } else if id == KEYCODE_K {
        "K"@
    } else if id == KEYCODE_L {
        "L"@
    } else if id == KEYCODE_SEMICOLON {
        ";"@
    } else {
        ""@
    }
}

pub fn qwerty_hint(physical_id: u32) -> (r: &'static str)
    ensures
        r@ == spec_qwerty_hint(physical_id),
{
    match physical_id {
        0 => "A",
        1 => "S",
        2 => "D",
        3 => "F",
        38 => "J",
        40 => "K",
        37 => "L",
        41 => ";",
        _ => "",
    }
}

} // verus!
