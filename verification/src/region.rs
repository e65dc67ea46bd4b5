//! The byte-exact image of the shared record: the fixed layout both
//! processes map, with every field at a fixed offset. The image carries each
//! text field's raw bytes as written, so it is exactly a function of the
//! record's model. The permission flag and each pressed flag occupy a single
//! byte, so either side can write one field in place without locks; the laws
//! at the end state that such a write rewrites the image to exactly the
//! image of the record with that one field updated, which is what the static
//! single-writer partition rests on.

use vstd::arithmetic::div_mod::{
    lemma_fundamental_div_mod, lemma_fundamental_div_mod_converse, lemma_mod_bound,
};
use vstd::prelude::*;
use vstd::slice::slice_subrange;

use crate::keymap::SLOT_COUNT;
use crate::shared_state::{
    KeyStates, KeyStatesView, SharedState, StateView, LABEL_BYTES, LAYOUT_NAME_BYTES,
};
use crate::text_buf::{lemma_stored_bytes_id, spec_stored_bytes};

verus! {

/// Offset of the permission flag's byte.
pub const OFF_PERMISSION: usize = 0;

/// Offset of the layout-name field.
pub const OFF_LAYOUT: usize = 1;

/// Offset of the first key slot.
pub const OFF_SLOTS: usize = OFF_LAYOUT + LAYOUT_NAME_BYTES;

/// Bytes per key slot: one pressed byte, then the label field.
pub const SLOT_STRIDE: usize = 1 + LABEL_BYTES;

/// Total size of the region: the record's image, nothing more.
pub const REGION_BYTES: usize = OFF_SLOTS + SLOT_COUNT * SLOT_STRIDE;

/// How a flag is stored in its byte; any nonzero byte reads back as true.
pub open spec fn spec_bool_byte(b: bool) -> u8 {
    if b {
        1
    } else {
        0
    }
}

/// Offset of slot `i`'s pressed byte: `OFF_SLOTS + i * SLOT_STRIDE`.
pub open spec fn spec_pressed_offset(i: int) -> int {
    65 + 9 * i
}

/// Offset of slot `i`'s label field.
pub open spec fn spec_label_offset(i: int) -> int {
    spec_pressed_offset(i) + 1
}

/// Byte `k` of the serialized record: the permission byte, then the
/// layout-name field, then per slot one pressed byte and the label field.
pub open spec fn spec_byte_at(v: StateView, k: int) -> u8 {
    if k < OFF_LAYOUT as int {
        spec_bool_byte(v.permission)
    } else if k < OFF_SLOTS as int {
        v.layout[k - OFF_LAYOUT as int]
    } else {
        let s = (k - 65) / 9;
        let r = (k - 65) % 9;
        if r == 0 {
            spec_bool_byte(v.keys.pressed[s])
        } else {
            v.keys.labels[s][r - 1]
        }
    }
}

/// The full region image of a record model.
pub open spec fn spec_state_bytes(v: StateView) -> Seq<u8> {
    Seq::new(REGION_BYTES as nat, |k: int| spec_byte_at(v, k))
}

/// The layout-name field of a region image.
pub open spec fn spec_layout_field(b: Seq<u8>) -> Seq<u8> {
    b.subrange(OFF_LAYOUT as int, OFF_SLOTS as int)
}

/// Slot `i`'s label field of a region image.
pub open spec fn spec_label_field(b: Seq<u8>, i: int) -> Seq<u8> {
    b.subrange(spec_label_offset(i), spec_label_offset(i) + LABEL_BYTES as int)
}

/// The record model a region image denotes: each flag byte read as a bool,
/// each text field taken as it stands, with its last byte forced to a
/// terminator.
pub open spec fn spec_parse_state(b: Seq<u8>) -> StateView {
    StateView {
        permission: b[OFF_PERMISSION as int] != 0,
        layout: spec_stored_bytes(spec_layout_field(b), LAYOUT_NAME_BYTES as int),
        keys: KeyStatesView {
            pressed: Seq::new(SLOT_COUNT as nat, |i: int| b[spec_pressed_offset(i)] != 0),
            labels: Seq::new(
                SLOT_COUNT as nat,
                |i: int| spec_stored_bytes(spec_label_field(b, i), LABEL_BYTES as int),
            ),
        },
    }
}

/// The byte a flag is stored as.
pub fn bool_byte(b: bool) -> (r: u8)
    ensures
        r == spec_bool_byte(b),
{
    if b {
        1
    } else {
        0
    }
}

/// Offset of slot `i`'s pressed byte, for a single-byte in-place write.
pub fn pressed_offset(i: usize) -> (r: usize)
    requires
        i < SLOT_COUNT,
    ensures
        r as int == spec_pressed_offset(i as int),
        r < REGION_BYTES,
{
    65 + 9 * i
}

/// Offset of slot `i`'s label field.
pub fn label_offset(i: usize) -> (r: usize)
    requires
        i < SLOT_COUNT,
    ensures
        r as int == spec_label_offset(i as int),
        r + LABEL_BYTES <= REGION_BYTES,
{
    65 + 9 * i + 1
}

/// Push one byte of a region image under construction.
fn push_region_byte(r: &mut Vec<u8>, b: u8, Ghost(v): Ghost<StateView>)
    requires
        forall|k: int| 0 <= k < old(r)@.len() ==> old(r)@[k] == spec_byte_at(v, k),
        b == spec_byte_at(v, old(r)@.len() as int),
    ensures
        final(r)@.len() == old(r)@.len() + 1,
        forall|k: int| 0 <= k < final(r)@.len() ==> final(r)@[k] == spec_byte_at(v, k),
{
    let ghost prev = r@;
    r.push(b);
    proof {
        assert forall|k: int| 0 <= k < r@.len() implies r@[k] == spec_byte_at(v, k) by {
            if k < prev.len() {
                assert(r@[k] == prev[k]);
            }
        }
    }
}

impl SharedState {
    /// Serialize the record into its fixed region image. A fresh region is
    /// initialized with the image of `SharedState::new()`.
    pub fn to_bytes(&self) -> (r: Vec<u8>)
        requires
            self.wf(),
        ensures
            r@ == spec_state_bytes(self@),
            r@.len() == REGION_BYTES as int,
    {
        proof {
            self.lemma_view_wf();
        }
        let ghost v = self@;
        let mut r: Vec<u8> = Vec::new();
        push_region_byte(&mut r, bool_byte(self.permission()), Ghost(v));
        let mut j: usize = 0;
        while j < LAYOUT_NAME_BYTES
            invariant
                self.wf(),
                self@.wf(),
                v == self@,
                j <= LAYOUT_NAME_BYTES,
                r@.len() == OFF_LAYOUT as int + j as int,
                forall|k: int| 0 <= k < r@.len() ==> r@[k] == spec_byte_at(v, k),
            decreases LAYOUT_NAME_BYTES as int - j as int,
        {
            push_region_byte(&mut r, self.layout_raw_byte(j), Ghost(v));
            j += 1;
        }
        let mut i: usize = 0;
        while i < SLOT_COUNT
            invariant
                self.wf(),
                self@.wf(),
                v == self@,
                i <= SLOT_COUNT,
                r@.len() == spec_pressed_offset(i as int),
                forall|k: int| 0 <= k < r@.len() ==> r@[k] == spec_byte_at(v, k),
            decreases SLOT_COUNT as int - i as int,
        {
            proof {
                lemma_fundamental_div_mod_converse(spec_pressed_offset(i as int) - 65, 9, i as int, 0);
            }
            push_region_byte(&mut r, bool_byte(self.pressed_at(i)), Ghost(v));
            let mut j2: usize = 0;
            while j2 < LABEL_BYTES
                invariant
                    self.wf(),
                    self@.wf(),
                    v == self@,
                    i < SLOT_COUNT,
                    j2 <= LABEL_BYTES,
                    r@.len() == spec_label_offset(i as int) + j2 as int,
                    forall|k: int| 0 <= k < r@.len() ==> r@[k] == spec_byte_at(v, k),
                decreases LABEL_BYTES as int - j2 as int,
            {
                proof {
                    lemma_fundamental_div_mod_converse(
                        spec_label_offset(i as int) + j2 as int - 65,
                        9,
                        i as int,
                        1 + j2 as int,
                    );
                }
                push_region_byte(&mut r, self.label_raw_byte(i, j2), Ghost(v));
                j2 += 1;
            }
            i += 1;
        }
        proof {
            assert(r@ =~= spec_state_bytes(v));
        }
        r
    }

    /// Rebuild a record from a region image, reading each flag byte as a
    /// bool and each text field as it stands. Total: any image of the right
    /// size parses, so a torn frame still reads as some record.
    pub fn from_bytes(bytes: &[u8]) -> (r: SharedState)
        requires
            bytes@.len() == REGION_BYTES as int,
        ensures
            r.wf(),
            r@ == spec_parse_state(bytes@),
    {
        let mut keys = KeyStates::new();
        let mut i: usize = 0;
        while i < SLOT_COUNT
            invariant
                keys.wf(),
                i <= SLOT_COUNT,
                bytes@.len() == REGION_BYTES as int,
                keys@.pressed.len() == SLOT_COUNT as int,
                keys@.labels.len() == SLOT_COUNT as int,
                forall|j: int|
                    0 <= j < i as int ==> keys@.pressed[j] == (bytes@[spec_pressed_offset(j)] != 0),
                forall|j: int|
                    0 <= j < i as int ==> keys@.labels[j] == spec_stored_bytes(
                        spec_label_field(bytes@, j),
                        LABEL_BYTES as int,
                    ),
            decreases SLOT_COUNT as int - i as int,
        {
            let poff = pressed_offset(i);
            keys.set_pressed_at(i, bytes[poff] != 0);
            let loff = label_offset(i);
            let mut lab: Vec<u8> = Vec::new();
            let mut j2: usize = 0;
            while j2 < LABEL_BYTES
                invariant
                    bytes@.len() == REGION_BYTES as int,
                    i < SLOT_COUNT,
                    loff as int == spec_label_offset(i as int),
                    loff + LABEL_BYTES <= REGION_BYTES,
                    j2 <= LABEL_BYTES,
                    lab@.len() == j2 as int,
                    forall|q: int| 0 <= q < j2 as int ==> lab@[q] == bytes@[loff as int + q],
                decreases LABEL_BYTES as int - j2 as int,
            {
                lab.push(bytes[loff + j2]);
                j2 += 1;
            }
            proof {
                assert(lab@ =~= spec_label_field(bytes@, i as int));
            }
            keys.set_label_at(i, lab.as_slice());
            i += 1;
        }
        let layout_field = slice_subrange(bytes, OFF_LAYOUT, OFF_SLOTS);
        let permission = bytes[OFF_PERMISSION] != 0;
        let r = SharedState::from_parts(permission, layout_field, keys);
        proof {
            assert(layout_field@ =~= spec_layout_field(bytes@));
            assert(r@.keys.pressed =~= spec_parse_state(bytes@).keys.pressed);
            assert(r@.keys.labels =~= spec_parse_state(bytes@).keys.labels);
            assert(r@.keys =~= spec_parse_state(bytes@).keys);
            assert(r@ =~= spec_parse_state(bytes@));
        }
        r
    }
}

/// Round-trip law: the serialized image of any well-formed record model
/// parses back to exactly that model, raw field bytes included, so the two
/// processes agree on what the region means.
pub proof fn lemma_region_round_trip(v: StateView)
    requires
        v.wf(),
    ensures
        spec_parse_state(spec_state_bytes(v)) == v,
{
    let b = spec_state_bytes(v);
    let p = spec_parse_state(b);
    // the layout field reads back byte for byte
    assert(spec_layout_field(b) =~= v.layout);
    lemma_stored_bytes_id(v.layout, LAYOUT_NAME_BYTES as int);
    // each pressed byte reads back as its flag
    assert forall|i: int| 0 <= i < SLOT_COUNT as int implies #[trigger] p.keys.pressed[i]
        == v.keys.pressed[i] by {
        lemma_fundamental_div_mod_converse(spec_pressed_offset(i) - 65, 9, i, 0);
        assert(b[spec_pressed_offset(i)] == spec_bool_byte(v.keys.pressed[i]));
    }
    // each label field reads back byte for byte
    assert forall|i: int| 0 <= i < SLOT_COUNT as int implies #[trigger] p.keys.labels[i]
        == v.keys.labels[i] by {
        let fld = spec_label_field(b, i);
        assert forall|j: int| 0 <= j < LABEL_BYTES as int implies fld[j] == v.keys.labels[i][j] by {
            lemma_fundamental_div_mod_converse(spec_label_offset(i) + j - 65, 9, i, 1 + j);
            assert(fld[j] == spec_byte_at(v, spec_label_offset(i) + j));
        }
        assert(fld =~= v.keys.labels[i]);
        lemma_stored_bytes_id(v.keys.labels[i], LABEL_BYTES as int);
    }
    assert(p.keys.pressed =~= v.keys.pressed);
    assert(p.keys.labels =~= v.keys.labels);
    assert(p =~= v);
}

/// A region image with `data` written in place at `off`.
pub open spec fn spec_write_bytes(b: Seq<u8>, off: int, data: Seq<u8>) -> Seq<u8> {
    Seq::new(b.len(), |k: int| if off <= k < off + data.len() { data[k - off] } else { b[k] })
}

/// For any byte of the slot area, its slot index and offset within the
/// slot, tied back to the byte's position.
proof fn lemma_slot_decompose(k: int)
    requires
        OFF_SLOTS as int <= k < REGION_BYTES as int,
    ensures
        ({
            let s = (k - 65) / 9;
            let r = (k - 65) % 9;
            0 <= s < SLOT_COUNT as int && 0 <= r < 9 && k == 65 + 9 * s + r
        }),
{
    assert(OFF_SLOTS == 65 && SLOT_STRIDE == 9 && REGION_BYTES == 164);
    lemma_fundamental_div_mod(k - 65, 9);
    lemma_mod_bound(k - 65, 9);
}

/// Write-protocol law, permission: writing the permission byte in place
/// turns the image of `v` into exactly the image of `v` with the flag set —
/// the capture side's (or the external setter's) single-byte write, which
/// disturbs no other field.
pub proof fn lemma_permission_byte_write(v: StateView, p: bool)
    ensures
        spec_state_bytes(v).update(OFF_PERMISSION as int, spec_bool_byte(p)) == spec_state_bytes(
            StateView { permission: p, ..v },
        ),
{
    let a = spec_state_bytes(v).update(OFF_PERMISSION as int, spec_bool_byte(p));
    let c = spec_state_bytes(StateView { permission: p, ..v });
    assert(a =~= c);
}

/// Write-protocol law, pressed flags: writing slot `i`'s pressed byte in
/// place turns the image of `v` into exactly the image of `v` with that
/// slot's flag set — the capture side's per-event single-byte write.
pub proof fn lemma_pressed_byte_write(v: StateView, i: int, p: bool)
    requires
        v.wf(),
        0 <= i < SLOT_COUNT as int,
    ensures
        spec_state_bytes(v).update(spec_pressed_offset(i), spec_bool_byte(p)) == spec_state_bytes(
            StateView { keys: v.keys.with_pressed(i, p), ..v },
        ),
{
    let w = StateView { keys: v.keys.with_pressed(i, p), ..v };
    let a = spec_state_bytes(v).update(spec_pressed_offset(i), spec_bool_byte(p));
    let c = spec_state_bytes(w);
    assert(0 <= spec_pressed_offset(i) < REGION_BYTES as int);
    assert forall|k: int| 0 <= k < REGION_BYTES as int implies a[k] == c[k] by {
        if OFF_SLOTS as int <= k {
            lemma_slot_decompose(k);
            let s = (k - 65) / 9;
            let r = (k - 65) % 9;
            if k == spec_pressed_offset(i) {
                lemma_fundamental_div_mod_converse(k - 65, 9, i, 0);
            } else {
                assert(!(s == i && r == 0));
            }
        }
    }
    assert(a =~= c);
}

/// Write-protocol law, labels: overwriting slot `i`'s whole label field in
/// place turns the image of `v` into exactly the image of `v` with that
/// field set — the configuration channel's write, which disturbs no pressed
/// flag and no other label.
pub proof fn lemma_label_field_write(v: StateView, i: int, data: Seq<u8>)
    requires
        v.wf(),
        0 <= i < SLOT_COUNT as int,
        data.len() == LABEL_BYTES as int,
    ensures
        spec_write_bytes(spec_state_bytes(v), spec_label_offset(i), data) == spec_state_bytes(
            StateView { keys: v.keys.with_label(i, data), ..v },
        ),
{
    let w = StateView { keys: v.keys.with_label(i, data), ..v };
    let a = spec_write_bytes(spec_state_bytes(v), spec_label_offset(i), data);
    let c = spec_state_bytes(w);
    assert forall|k: int| 0 <= k < REGION_BYTES as int implies a[k] == c[k] by {
        if OFF_SLOTS as int <= k {
            lemma_slot_decompose(k);
            let s = (k - 65) / 9;
            let r = (k - 65) % 9;
            if spec_label_offset(i) <= k < spec_label_offset(i) + LABEL_BYTES as int {
                lemma_fundamental_div_mod_converse(k - 65, 9, i, k - spec_pressed_offset(i));
            } else {
                assert(!(s == i && r != 0));
            }
        }
    }
    assert(a =~= c);
}

/// Write-protocol law, layout name: overwriting the layout-name field in
/// place turns the image of `v` into exactly the image of `v` with the
/// field set.
pub proof fn lemma_layout_field_write(v: StateView, data: Seq<u8>)
    requires
        v.wf(),
        data.len() == LAYOUT_NAME_BYTES as int,
    ensures
        spec_write_bytes(spec_state_bytes(v), OFF_LAYOUT as int, data) == spec_state_bytes(
            StateView { layout: data, ..v },
        ),
{
    let w = StateView { layout: data, ..v };
    let a = spec_write_bytes(spec_state_bytes(v), OFF_LAYOUT as int, data);
    let c = spec_state_bytes(w);
    assert forall|k: int| 0 <= k < REGION_BYTES as int implies a[k] == c[k] by {}
    assert(a =~= c);
}

} // verus!
