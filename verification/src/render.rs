//! Render-side contract: once per frame the presentation process takes one
//! snapshot of the shared record and reacts to what it observes. Every
//! function here borrows the record immutably — the render consumer never
//! writes the pressed flags or the permission flag; the fields it reads are
//! written one at a time by the other side, so a frame may observe a
//! partially updated record, which the snapshot model accepts. The two
//! trusted items at the end carry the display decoding: UTF-8 with
//! replacement characters, and Unicode uppercasing.

use vstd::prelude::*;

use crate::keymap::{spec_slot_for, SLOT_COUNT};
use crate::shared_state::{SharedState, StateView};
use crate::text_buf::text_of;

verus! {

/// What one frame observes: the permission flag, the layout name, and each
/// slot's pressed flag and label text, all copied out of the record.
pub struct RenderSnapshot {
    pub permission_granted: bool,
    pub layout_name: Vec<u8>,
    pub pressed: Vec<bool>,
    pub labels: Vec<Vec<u8>>,
}

/// Take the single non-locking per-frame snapshot: a plain read of every
/// field, with no lock and no transactional guarantee across fields.
pub fn take_snapshot(state: &SharedState) -> (s: RenderSnapshot)
    requires
        state.wf(),
    ensures
        s.permission_granted == state@.permission,
        s.layout_name@ == text_of(state@.layout),
        s.pressed@ == state@.keys.pressed,
        s.labels@.len() == SLOT_COUNT as int,
        forall|i: int| 0 <= i < SLOT_COUNT as int ==> (#[trigger] s.labels@[i])@ == text_of(
            state@.keys.labels[i],
        ),
{
    proof {
        state.lemma_view_wf();
    }
    let mut pressed: Vec<bool> = Vec::new();
    let mut labels: Vec<Vec<u8>> = Vec::new();
    let mut i: usize = 0;
    while i < SLOT_COUNT
        invariant
            state.wf(),
            state@.wf(),
            i <= SLOT_COUNT,
            pressed@.len() == i as int,
            labels@.len() == i as int,
            forall|j: int| 0 <= j < i as int ==> pressed@[j] == state@.keys.pressed[j],
            forall|j: int|
                0 <= j < i as int ==> (#[trigger] labels@[j])@ == text_of(state@.keys.labels[j]),
        decreases SLOT_COUNT as int - i as int,
    {
        pressed.push(state.pressed_at(i));
        labels.push(state.label_at(i));
        i += 1;
    }
    proof {
        assert(pressed@ =~= state@.keys.pressed);
    }
    RenderSnapshot {
        permission_granted: state.permission(),
        layout_name: state.get_layout_name(),
        pressed,
        labels,
    }
}

/// The pressed flag a snapshot shows for a physical identifier; false
/// outside the monitored set.
pub fn snapshot_pressed(s: &RenderSnapshot, physical_id: u32) -> (r: bool)
    requires
        s.pressed@.len() == SLOT_COUNT as int,
    ensures
        r == match spec_slot_for(physical_id) {
            Some(i) => s.pressed@[i as int],
            None => false,
        },
{
    match crate::keymap::slot_for(physical_id) {
        Some(i) => s.pressed[i],
        None => false,
    }
}

/// The decisions one rendered frame takes from the observed permission
/// flag and the flag the previous frame observed.
pub struct FramePlan {
    pub resize: bool,
    pub show_banner: bool,
}

/// Per-frame reaction: the overlay is resized exactly when the observed
/// permission state differs from the previous frame's, and the
/// permission-required banner is shown exactly while permission is missing.
pub fn plan_frame(permission_granted: bool, last_permission: bool) -> (p: FramePlan)
    ensures
        p.resize == (permission_granted != last_permission),
        p.show_banner == !permission_granted,
{
    FramePlan {
        resize: permission_granted != last_permission,
        show_banner: !permission_granted,
    }
}

/// What `String::from_utf8_lossy` decodes a byte sequence to.
pub uninterp spec fn lossy_of(b: Seq<u8>) -> Seq<char>;

/// What `str::to_uppercase` turns a character sequence into.
pub uninterp spec fn upper_of(s: Seq<char>) -> Seq<char>;

/// Relies on String::from_utf8_lossy: decodes the bytes as UTF-8, putting a
/// replacement character for each invalid sequence; the result depends on
/// the bytes alone.
#[verifier::external_body]
fn utf8_lossy(bytes: &[u8]) -> (r: String)
    ensures
        r@ == lossy_of(bytes@),
{
    String::from_utf8_lossy(bytes).into_owned()
}

/// Relies on str::to_uppercase: Unicode uppercasing, independent of any
/// locale; the result depends on the characters alone.
#[verifier::external_body]
fn uppercase(s: &str) -> (r: String)
    ensures
        r@ == upper_of(s@),
{
    s.to_uppercase()
}

/// The configured label a key should display, decoded and uppercased:
/// `Some` exactly when the key's slot holds a label text that is non-empty
/// and is not the single-byte placeholder; `None` directs the caller to the
/// fixed default label of the position.
pub fn configured_label(state: &SharedState, physical_id: u32) -> (r: Option<String>)
    requires
        state.wf(),
    ensures
        match spec_slot_for(physical_id) {
            Some(i) => {
                let lab = text_of(state@.keys.labels[i as int]);
                if lab.len() > 0 && lab != seq![63u8] {
                    r matches Some(l) && l@ == upper_of(lossy_of(lab))
                } else {
                    r is None
                }
            },
            None => r is None,
        },
{
    match crate::keymap::slot_for(physical_id) {
        Some(i) => {
            let lab = state.label_at(i);
            if lab.len() == 0 {
                return None;
            }
            if lab.len() == 1 && lab[0] == 63 {
                proof {
                    assert(text_of(state@.keys.labels[i as int]) =~= seq![63u8]);
                }
                return None;
            }
            proof {
                if text_of(state@.keys.labels[i as int]) == seq![63u8] {
                    assert(lab@[0] == 63);
                }
            }
            let decoded = utf8_lossy(lab.as_slice());
            Some(uppercase(decoded.as_str()))
        },
        None => None,
    }
}

} // verus!
