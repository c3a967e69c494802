//! Text rendering of the synthesiser state for the console display: the
//! one-octave keyboard and the waveform names.

use vstd::prelude::*;
use crate::waveform::{Waveform, waveform_text};

verus! {

/// Some active note has pitch class `class` (C = 0, ..., B = 11).
pub open spec fn pitch_class_is_lit(notes: Seq<u8>, class: int) -> bool {
    exists|k: int| 0 <= k < notes.len() && (#[trigger] notes[k]) % 12 == class
}

/// The keyboard slots for the first `classes` pitch classes: `[#]` for a
/// pitch class with an active note (in any octave), `[ ]` otherwise.
pub open spec fn keyboard_text(notes: Seq<u8>, classes: nat) -> Seq<char>
    decreases classes,
{
    if classes == 0 {
        Seq::empty()
    } else {
        keyboard_text(notes, (classes - 1) as nat) + if pitch_class_is_lit(
            notes,
            classes - 1,
        ) {
            "[#]"@
        } else {
            "[ ]"@
        }
    }
}

/// The keyboard text has three characters per slot.
proof fn lemma_keyboard_len(notes: Seq<u8>, classes: nat)
    ensures
        keyboard_text(notes, classes).len() == 3 * classes,
    decreases classes,
{
    reveal_strlit("[#]");
    reveal_strlit("[ ]");
    if classes > 0 {
        lemma_keyboard_len(notes, (classes - 1) as nat);
    }
}

/// Slot `class` of the keyboard text is its three characters from
/// `3 * class` on.
proof fn lemma_keyboard_slot(notes: Seq<u8>, classes: nat, class: int)
    requires
        0 <= class < classes,
    ensures
        keyboard_text(notes, classes).subrange(3 * class, 3 * class + 3) == if pitch_class_is_lit(
            notes,
            class,
        ) {
            "[#]"@
        } else {
            "[ ]"@
        },
    decreases classes,
{
    reveal_strlit("[#]");
    reveal_strlit("[ ]");
    let prev = keyboard_text(notes, (classes - 1) as nat);
    lemma_keyboard_len(notes, (classes - 1) as nat);
    if class < classes - 1 {
        lemma_keyboard_slot(notes, (classes - 1) as nat, class);
        assert(keyboard_text(notes, classes).subrange(3 * class, 3 * class + 3) =~= prev.subrange(
            3 * class,
            3 * class + 3,
        ));
    } else {
        let slot = if pitch_class_is_lit(notes, class) {
            "[#]"@
        } else {
            "[ ]"@
        };
        assert(keyboard_text(notes, classes).subrange(3 * class, 3 * class + 3) =~= slot);
    }
}

/// The keyboard shows every active note: twelve three-character slots from
/// C to B, where the slot of each active note's pitch class (its number
/// modulo 12, whatever the octave) reads `[#]`, and the slot of a pitch
/// class that no active note has reads `[ ]`.
pub proof fn lemma_keyboard_shows_active_notes(notes: Seq<u8>)
    ensures
        keyboard_text(notes, 12).len() == 36,
        forall|k: int|
            0 <= k < notes.len() ==> keyboard_text(notes, 12).subrange(
                3 * ((#[trigger] notes[k]) % 12),
                3 * (notes[k] % 12) + 3,
            ) == "[#]"@,
        forall|class: int|
            0 <= class < 12 && (forall|k: int| 0 <= k < notes.len() ==> #[trigger] notes[k] % 12 != class)
                ==> #[trigger] keyboard_text(notes, 12).subrange(3 * class, 3 * class + 3) == "[ ]"@,
{
    lemma_keyboard_len(notes, 12);
    assert forall|k: int| 0 <= k < notes.len() implies keyboard_text(notes, 12).subrange(
        3 * ((#[trigger] notes[k]) % 12),
        3 * (notes[k] % 12) + 3,
    ) == "[#]"@ by {
        let class = notes[k] % 12;
        assert(pitch_class_is_lit(notes, class as int));
        lemma_keyboard_slot(notes, 12, class as int);
    }
    assert forall|class: int|
        0 <= class < 12 && (forall|k: int| 0 <= k < notes.len() ==> #[trigger] notes[k] % 12 != class)
            implies #[trigger] keyboard_text(notes, 12).subrange(3 * class, 3 * class + 3)
        == "[ ]"@ by {
        lemma_keyboard_slot(notes, 12, class);
    }
}

/// Whether some active note has pitch class `class`.
fn class_is_lit(notes: &[u8], class: u8) -> (lit: bool)
    ensures
        lit == pitch_class_is_lit(notes@, class as int),
{
    let n = notes.len();
    let mut k: usize = 0;
    while k < n
        invariant
            n == notes@.len(),
            0 <= k <= n,
            forall|j: int| 0 <= j < k ==> (#[trigger] notes@[j]) % 12 != class,
        decreases n - k,
    {
        if notes[k] % 12 == class {
            return true;
        }
        k = k + 1;
    }
    false
}

/// The one-octave keyboard of the console display: twelve slots from C to
/// B, lit (`[#]`) when a note of that pitch class is active.
pub fn keyboard_display(active_notes: &[u8]) -> (keys: String)
    ensures
        keys@ == keyboard_text(active_notes@, 12),
        keys@.len() == 36,
        forall|k: int|
            0 <= k < active_notes@.len() ==> keys@.subrange(
                3 * ((#[trigger] active_notes@[k]) % 12),
                3 * (active_notes@[k] % 12) + 3,
            ) == "[#]"@,
        forall|class: int|
            0 <= class < 12 && (forall|k: int|
                0 <= k < active_notes@.len() ==> #[trigger] active_notes@[k] % 12 != class)
                ==> #[trigger] keys@.subrange(3 * class, 3 * class + 3) == "[ ]"@,
{
    proof {
        lemma_keyboard_shows_active_notes(active_notes@);
    }
    let mut keys = String::new();
    let mut class: u8 = 0;
    while class < 12
        invariant
            0 <= class <= 12,
            keys@ == keyboard_text(active_notes@, class as nat),
        decreases 12 - class,
    {
        if class_is_lit(active_notes, class) {
            keys.append("[#]");
        } else {
            keys.append("[ ]");
        }
        class = class + 1;
    }
    keys
}

/// The upper-case name of a waveform, as shown in the console display.
pub fn waveform_name(waveform: Waveform) -> (name: &'static str)
    ensures
        name@ == waveform_text(waveform),
{
    match waveform {
        Waveform::Sine => "SINE",
        Waveform::Saw => "SAW",
        Waveform::Triangle => "TRIANGLE",
        Waveform::Square => "SQUARE",
    }
}

} // verus!
