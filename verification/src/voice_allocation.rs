//! Voice allocation for the polyphonic synthesiser: which voice a new note
//! goes to (a free one, or else the oldest), which voices a note-off
//! releases, and which notes are currently held.
//!
//! The audio engine owns the voices (oscillators, filters, envelopes); it
//! describes each one to these functions with a [`VoiceState`].

use vstd::prelude::*;
use crate::envelope::{Stage, stage_is_active, stage_is_held, stage_on_note_off};

verus! {

/// What voice allocation needs to know about one voice: the stage of its
/// amplitude envelope, the MIDI pitch it plays, and when its note started.
#[derive(Debug, Clone, Copy, PartialEq, Eq, Structural)]
pub struct VoiceState {
    pub stage: Stage,
    pub pitch: u8,
    pub note_on_time: u64,
}

/// A voice is free when its amplitude envelope is Idle.
pub open spec fn is_free(voice: VoiceState) -> bool {
    !stage_is_active(voice.stage)
}

/// `index` is the first free voice of the bank.
pub open spec fn is_first_free(voices: Seq<VoiceState>, index: int) -> bool {
    &&& 0 <= index < voices.len()
    &&& is_free(voices[index])
    &&& forall|j: int| 0 <= j < index ==> !is_free(#[trigger] voices[j])
}

/// `index` is the first of the voices whose note started earliest.
pub open spec fn is_first_oldest(voices: Seq<VoiceState>, index: int) -> bool {
    &&& 0 <= index < voices.len()
    &&& forall|j: int|
        0 <= j < voices.len() ==> voices[index].note_on_time <= #[trigger] voices[j].note_on_time
    &&& forall|j: int|
        0 <= j < index ==> voices[index].note_on_time < #[trigger] voices[j].note_on_time
}

/// Some voice of the bank is free.
pub open spec fn has_free_voice(voices: Seq<VoiceState>) -> bool {
    exists|j: int| 0 <= j < voices.len() && is_free(#[trigger] voices[j])
}

/// The voice a new note is assigned to: the first free voice if there is
/// one, else the first of the oldest voices (the one that is stolen).
pub open spec fn is_selected_voice(voices: Seq<VoiceState>, index: int) -> bool {
    if has_free_voice(voices) {
        is_first_free(voices, index)
    } else {
        is_first_oldest(voices, index)
    }
}

/// Chooses the voice for a new note: the first inactive voice, or, when all
/// voices are active, the voice whose note started earliest (the first such
/// voice on a tie), which is then stolen.
pub fn select_voice(voices: &[VoiceState]) -> (index: usize)
    requires
        voices@.len() > 0,
    ensures
        is_selected_voice(voices@, index as int),
{
    let n = voices.len();
    let mut i: usize = 0;
    while i < n
        invariant
            n == voices@.len(),
            0 <= i <= n,
            forall|j: int| 0 <= j < i ==> !is_free(#[trigger] voices@[j]),
        decreases n - i,
    {
        match voices[i].stage {
            Stage::Idle => {
                return i;
            },
            _ => {},
        }
        i = i + 1;
    }
    let mut oldest: usize = 0;
    let mut k: usize = 1;
    while k < n
        invariant
            n == voices@.len(),
            0 <= oldest < k <= n,
            forall|j: int|
                0 <= j < k ==> voices@[oldest as int].note_on_time
                    <= #[trigger] voices@[j].note_on_time,
            forall|j: int|
                0 <= j < oldest ==> voices@[oldest as int].note_on_time
                    < #[trigger] voices@[j].note_on_time,
        decreases n - k,
    {
        if voices[k].note_on_time < voices[oldest].note_on_time {
            oldest = k;
        }
        k = k + 1;
    }
    oldest
}

/// A voice is released by a note-off for `pitch` when it is active and
/// plays that pitch.
pub open spec fn is_released_by(voice: VoiceState, pitch: u8) -> bool {
    stage_is_active(voice.stage) && voice.pitch == pitch
}

/// Returns, in ascending order, the indices of the voices a note-off for
/// `pitch` releases: every active voice playing that pitch.
pub fn voices_to_release(voices: &[VoiceState], pitch: u8) -> (indices: Vec<usize>)
    ensures
        forall|k: int, l: int| 0 <= k < l < indices@.len() ==> indices@[k] < indices@[l],
        forall|k: int|
            0 <= k < indices@.len() ==> #[trigger] indices@[k] < voices@.len()
                && is_released_by(voices@[indices@[k] as int], pitch),
        forall|j: int|
            0 <= j < voices@.len() && is_released_by(#[trigger] voices@[j], pitch)
                ==> indices@.contains(j as usize),
{
    let n = voices.len();
    let mut indices: Vec<usize> = Vec::new();
    let mut i: usize = 0;
    while i < n
        invariant
            n == voices@.len(),
            0 <= i <= n,
            forall|k: int, l: int| 0 <= k < l < indices@.len() ==> indices@[k] < indices@[l],
            forall|k: int| 0 <= k < indices@.len() ==> #[trigger] indices@[k] < i,
            forall|k: int|
                0 <= k < indices@.len() ==> is_released_by(
                    voices@[#[trigger] indices@[k] as int],
                    pitch,
                ),
            forall|j: int|
                0 <= j < i && is_released_by(#[trigger] voices@[j], pitch) ==> indices@.contains(
                    j as usize,
                ),
        decreases n - i,
    {
        let voice = voices[i];
        let active = match voice.stage {
            Stage::Idle => false,
            _ => true,
        };
        if active && voice.pitch == pitch {
            let ghost before = indices@;
            indices.push(i);
            assert forall|j: int|
                0 <= j < i + 1 && is_released_by(#[trigger] voices@[j], pitch) implies indices@.contains(
                j as usize,
            ) by {
                if j < i {
                    let k = choose|k: int| 0 <= k < before.len() && before[k] == j as usize;
                    assert(indices@[k] == j as usize);
                } else {
                    assert(indices@[before.len() as int] == j as usize);
                }
            }
        }
        i = i + 1;
    }
    indices
}

/// The pitches of the held voices (attack, decay or sustain), in voice order.
pub open spec fn held_pitches(voices: Seq<VoiceState>) -> Seq<u8>
    decreases voices.len(),
{
    if voices.len() == 0 {
        Seq::empty()
    } else {
        let rest = held_pitches(voices.drop_last());
        if stage_is_held(voices.last().stage) {
            rest.push(voices.last().pitch)
        } else {
            rest
        }
    }
}

/// The number of voices of the bank that satisfy `pred`.
pub open spec fn count_matching(voices: Seq<VoiceState>, pred: spec_fn(VoiceState) -> bool) -> nat
    decreases voices.len(),
{
    if voices.len() == 0 {
        0
    } else {
        count_matching(voices.drop_last(), pred) + if pred(voices.last()) {
            1nat
        } else {
            0nat
        }
    }
}

/// The number of active (not Idle) voices.
pub open spec fn active_count(voices: Seq<VoiceState>) -> nat {
    count_matching(voices, |v: VoiceState| stage_is_active(v.stage))
}

/// The number of held voices playing `pitch`.
pub open spec fn held_count(voices: Seq<VoiceState>, pitch: u8) -> nat {
    count_matching(voices, |v: VoiceState| stage_is_held(v.stage) && v.pitch == pitch)
}

/// The held pitches of a prefix of the bank are a prefix of the held pitches
/// of the whole bank.
pub proof fn lemma_held_pitches_prefix(voices: Seq<VoiceState>, i: int)
    requires
        0 <= i <= voices.len(),
    ensures
        held_pitches(voices.subrange(0, i)).len() <= held_pitches(voices).len(),
        held_pitches(voices.subrange(0, i)) == held_pitches(voices).take(
            held_pitches(voices.subrange(0, i)).len() as int,
        ),
    decreases voices.len() - i,
{
    if i < voices.len() {
        lemma_held_pitches_prefix(voices, i + 1);
        let short = voices.subrange(0, i);
        let long = voices.subrange(0, i + 1);
        assert(long.drop_last() =~= short);
        let hs = held_pitches(short);
        let hl = held_pitches(long);
        assert(hl.take(hs.len() as int) =~= hs);
    } else {
        assert(voices.subrange(0, i) =~= voices);
        assert(held_pitches(voices).take(held_pitches(voices).len() as int) =~= held_pitches(
            voices,
        ));
    }
}

/// Returns the MIDI notes of the voices in their attack/decay/sustain
/// phase, in voice order, keeping at most `capacity` of them (the room the
/// caller has for them).
pub fn get_active_notes(voices: &[VoiceState], capacity: usize) -> (notes: Vec<u8>)
    ensures
        notes@.len() == if held_pitches(voices@).len() < capacity {
            held_pitches(voices@).len()
        } else {
            capacity as nat
        },
        notes@ == held_pitches(voices@).take(notes@.len() as int),
{
    let n = voices.len();
    let mut notes: Vec<u8> = Vec::new();
    let mut i: usize = 0;
    while i < n
        invariant_except_break
            n == voices@.len(),
            0 <= i <= n,
            notes@ == held_pitches(voices@.subrange(0, i as int)),
            notes@.len() <= capacity,
        ensures
            n == voices@.len(),
            notes@.len() <= capacity,
            0 <= i <= n,
            notes@ == held_pitches(voices@.subrange(0, i as int)),
            i == n || notes@.len() == capacity,
        decreases n - i,
    {
        if notes.len() >= capacity {
            break;
        }
        let voice = voices[i];
        assert(voices@.subrange(0, i + 1).drop_last() =~= voices@.subrange(0, i as int));
        let held = match voice.stage {
            Stage::Idle => false,
            Stage::Release => false,
            _ => true,
        };
        if held {
            notes.push(voice.pitch);
        }
        i = i + 1;
    }
    proof {
        lemma_held_pitches_prefix(voices@, i as int);
        if i == n {
            assert(voices@.subrange(0, n as int) =~= voices@);
        }
    }
    notes
}

/// Returns the number of voices that are not Idle (including voices in
/// their release tail).
pub fn active_voice_count(voices: &[VoiceState]) -> (count: usize)
    ensures
        count == active_count(voices@),
{
    let n = voices.len();
    let mut count: usize = 0;
    let mut i: usize = 0;
    while i < n
        invariant
            n == voices@.len(),
            0 <= i <= n,
            count == active_count(voices@.subrange(0, i as int)),
            count <= i,
        decreases n - i,
    {
        assert(voices@.subrange(0, i + 1).drop_last() =~= voices@.subrange(0, i as int));
        match voices[i].stage {
            Stage::Idle => {},
            _ => {
                count = count + 1;
            },
        }
        i = i + 1;
    }
    assert(voices@.subrange(0, n as int) =~= voices@);
    count
}

/// The bank after a note of `pitch` starts on voice `index` at `time`: that
/// voice enters Attack with the new pitch and start time.
pub open spec fn start_note(voices: Seq<VoiceState>, index: int, pitch: u8, time: u64) -> Seq<
    VoiceState,
> {
    voices.update(index, VoiceState { stage: Stage::Attack, pitch, note_on_time: time })
}

/// The bank after a note-off for `pitch`: each voice it releases enters
/// Release when `has_level[j]` (it still has a level to fade out) and Idle
/// otherwise; every other voice is unchanged.
pub open spec fn release_note(voices: Seq<VoiceState>, pitch: u8, has_level: Seq<bool>) -> Seq<
    VoiceState,
> {
    Seq::new(
        voices.len(),
        |j: int|
            if is_released_by(voices[j], pitch) {
                VoiceState {
                    stage: if has_level[j] {
                        Stage::Release
                    } else {
                        Stage::Idle
                    },
                    ..voices[j]
                }
            } else {
                voices[j]
            },
    )
}

/// Replacing one voice changes a count by the difference its old and new
/// states make.
pub proof fn lemma_count_after_update(
    voices: Seq<VoiceState>,
    pred: spec_fn(VoiceState) -> bool,
    index: int,
    voice: VoiceState,
)
    requires
        0 <= index < voices.len(),
    ensures
        count_matching(voices.update(index, voice), pred) + (if pred(voices[index]) {
            1int
        } else {
            0int
        }) == count_matching(voices, pred) + (if pred(voice) {
            1int
        } else {
            0int
        }),
    decreases voices.len(),
{
    let updated = voices.update(index, voice);
    if index == voices.len() - 1 {
        assert(updated.drop_last() =~= voices.drop_last());
    } else {
        assert(updated.drop_last() =~= voices.drop_last().update(index, voice));
        lemma_count_after_update(voices.drop_last(), pred, index, voice);
    }
}

/// A count is zero exactly when no voice satisfies the predicate.
pub proof fn lemma_count_zero(voices: Seq<VoiceState>, pred: spec_fn(VoiceState) -> bool)
    ensures
        (count_matching(voices, pred) == 0) <==> (forall|j: int|
            0 <= j < voices.len() ==> !pred(#[trigger] voices[j])),
    decreases voices.len(),
{
    if voices.len() > 0 {
        lemma_count_zero(voices.drop_last(), pred);
        if count_matching(voices, pred) == 0 {
            assert forall|j: int| 0 <= j < voices.len() implies !pred(#[trigger] voices[j]) by {
                if j < voices.len() - 1 {
                    assert(voices.drop_last()[j] == voices[j]);
                }
            }
        }
        if forall|j: int| 0 <= j < voices.len() ==> !pred(#[trigger] voices[j]) {
            assert forall|j: int| 0 <= j < voices.drop_last().len() implies !pred(
                #[trigger] voices.drop_last()[j],
            ) by {
                assert(voices.drop_last()[j] == voices[j]);
            }
        }
    }
}

/// A new note takes a free voice whenever there is one, so the number of
/// active voices grows by one; only when every voice is active is a voice
/// stolen, and then the number of active voices stays the same.
pub proof fn lemma_note_on_active_count(voices: Seq<VoiceState>, index: int, pitch: u8, time: u64)
    requires
        is_selected_voice(voices, index),
    ensures
        has_free_voice(voices) ==> active_count(start_note(voices, index, pitch, time))
            == active_count(voices) + 1,
        !has_free_voice(voices) ==> active_count(start_note(voices, index, pitch, time))
            == active_count(voices),
{
    let pred = |v: VoiceState| stage_is_active(v.stage);
    let voice = VoiceState { stage: Stage::Attack, pitch, note_on_time: time };
    lemma_count_after_update(voices, pred, index, voice);
}

/// When every voice is active, the voice a new note steals is one whose
/// note started no later than any other, and every other voice keeps
/// playing undisturbed.
pub proof fn lemma_note_on_steals_oldest(
    voices: Seq<VoiceState>,
    index: int,
    pitch: u8,
    time: u64,
)
    requires
        is_selected_voice(voices, index),
        !has_free_voice(voices),
    ensures
        forall|j: int|
            0 <= j < voices.len() ==> voices[index].note_on_time <= #[trigger] voices[j].note_on_time,
        forall|j: int|
            0 <= j < voices.len() && j != index ==> #[trigger] start_note(voices, index, pitch, time)[j]
                == voices[j],
{
}

/// After a note-off for `pitch`, no voice holds that pitch any more, and
/// every voice playing another pitch is unchanged.
pub proof fn lemma_note_off_releases_pitch(voices: Seq<VoiceState>, pitch: u8, has_level: Seq<bool>)
    requires
        has_level.len() == voices.len(),
    ensures
        held_count(release_note(voices, pitch, has_level), pitch) == 0,
        forall|j: int|
            0 <= j < voices.len() && voices[j].pitch != pitch ==> #[trigger] release_note(
                voices,
                pitch,
                has_level,
            )[j] == voices[j],
{
    let after = release_note(voices, pitch, has_level);
    let pred = |v: VoiceState| stage_is_held(v.stage) && v.pitch == pitch;
    assert forall|j: int| 0 <= j < after.len() implies !pred(#[trigger] after[j]) by {}
    lemma_count_zero(after, pred);
}

/// Retriggering: a note-on for `pitch` first releases the voices holding
/// that pitch and then starts it on one voice, so afterwards exactly one
/// voice holds the pitch, whichever voice was chosen.
pub proof fn lemma_retrigger_holds_one_voice(
    voices: Seq<VoiceState>,
    has_level: Seq<bool>,
    index: int,
    pitch: u8,
    time: u64,
)
    requires
        has_level.len() == voices.len(),
        0 <= index < voices.len(),
    ensures
        held_count(start_note(release_note(voices, pitch, has_level), index, pitch, time), pitch)
            == 1,
{
    let released = release_note(voices, pitch, has_level);
    let pred = |v: VoiceState| stage_is_held(v.stage) && v.pitch == pitch;
    lemma_note_off_releases_pitch(voices, pitch, has_level);
    let voice = VoiceState { stage: Stage::Attack, pitch, note_on_time: time };
    lemma_count_after_update(released, pred, index, voice);
    lemma_count_zero(released, pred);
}

/// A pitch is among the held pitches exactly when some held voice plays it.
pub proof fn lemma_held_pitches_contains(voices: Seq<VoiceState>, pitch: u8)
    ensures
        held_pitches(voices).contains(pitch) <==> held_count(voices, pitch) > 0,
    decreases voices.len(),
{
    if voices.len() > 0 {
        lemma_held_pitches_contains(voices.drop_last(), pitch);
        let rest = held_pitches(voices.drop_last());
        if stage_is_held(voices.last().stage) {
            let all = rest.push(voices.last().pitch);
            assert(all[rest.len() as int] == voices.last().pitch);
            if rest.contains(pitch) {
                let k = choose|k: int| 0 <= k < rest.len() && rest[k] == pitch;
                assert(all[k] == pitch);
            }
            if all.contains(pitch) && voices.last().pitch != pitch {
                let k = choose|k: int| 0 <= k < all.len() && all[k] == pitch;
                assert(rest[k] == pitch);
            }
        }
    }
}

/// A note that has just been started is listed among the active notes.
pub proof fn lemma_started_note_is_listed(voices: Seq<VoiceState>, index: int, pitch: u8, time: u64)
    requires
        0 <= index < voices.len(),
    ensures
        held_pitches(start_note(voices, index, pitch, time)).contains(pitch),
{
    let pred = |v: VoiceState| stage_is_held(v.stage) && v.pitch == pitch;
    let voice = VoiceState { stage: Stage::Attack, pitch, note_on_time: time };
    lemma_count_after_update(voices, pred, index, voice);
    lemma_count_zero(voices, pred);
    lemma_held_pitches_contains(start_note(voices, index, pitch, time), pitch);
}

/// After a note-off for `pitch`, that pitch is no longer listed among the
/// active notes.
pub proof fn lemma_released_note_is_not_listed(
    voices: Seq<VoiceState>,
    pitch: u8,
    has_level: Seq<bool>,
)
    requires
        has_level.len() == voices.len(),
    ensures
        !held_pitches(release_note(voices, pitch, has_level)).contains(pitch),
{
    lemma_note_off_releases_pitch(voices, pitch, has_level);
    lemma_held_pitches_contains(release_note(voices, pitch, has_level), pitch);
}


/// Counts follow the voices: where the predicate holding of `a[j]` implies
/// `pb` holding of `b[j]`, `a` has no more matches than `b`.
pub proof fn lemma_count_mono(
    a: Seq<VoiceState>,
    b: Seq<VoiceState>,
    pa: spec_fn(VoiceState) -> bool,
    pb: spec_fn(VoiceState) -> bool,
)
    requires
        a.len() == b.len(),
        forall|j: int| 0 <= j < a.len() && pa(#[trigger] a[j]) ==> pb(b[j]),
    ensures
        count_matching(a, pa) <= count_matching(b, pb),
    decreases a.len(),
{
    if a.len() > 0 {
        let a0 = a.drop_last();
        let b0 = b.drop_last();
        assert forall|j: int| 0 <= j < a0.len() && pa(#[trigger] a0[j]) implies pb(b0[j]) by {
            assert(a0[j] == a[j]);
            assert(b0[j] == b[j]);
        }
        lemma_count_mono(a0, b0, pa, pb);
        assert(pa(a[a.len() - 1]) ==> pb(b[b.len() - 1]));
    }
}

/// A count is at most the number of voices, and below it only when some
/// voice fails the predicate.
pub proof fn lemma_count_below_len(voices: Seq<VoiceState>, pred: spec_fn(VoiceState) -> bool)
    ensures
        count_matching(voices, pred) <= voices.len(),
        count_matching(voices, pred) < voices.len() ==> exists|j: int|
            0 <= j < voices.len() && !pred(#[trigger] voices[j]),
    decreases voices.len(),
{
    if voices.len() > 0 {
        let rest = voices.drop_last();
        lemma_count_below_len(rest, pred);
        if count_matching(voices, pred) < voices.len() {
            if !pred(voices[voices.len() - 1]) {
                assert(!pred(voices[voices.len() - 1]));
            } else {
                let j = choose|j: int| 0 <= j < rest.len() && !pred(#[trigger] rest[j]);
                assert(rest[j] == voices[j]);
                assert(!pred(voices[j]));
            }
        }
    }
}

/// How often a pitch occurs among the held pitches: once per held voice
/// playing it.
pub proof fn lemma_held_pitches_count(voices: Seq<VoiceState>, pitch: u8)
    ensures
        held_pitches(voices).to_multiset().count(pitch) == held_count(voices, pitch),
    decreases voices.len(),
{
    broadcast use vstd::multiset::group_multiset_axioms;
    broadcast use vstd::seq_lib::group_to_multiset_ensures;

    if voices.len() == 0 {
        let empty = held_pitches(voices);
        assert(!empty.contains(pitch));
    } else {
        lemma_held_pitches_count(voices.drop_last(), pitch);
        let rest = held_pitches(voices.drop_last());
        if stage_is_held(voices.last().stage) {
            assert(rest.push(voices.last().pitch).to_multiset() =~= rest.to_multiset().insert(
                voices.last().pitch,
            ));
        }
    }
}

/// The bank after a note-on for `pitch`: the voices holding the pitch are
/// released (entering Release or Idle as `has_level` says), then the note
/// starts on voice `index` at `time`.
pub open spec fn note_on_bank(
    voices: Seq<VoiceState>,
    has_level: Seq<bool>,
    pitch: u8,
    index: int,
    time: u64,
) -> Seq<VoiceState> {
    start_note(release_note(voices, pitch, has_level), index, pitch, time)
}

/// While some voice is idle, a note-on steals no sounding note: afterwards
/// the held notes are those held before, without `pitch`, plus `pitch`
/// exactly once; every other pitch is held by as many voices as before, and
/// the number of active voices is at least one and grows by at most one.
pub proof fn lemma_note_on_keeps_other_notes(
    voices: Seq<VoiceState>,
    has_level: Seq<bool>,
    pitch: u8,
    index: int,
    time: u64,
)
    requires
        has_level.len() == voices.len(),
        active_count(voices) < voices.len(),
        is_selected_voice(release_note(voices, pitch, has_level), index),
    ensures
        forall|q: u8|
            #[trigger] held_pitches(note_on_bank(voices, has_level, pitch, index, time)).to_multiset().count(q)
                == if q == pitch {
                1
            } else {
                held_pitches(voices).to_multiset().count(q)
            },
        forall|q: u8|
            q != pitch ==> #[trigger] held_count(note_on_bank(voices, has_level, pitch, index, time), q)
                == held_count(voices, q),
        held_count(note_on_bank(voices, has_level, pitch, index, time), pitch) == 1,
        1 <= active_count(note_on_bank(voices, has_level, pitch, index, time)) <= active_count(
            voices,
        ) + 1,
{
    let released = release_note(voices, pitch, has_level);
    let after = note_on_bank(voices, has_level, pitch, index, time);
    let voice = VoiceState { stage: Stage::Attack, pitch, note_on_time: time };
    let active = |v: VoiceState| stage_is_active(v.stage);

    // Some voice is idle before, and it stays idle through the release.
    lemma_count_below_len(voices, active);
    let free = choose|j: int| 0 <= j < voices.len() && !active(#[trigger] voices[j]);
    assert(released[free] == voices[free]);
    assert(is_free(released[free]));
    assert(has_free_voice(released));
    assert(is_free(released[index]));

    // Active voices: the release activates nothing, the start adds one.
    lemma_count_mono(released, voices, active, active);
    lemma_note_on_active_count(released, index, pitch, time);

    // The started pitch is held once.
    lemma_retrigger_holds_one_voice(voices, has_level, index, pitch, time);

    // Every other pitch keeps its holders.
    assert forall|q: u8| q != pitch implies #[trigger] held_count(after, q) == held_count(voices, q) by {
        let held_q = |v: VoiceState| stage_is_held(v.stage) && v.pitch == q;
        lemma_count_mono(released, voices, held_q, held_q);
        lemma_count_mono(voices, released, held_q, held_q);
        lemma_count_after_update(released, held_q, index, voice);
    }
    assert forall|q: u8|
        #[trigger] held_pitches(after).to_multiset().count(q) == if q == pitch {
            1
        } else {
            held_pitches(voices).to_multiset().count(q)
        } by {
        lemma_held_pitches_count(after, q);
        lemma_held_pitches_count(voices, q);
    }
}

/// What the synthesiser does for a note-on: the voices to release first,
/// the voice the note then goes to, and the note's start time.
#[derive(Debug, Clone)]
pub struct NoteOnPlan {
    /// The voices holding the pitch, released before the note starts.
    pub release: Vec<usize>,
    /// The voice the note starts on.
    pub target: usize,
    /// The note's start time: the next tick of the note clock.
    pub time: u64,
}

/// Plans a note-on for `pitch` on a bank of voices whose note clock reads
/// `clock`. `has_level[j]` tells whether voice `j` still has a level to
/// fade out if it is released. A voice already holding the pitch is
/// released, then the note takes the first free voice, or steals the oldest;
/// its start time is the next clock tick.
pub fn plan_note_on(voices: &[VoiceState], has_level: &[bool], pitch: u8, clock: u64) -> (plan:
    NoteOnPlan)
    requires
        voices@.len() > 0,
        has_level@.len() == voices@.len(),
        clock < u64::MAX,
    ensures
        forall|k: int, l: int|
            0 <= k < l < plan.release@.len() ==> plan.release@[k] < plan.release@[l],
        forall|k: int|
            0 <= k < plan.release@.len() ==> #[trigger] plan.release@[k] < voices@.len()
                && is_released_by(voices@[plan.release@[k] as int], pitch),
        forall|j: int|
            0 <= j < voices@.len() && is_released_by(#[trigger] voices@[j], pitch)
                ==> plan.release@.contains(j as usize),
        is_selected_voice(release_note(voices@, pitch, has_level@), plan.target as int),
        plan.time == clock + 1,
        active_count(voices@) < voices@.len() ==> {
            let after = note_on_bank(voices@, has_level@, pitch, plan.target as int, plan.time);
            &&& forall|q: u8|
                #[trigger] held_pitches(after).to_multiset().count(q) == if q == pitch {
                    1
                } else {
                    held_pitches(voices@).to_multiset().count(q)
                }
            &&& 1 <= active_count(after) <= active_count(voices@) + 1
        },
{
    let release = voices_to_release(voices, pitch);
    let n = voices.len();
    let mut released: Vec<VoiceState> = Vec::new();
    let mut j: usize = 0;
    while j < n
        invariant
            n == voices@.len(),
            n == has_level@.len(),
            0 <= j <= n,
            released@ == release_note(voices@, pitch, has_level@).subrange(0, j as int),
        decreases n - j,
    {
        let voice = voices[j];
        let active = match voice.stage {
            Stage::Idle => false,
            _ => true,
        };
        let next = if active && voice.pitch == pitch {
            VoiceState { stage: stage_on_note_off(has_level[j]), ..voice }
        } else {
            voice
        };
        released.push(next);
        proof {
            assert(released@ =~= release_note(voices@, pitch, has_level@).subrange(0, j + 1));
        }
        j = j + 1;
    }
    proof {
        assert(released@ =~= release_note(voices@, pitch, has_level@));
    }
    let target = select_voice(&released);
    let time = clock + 1;
    proof {
        if active_count(voices@) < voices@.len() {
            lemma_note_on_keeps_other_notes(voices@, has_level@, pitch, target as int, time);
        }
    }
    NoteOnPlan { release, target, time }
}

} // verus!
